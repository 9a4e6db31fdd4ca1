//! Verified core of an asynchronous networking toolkit: an incremental
//! HTTP/1 request-head parser, QUIC stream buffers, retry tokens and stream
//! bookkeeping, event notification outcomes, io interest sets and the
//! command-line helpers of a reverse proxy.
pub mod buf;
pub mod http1;
pub mod io;
pub mod kv;
pub mod quic;
pub mod rproxy;
pub mod text;
pub mod future;
