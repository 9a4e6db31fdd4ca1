//! The reverse proxy's argument parsers, traffic counters and tunnel
//! handshakers.
pub mod profile;
pub mod tcp;
pub mod utils;
