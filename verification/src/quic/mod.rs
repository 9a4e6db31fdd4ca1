pub mod listener;
pub mod pacing;
pub mod seed;
pub mod stream_buf;
pub mod streams;
pub mod token;
