pub mod batching;
pub mod event_map;
