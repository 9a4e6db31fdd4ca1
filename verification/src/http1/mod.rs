pub mod grammar;
pub mod parse;
pub mod scan;
pub mod types;
