//! Buffers and readiness helpers for non-blocking io.
use vstd::prelude::*;

pub mod interest;
pub mod poller;
pub mod read_buf;
pub mod timer;
pub mod wouldblock;

verus! {

#[verifier::external_type_specification]
#[verifier::external_body]
pub struct ExIoError(std::io::Error);

} // verus!
