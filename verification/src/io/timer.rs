//! Decisions of timers: when a deadline bounds a future, and what a poll of
//! a sleeping task gives.
use vstd::prelude::*;

use std::io;

use super::wouldblock::IoPoll;

verus! {

/// Whether a deadline of `expired` nanoseconds bounds a future: only a
/// deadline that is given and is not zero does; otherwise the future runs
/// to its end.
pub fn timeout_applies(expired: Option<u128>) -> (r: bool)
    ensures
        r == (expired matches Some(d) && d != 0),
{
    match expired {
        Some(d) => d != 0,
        None => false,
    }
}

/// What polling a sleep gives, from what asking its timer returned: an
/// expired timer is ready, a running one is pending, an error is ready.
pub fn sleep_outcome(status: io::Result<bool>) -> (p: IoPoll<()>)
    ensures
        match status {
            Ok(true) => p == IoPoll::Ready(Ok::<(), io::Error>(())),
            Ok(false) => p is Pending,
            Err(e) => p == IoPoll::Ready(Err::<(), io::Error>(e)),
        },
{
    match status {
        Ok(true) => IoPoll::Ready(Ok(())),
        Ok(false) => IoPoll::Pending,
        Err(e) => IoPoll::Ready(Err(e)),
    }
}

/// A place that runs io futures to completion.
pub trait IoSpawner {
    /// The futures it runs.
    type Fut: std::future::Future<Output = io::Result<()>>;

    /// Hands `fut` over to be polled to completion.
    fn spawn(&self, fut: Self::Fut) -> io::Result<()>;
}

} // verus!
