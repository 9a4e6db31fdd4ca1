//! Readiness bookkeeping of the io poller: which interests an event
//! reports, which waiter tables a registration or a wake-up touches.
use vstd::prelude::*;

use super::interest::Interest;

verus! {

/// The interests that an io event with the given readiness reports.
///
/// Both flags are set, then `Readable` is dropped when the event is not
/// readable, and otherwise `Writable` is dropped when it is not writable.
/// An event that is neither readable nor writable thus reports `Writable`.
pub open spec fn event_interest_bits(readable: bool, writable: bool) -> usize {
    if !readable {
        1
    } else if !writable {
        2
    } else {
        3
    }
}

/// The interests that an io event with the given readiness reports, as
/// [`event_interest_bits`] says.
pub fn event_interests(readable: bool, writable: bool) -> (r: Interest)
    ensures
        r@ == event_interest_bits(readable, writable),
{
    let mut interests = Interest::Readable() | Interest::Writable();
    assert(2usize | 1usize == 3usize) by (bit_vector);
    if !readable {
        interests = interests ^ Interest::Readable();
        assert(3usize ^ 2usize == 1usize) by (bit_vector);
    } else if !writable {
        interests = interests ^ Interest::Writable();
        assert(3usize ^ 1usize == 2usize) by (bit_vector);
    }
    interests
}

/// Which waiters a reported set of interests wakes: `(readers, writers)`.
pub fn wake_targets(interests: Interest) -> (r: (bool, bool))
    ensures
        r.0 == (interests@ & 2 == 2),
        r.1 == (interests@ & 1 == 1),
{
    (interests.contains(Interest::Readable()), interests.contains(Interest::Writable()))
}

/// The table of waiters that a single task waits in.
#[derive(Clone, Copy, PartialEq, Eq, Structural, Debug)]
pub enum WakerSlot {
    /// The table of tasks waiting for the source to become readable.
    Read,
    /// The table of tasks waiting for the source to become writable.
    Write,
}

/// The table a waiter with the given interests is put in or taken from:
/// readers first, then writers, and none for a set without either flag.
pub fn waker_slot(interests: Interest) -> (r: Option<WakerSlot>)
    ensures
        interests@ & 2 == 2 ==> r == Some(WakerSlot::Read),
        interests@ & 2 != 2 && interests@ & 1 == 1 ==> r == Some(WakerSlot::Write),
        interests@ & 2 != 2 && interests@ & 1 != 1 ==> r is None,
{
    if interests.contains(Interest::Readable()) {
        Some(WakerSlot::Read)
    } else if interests.contains(Interest::Writable()) {
        Some(WakerSlot::Write)
    } else {
        None
    }
}

/// The readiness a source is registered for with the poller, as
/// `(readable, writable)`: exactly the flags that `interests` holds. A set
/// with neither flag cannot be registered.
pub fn registration_flags(interests: Interest) -> (r: (bool, bool))
    requires
        interests@ & 2 == 2 || interests@ & 1 == 1,
    ensures
        r.0 == (interests@ & 2 == 2),
        r.1 == (interests@ & 1 == 1),
        r.0 || r.1,
{
    (interests.contains(Interest::Readable()), interests.contains(Interest::Writable()))
}

/// An event that is readable wakes the readers; one that is readable and
/// writable wakes both tables; one that is not readable wakes the writers.
pub proof fn lemma_event_wakes(readable: bool, writable: bool)
    ensures
        readable ==> event_interest_bits(readable, writable) & 2 == 2,
        readable && writable ==> event_interest_bits(readable, writable) & 1 == 1,
        !readable ==> event_interest_bits(readable, writable) & 1 == 1
            && event_interest_bits(readable, writable) & 2 != 2,
        readable && !writable ==> event_interest_bits(readable, writable) & 1 != 1,
{
    assert(3usize & 2usize == 2usize && 2usize & 2usize == 2usize && 3usize & 1usize == 1usize
        && 1usize & 1usize == 1usize && 1usize & 2usize != 2usize && 2usize & 1usize != 1usize)
        by (bit_vector);
}

} // verus!
