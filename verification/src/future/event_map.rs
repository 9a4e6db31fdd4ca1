//! Event notification for futures: a task waits for an event, another task
//! notifies it with a reason, and the waiting future resolves by that reason.
//!
//! The map of waiting tasks is shared between threads, so what a call finds
//! in it depends on what other threads did; the contracts here state what
//! holds whatever was found, and the decision taken on each outcome.
use vstd::prelude::*;

use std::hash::Hash;
use std::sync::atomic::{AtomicU8, Ordering};
use std::sync::Arc;
use std::task::Waker;

use dashmap::DashMap;

verus! {

#[verifier::external_type_specification]
#[verifier::external_body]
pub struct ExWaker(std::task::Waker);

#[verifier::external_type_specification]
#[verifier::external_body]
#[verifier::reject_recursive_types(K)]
#[verifier::reject_recursive_types(V)]
#[verifier::reject_recursive_types(S)]
pub struct ExDashMap<K, V, S>(dashmap::DashMap<K, V, S>);

/// Why a wait ended in failure.
#[derive(Debug, Clone, Copy, PartialEq, Eq, Structural)]
pub enum EventMapError {
    /// The wait was canceled by the user.
    Cancel,
    /// The event map is being dropped.
    Destroy,
}

/// Why a waiting task was woken up.
#[derive(Debug, Clone, Copy, PartialEq, Eq, Structural)]
pub enum Reason {
    /// No reason set yet.
    Unset,
    /// The event is on.
    On,
    /// Canceled by the user.
    Cancel,
    /// The event map is being dropped.
    Destroy,
}

/// The number under which a reason is stored.
pub open spec fn reason_code_spec(reason: Reason) -> u8 {
    match reason {
        Reason::Unset => 0,
        Reason::On => 1,
        Reason::Cancel => 2,
        Reason::Destroy => 3,
    }
}

impl From<Reason> for u8 {
    fn from(value: Reason) -> (r: u8)
        ensures
            r == reason_code_spec(value),
    {
        match value {
            Reason::Unset => 0,
            Reason::On => 1,
            Reason::Cancel => 2,
            Reason::Destroy => 3,
        }
    }
}

impl vstd::std_specs::convert::FromSpecImpl<Reason> for u8 {
    open spec fn obeys_from_spec() -> bool {
        true
    }

    open spec fn from_spec(v: Reason) -> u8 {
        reason_code_spec(v)
    }
}

/// The number under which `reason` is stored.
pub fn reason_code(reason: Reason) -> (r: u8)
    ensures
        r == reason_code_spec(reason),
{
    u8::from(reason)
}

/// What a waiting future resolves to when it finds the stored reason `code`:
/// `None` while no reason is set (it stays pending), an error for a cancel or
/// a destroy, and success for any other code.
pub open spec fn wait_outcome_spec(code: u8) -> Option<Result<(), EventMapError>> {
    if code == 0 {
        None
    } else if code == 2 {
        Some(Err(EventMapError::Cancel))
    } else if code == 3 {
        Some(Err(EventMapError::Destroy))
    } else {
        Some(Ok(()))
    }
}

/// What a waiting future resolves to when it finds the stored reason `code`.
pub fn wait_outcome(code: u8) -> (r: Option<Result<(), EventMapError>>)
    ensures
        r == wait_outcome_spec(code),
{
    if code == reason_code(Reason::Unset) {
        None
    } else if code == reason_code(Reason::Cancel) {
        Some(Err(EventMapError::Cancel))
    } else if code == reason_code(Reason::Destroy) {
        Some(Err(EventMapError::Destroy))
    } else {
        Some(Ok(()))
    }
}

/// A woken task resolves by the reason it was woken with: on, cancel and
/// destroy map to success, the cancel error and the destroy error.
pub proof fn lemma_wait_resolves_by_reason(reason: Reason)
    requires
        reason != Reason::Unset,
    ensures
        wait_outcome_spec(reason_code_spec(reason)) == match reason {
            Reason::On => Some(Ok::<(), EventMapError>(())),
            Reason::Cancel => Some(Err(EventMapError::Cancel)),
            _ => Some(Err(EventMapError::Destroy)),
        },
{
}

/// `std::task::Waker::wake`: schedules the task.
#[verifier::external_body]
fn waker_wake(waker: Waker) {
    waker.wake()
}

/// `std::task::Waker::wake_by_ref`: schedules the task.
#[verifier::external_body]
fn waker_wake_by_ref(waker: &Waker) {
    waker.wake_by_ref()
}

/// A waiting task's waker and the cell where its wake-up reason goes.
pub struct WakerWithReason {
    pub waker: Waker,
    pub reason: Arc<AtomicU8>,
}

impl WakerWithReason {
    /// Stores the reason, then wakes the task.
    pub fn wake(self, reason: Reason) {
        let code = reason_code(reason);
        self.reason.store(code, Ordering::Release);
        waker_wake(self.waker);
    }

    /// Stores the reason, then wakes the task, keeping the waker.
    pub fn wake_by_ref(&self, reason: Reason) {
        let code = reason_code(reason);
        self.reason.store(code, Ordering::Release);
        waker_wake_by_ref(&self.waker);
    }
}

/// `dashmap::DashMap::new`.
#[verifier::external_body]
fn dashmap_new<K: Eq + Hash, V>() -> DashMap<K, V> {
    DashMap::new()
}

/// `dashmap::DashMap::insert`. The map is shared, so nothing is stated of
/// what it held before.
#[verifier::external_body]
fn dashmap_insert<K: Eq + Hash, V>(map: &DashMap<K, V>, key: K, value: V) {
    map.insert(key, value);
}

/// `dashmap::DashMap::remove`: the entry for `key`, if the map held one,
/// now taken out. Which one it finds depends on other threads.
#[verifier::external_body]
fn dashmap_remove<K: Eq + Hash, V>(map: &DashMap<K, V>, key: &K) -> Option<(K, V)> {
    map.remove(key)
}

/// `dashmap::DashMap::iter`, keeping a copy of each key.
#[verifier::external_body]
fn dashmap_keys<K: Eq + Hash + Clone, V>(map: &DashMap<K, V>) -> Vec<K> {
    map.iter().map(|pair| pair.key().clone()).collect()
}

/// Wakes, with `reason`, the task whose entry was taken out of an event
/// map, if one was. Returns whether there was one.
pub fn wake_removed<E>(entry: Option<(E, WakerWithReason)>, reason: Reason) -> (r: bool)
    ensures
        r == entry is Some,
{
    match entry {
        Some((_, waker)) => {
            waker.wake(reason);
            true
        },
        None => false,
    }
}

/// The mediator of event notification between futures.
#[verifier::reject_recursive_types(E)]
pub struct EventMap<E: Eq + Hash> {
    wakers: DashMap<E, WakerWithReason>,
}

impl<E: Eq + Hash + Clone> EventMap<E> {
    /// An event map with no waiting task.
    pub fn new() -> Self {
        EventMap { wakers: dashmap_new() }
    }

    /// Registers the waker of a task that waits for `event`, replacing any
    /// earlier one.
    pub fn register(&self, event: E, waker: Waker, reason: Arc<AtomicU8>) {
        dashmap_insert(&self.wakers, event, WakerWithReason { waker, reason });
    }

    /// Removes the waker of `event` without waking it.
    pub fn wait_cancel(&self, event: &E) {
        let _ = dashmap_remove(&self.wakers, event);
    }

    /// Wakes the task waiting for `event` with `reason`, taking it out of the
    /// map. Returns whether a task was waiting.
    pub fn notify_one(&self, event: &E, reason: Reason) -> (r: bool) {
        wake_removed(dashmap_remove(&self.wakers, event), reason)
    }

    /// Wakes the tasks waiting for each event in `events`, in order.
    pub fn notify_all(&self, events: &[E], reason: Reason) {
        let mut i: usize = 0;
        while i < events.len()
            decreases events@.len() - i,
        {
            let _ = self.notify_one(&events[i], reason);
            i += 1;
        }
    }

    /// Wakes every waiting task with `reason`.
    pub fn notify_any(&self, reason: Reason) {
        let events = dashmap_keys(&self.wakers);
        self.notify_all(events.as_slice(), reason);
    }
}

} // verus!
