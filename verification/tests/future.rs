use hala::future::batching::{BatchQueue, WakerHost};
use hala::future::event_map::{
    reason_code, wait_outcome, wake_removed, EventMap, EventMapError, Reason, WakerWithReason,
};
use std::sync::atomic::{AtomicU8, AtomicUsize, Ordering};
use std::sync::Arc;
use std::task::{Wake, Waker};

struct CountingWaker(AtomicUsize);

impl Wake for CountingWaker {
    fn wake(self: Arc<Self>) {
        self.0.fetch_add(1, Ordering::SeqCst);
    }
}

fn counting_waker() -> (Arc<CountingWaker>, Waker) {
    let counter = Arc::new(CountingWaker(AtomicUsize::new(0)));
    let waker = Waker::from(counter.clone());
    (counter, waker)
}

#[test]
fn reason_codes() {
    assert_eq!(reason_code(Reason::Unset), 0);
    assert_eq!(reason_code(Reason::On), 1);
    assert_eq!(reason_code(Reason::Cancel), 2);
    assert_eq!(reason_code(Reason::Destroy), 3);
    assert_eq!(u8::from(Reason::Destroy), 3);
}

#[test]
fn wait_outcomes() {
    assert_eq!(wait_outcome(0), None);
    assert_eq!(wait_outcome(1), Some(Ok(())));
    assert_eq!(wait_outcome(2), Some(Err(EventMapError::Cancel)));
    assert_eq!(wait_outcome(3), Some(Err(EventMapError::Destroy)));
    assert_eq!(wait_outcome(200), Some(Ok(())));
    for reason in [Reason::On, Reason::Cancel, Reason::Destroy] {
        let expected = match reason {
            Reason::On => Ok(()),
            Reason::Cancel => Err(EventMapError::Cancel),
            _ => Err(EventMapError::Destroy),
        };
        assert_eq!(wait_outcome(reason_code(reason)), Some(expected));
    }
}

#[test]
fn waker_with_reason_stores_then_wakes() {
    let (counter, waker) = counting_waker();
    let cell = Arc::new(AtomicU8::new(0));
    let w = WakerWithReason { waker, reason: cell.clone() };
    w.wake_by_ref(Reason::Cancel);
    assert_eq!(cell.load(Ordering::SeqCst), 2);
    assert_eq!(counter.0.load(Ordering::SeqCst), 1);
    w.wake(Reason::On);
    assert_eq!(cell.load(Ordering::SeqCst), 1);
    assert_eq!(counter.0.load(Ordering::SeqCst), 2);
}

#[test]
fn event_map_notifications() {
    let map: EventMap<u32> = EventMap::new();
    let (c1, w1) = counting_waker();
    let (c2, w2) = counting_waker();
    let r1 = Arc::new(AtomicU8::new(0));
    let r2 = Arc::new(AtomicU8::new(0));
    map.register(1, w1, r1.clone());
    map.register(2, w2, r2.clone());
    assert!(map.notify_one(&1, Reason::On));
    assert!(!map.notify_one(&1, Reason::On));
    assert_eq!(r1.load(Ordering::SeqCst), 1);
    assert_eq!(c1.0.load(Ordering::SeqCst), 1);
    map.wait_cancel(&2);
    assert!(!map.notify_one(&2, Reason::On));
    assert_eq!(c2.0.load(Ordering::SeqCst), 0);

    let (c3, w3) = counting_waker();
    let (c4, w4) = counting_waker();
    let r3 = Arc::new(AtomicU8::new(0));
    let r4 = Arc::new(AtomicU8::new(0));
    map.register(3, w3, r3.clone());
    map.register(4, w4, r4.clone());
    map.notify_all(&[3, 5], Reason::Cancel);
    assert_eq!(r3.load(Ordering::SeqCst), 2);
    assert_eq!(c3.0.load(Ordering::SeqCst), 1);
    map.notify_any(Reason::Destroy);
    assert_eq!(r4.load(Ordering::SeqCst), 3);
    assert_eq!(c4.0.load(Ordering::SeqCst), 1);
}

#[test]
fn waker_host_slot() {
    let mut host = WakerHost::new();
    assert!(host.remove_waker().is_none());
    assert!(!host.wake());
    let (c1, w1) = counting_waker();
    let (c2, w2) = counting_waker();
    assert!(host.add_waker(w1).is_none());
    let replaced = host.add_waker(w2);
    assert!(replaced.is_some());
    assert!(host.wake());
    assert_eq!(c2.0.load(Ordering::SeqCst), 1);
    assert_eq!(c1.0.load(Ordering::SeqCst), 0);
    assert!(!host.wake());
    let (_c3, w3) = counting_waker();
    host.add_waker(w3);
    assert!(host.remove_waker().is_some());
    assert!(host.remove_waker().is_none());
}

#[test]
fn batch_queue_ids_and_order() {
    let mut q: BatchQueue<&str> = BatchQueue::new();
    assert_eq!(q.push("a"), 0);
    assert_eq!(q.push("b"), 1);
    assert_eq!(q.take_ready(), Some((0, "a")));
    // "a" is being polled: a wake-up of its id finds nothing to poll.
    q.wake(0);
    assert_eq!(q.take_ready(), Some((1, "b")));
    assert_eq!(q.take_ready(), None);
    q.repend(1, "b");
    q.wake(0);
    q.wake(1);
    assert_eq!(q.take_ready(), Some((1, "b")));
    assert_eq!(q.take_ready(), None);
    assert_eq!(q.push("c"), 2);
    assert_eq!(q.take_ready(), Some((2, "c")));
}

#[test]
fn wake_removed_entries() {
    let (counter, waker) = counting_waker();
    let cell = Arc::new(AtomicU8::new(0));
    let entry = Some((7u32, WakerWithReason { waker, reason: cell.clone() }));
    assert!(wake_removed(entry, Reason::Cancel));
    assert_eq!(cell.load(Ordering::SeqCst), 2);
    assert_eq!(counter.0.load(Ordering::SeqCst), 1);
    assert!(!wake_removed::<u32>(None, Reason::On));
}

#[test]
fn woken_twice_is_taken_once() {
    let mut q = BatchQueue::new();
    assert_eq!(q.push("a"), 0);
    assert_eq!(q.push("b"), 1);
    q.wake(0);
    q.wake(0);
    assert_eq!(q.take_ready(), Some((0, "a")));
    assert_eq!(q.take_ready(), Some((1, "b")));
    assert_eq!(q.take_ready(), None);
}
