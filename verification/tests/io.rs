use hala::io::interest::{FileMode, Interest};
use hala::io::poller::{event_interests, registration_flags, wake_targets, waker_slot, WakerSlot};
use hala::io::read_buf::ReadBuf;
use hala::io::timer::{sleep_outcome, timeout_applies};
use hala::io::wouldblock::{
    poll_result, poll_would_block, would_block, would_block_outcome, IoPoll,
};
use std::io;

#[test]
fn interest_flags_and_ops() {
    let r = Interest::Readable();
    let w = Interest::Writable();
    assert_eq!(w.bits(), 1);
    assert_eq!(r.bits(), 2);
    let both = r | w;
    assert_eq!(both.bits(), 3);
    assert!(both.contains(r) && both.contains(w));
    assert!(both.is_all_flags());
    assert_eq!((both ^ r).bits(), 1);
    assert_eq!((both & r).bits(), 2);
    assert!(!r.contains(w));
    assert!(r.intersects(both));
    assert!(!r.intersects(w));
    assert!(r.intersects(Interest::none()));
    assert!(Interest::none().is_none());
    assert!(Interest::all().is_all_bits());
    assert_eq!(Interest::all().truncate().bits(), 3);
    assert_eq!((!w).bits(), usize::MAX - 1);
    assert_eq!(w.not().bits(), usize::MAX - 1);
    assert_eq!(r.or(w), both);
    assert_eq!(both.and(w), w);
    assert_eq!(both.xor(w), r);
    assert_eq!(Interest::from(6usize).bits(), 6);
    assert_eq!(usize::from(both), 3);
    assert_eq!(Interest::from_bits(2), r);
    assert_eq!(Interest::full(), Interest::all_flags());
    assert!(Interest::all_bits().is_all());
    assert!(both.is_full());
}

#[test]
fn interest_laws_on_values() {
    let a = Interest::from_bits(0b1010);
    let b = Interest::from_bits(0b0110);
    assert!((a | b).contains(a) && (a | b).contains(b));
    assert_eq!((a ^ b) ^ b, a);
    assert!(a.contains(a) && a.contains(Interest::none()));
    assert!((a & !a).is_none());
    assert!((a | !a).is_all_bits());
}

#[test]
fn file_mode_flags() {
    assert_eq!(FileMode::Read().bits(), 1);
    assert_eq!(FileMode::Write().bits(), 2);
    assert_eq!(FileMode::Create().bits(), 4);
    assert_eq!(FileMode::Truncate().bits(), 8);
    let m = FileMode::Read() | FileMode::Write() | FileMode::Create() | FileMode::Truncate();
    assert!(m.is_all_flags());
    assert_eq!(FileMode::all_flags().bits(), 15);
    assert_eq!(FileMode::from_bits(0xff).truncate().bits(), 15);
    assert!(m.contains(FileMode::Create()));
    assert!(!(m ^ FileMode::Create()).contains(FileMode::Create()));
}

#[test]
fn event_interests_reported() {
    assert_eq!(event_interests(true, true).bits(), 3);
    assert_eq!(event_interests(true, false).bits(), 2);
    assert_eq!(event_interests(false, true).bits(), 1);
    // An event that is neither readable nor writable still reports Writable.
    assert_eq!(event_interests(false, false).bits(), 1);
    assert_eq!(wake_targets(event_interests(true, true)), (true, true));
    assert_eq!(wake_targets(event_interests(true, false)), (true, false));
    assert_eq!(wake_targets(event_interests(false, false)), (false, true));
}

#[test]
fn waker_slots_and_registration() {
    let r = Interest::Readable();
    let w = Interest::Writable();
    assert_eq!(waker_slot(r | w), Some(WakerSlot::Read));
    assert_eq!(waker_slot(w), Some(WakerSlot::Write));
    assert_eq!(waker_slot(Interest::none()), None);
    assert_eq!(waker_slot(Interest::all()), Some(WakerSlot::Read));
    assert_eq!(registration_flags(r), (true, false));
    assert_eq!(registration_flags(w), (false, true));
    assert_eq!(registration_flags(r | w), (true, true));
}

fn would_block_err() -> io::Error {
    io::Error::new(io::ErrorKind::WouldBlock, "later")
}

#[test]
fn would_block_outcomes() {
    assert!(matches!(would_block_outcome(Ok::<u8, io::Error>(3), false), IoPoll::Ready(Ok(3))));
    assert!(matches!(would_block_outcome::<u8>(Err(would_block_err()), true), IoPoll::Pending));
    match would_block_outcome::<u8>(Err(io::Error::new(io::ErrorKind::Other, "x")), false) {
        IoPoll::Ready(Err(e)) => assert_eq!(e.kind(), io::ErrorKind::Other),
        _ => panic!("expected a ready error"),
    }
    assert!(matches!(poll_result::<u8>(Err(would_block_err())), IoPoll::Pending));
    match poll_result::<u8>(Err(io::Error::new(io::ErrorKind::BrokenPipe, "x"))) {
        IoPoll::Ready(Err(e)) => assert_eq!(e.kind(), io::ErrorKind::BrokenPipe),
        _ => panic!("expected a ready error"),
    }
    assert!(matches!(poll_result(Ok::<u8, io::Error>(9)), IoPoll::Ready(Ok(9))));
    assert!(matches!(poll_would_block(|| Ok::<u32, io::Error>(5)), IoPoll::Ready(Ok(5))));
    assert!(matches!(poll_would_block(|| Err::<u32, io::Error>(would_block_err())), IoPoll::Pending));
}

#[test]
fn would_block_future_keeps_operation() {
    let w = would_block(|_cx: &mut std::task::Context<'_>| Ok::<u8, io::Error>(1));
    let mut f = w.into_operation();
    let waker = futures::task::noop_waker();
    let mut cx = std::task::Context::from_waker(&waker);
    assert_eq!(f(&mut cx).unwrap(), 1);
}

#[test]
fn timer_decisions() {
    assert!(timeout_applies(Some(1)));
    assert!(!timeout_applies(Some(0)));
    assert!(!timeout_applies(None));
    assert!(matches!(sleep_outcome(Ok(true)), IoPoll::Ready(Ok(()))));
    assert!(matches!(sleep_outcome(Ok(false)), IoPoll::Pending));
    assert!(matches!(
        sleep_outcome(Err(io::Error::new(io::ErrorKind::Other, "x"))),
        IoPoll::Ready(Err(_))
    ));
}

#[test]
fn read_buf_fill_and_consume() {
    let mut b = ReadBuf::with_capacity(8);
    assert_eq!(b.len(), 0);
    b.filled_from(b"hello world");
    assert_eq!(b.chunk(), b"hello world");
    let head = b.split_to(5);
    assert_eq!(&head[..], b"hello");
    b.advance(1);
    assert_eq!(b.chunk(), b"world");
    assert_eq!(b.len(), 5);
    let bm = b.into_bytes_mut(Some(b"!"));
    assert_eq!(&bm[..], b"world!");
    let mut b = ReadBuf::with_capacity(2);
    b.filled_from(b"ab");
    assert_eq!(&b.into_bytes(None)[..], b"ab");
}
