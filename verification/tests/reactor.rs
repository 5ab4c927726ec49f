//! Reactor and lifecycle-table behaviour, driven through a simulated ring.

use std::cell::Cell;
use std::rc::Rc;

use uring_reactor::reactor::op::{LcModel, Op, OpPoll, Wake};
use uring_reactor::reactor::read::Read;
use uring_reactor::reactor::ring::{RawCqe, SimRing, SENTINEL};
use uring_reactor::reactor::{Reactor, EBUSY, EINTR};

#[derive(Clone)]
struct CountWake(Rc<Cell<u32>>);

impl Wake for CountWake {
    fn wake(&self) {
        self.0.set(self.0.get() + 1);
    }
}

fn counter() -> (Rc<Cell<u32>>, CountWake) {
    let c = Rc::new(Cell::new(0));
    (c.clone(), CountWake(c))
}

fn read_op(
    reactor: &mut Reactor<CountWake, SimRing>,
    fd: i32,
    buf: Vec<u8>,
) -> Op<Read> {
    Op::<Read>::read_at(reactor, fd, buf, 0).expect("submit failed")
}

#[test]
fn dispatch_routes_each_completion_to_its_slot() {
    let mut reactor: Reactor<CountWake, SimRing> = Reactor::new(SimRing::new(8));
    let mut a = read_op(&mut reactor, 3, vec![0u8; 4]);
    let mut b = read_op(&mut reactor, 4, vec![1u8; 4]);
    let mut c = read_op(&mut reactor, 5, vec![2u8; 4]);
    reactor.submit().expect("flush failed");
    assert_eq!(reactor.ring.accepted_count(), 3);

    // The kernel answers out of submission order.
    reactor.ring.deliver(1, 20, 0); // b
    reactor.ring.deliver(1, 30, 0); // c
    reactor.ring.deliver(0, 10, 0); // a
    reactor.dispatch_completions();

    let (_, w) = counter();
    match a.poll(&mut reactor, w.clone()) {
        OpPoll::Ready((res, buf)) => {
            assert_eq!(res.unwrap(), 10);
            assert_eq!(buf, vec![0u8; 4]);
        }
        OpPoll::Pending => panic!("a not complete"),
    }
    match b.poll(&mut reactor, w.clone()) {
        OpPoll::Ready((res, buf)) => {
            assert_eq!(res.unwrap(), 20);
            assert_eq!(buf, vec![1u8; 4]);
        }
        OpPoll::Pending => panic!("b not complete"),
    }
    match c.poll(&mut reactor, w) {
        OpPoll::Ready((res, buf)) => {
            assert_eq!(res.unwrap(), 30);
            assert_eq!(buf, vec![2u8; 4]);
        }
        OpPoll::Pending => panic!("c not complete"),
    }
}

#[test]
fn sentinel_completion_is_discarded() {
    let mut reactor: Reactor<CountWake, SimRing> = Reactor::new(SimRing::new(8));
    let op = read_op(&mut reactor, 3, vec![0u8; 4]);
    reactor.submit().expect("flush failed");
    reactor.ring.inject(RawCqe { user_data: SENTINEL, result: 1, flags: 0 });
    reactor.dispatch_completions();
    // The sentinel entry was routed to no slot: the operation is still in
    // `Submitted`, and no slot became complete.
    assert!(matches!(reactor.op_state(op.index()), Some(LcModel::Submitted)));
}

#[test]
fn completion_wakes_the_registered_handle() {
    let mut reactor: Reactor<CountWake, SimRing> = Reactor::new(SimRing::new(8));
    let mut op = read_op(&mut reactor, 3, vec![0u8; 4]);
    reactor.submit().expect("flush failed");

    let (count, w) = counter();
    assert!(matches!(op.poll(&mut reactor, w.clone()), OpPoll::Pending));
    assert_eq!(count.get(), 0);

    reactor.ring.deliver(0, 4, 0);
    reactor.dispatch_completions();
    assert_eq!(count.get(), 1, "dispatch wakes the registered handle once");

    match op.poll(&mut reactor, w) {
        OpPoll::Ready((res, _)) => assert_eq!(res.unwrap(), 4),
        OpPoll::Pending => panic!("op not complete"),
    }
    assert_eq!(count.get(), 1);
}

#[test]
fn repeated_polls_replace_the_handle_and_only_the_last_wakes() {
    let mut reactor: Reactor<CountWake, SimRing> = Reactor::new(SimRing::new(8));
    let mut op = read_op(&mut reactor, 3, vec![0u8; 4]);
    reactor.submit().expect("flush failed");

    let (first_count, first) = counter();
    let (second_count, second) = counter();
    assert!(matches!(op.poll(&mut reactor, first), OpPoll::Pending));
    assert!(matches!(op.poll(&mut reactor, second), OpPoll::Pending));

    reactor.ring.deliver(0, 1, 0);
    reactor.dispatch_completions();
    assert_eq!(first_count.get(), 0, "a replaced handle is never woken");
    assert_eq!(second_count.get(), 1, "the most recent handle is woken");
}

#[test]
fn complete_slot_is_cached_until_consumed_and_freed_after() {
    let mut reactor: Reactor<CountWake, SimRing> = Reactor::new(SimRing::new(8));
    let mut op = read_op(&mut reactor, 3, vec![0u8; 4]);
    let id = op.index();
    reactor.submit().expect("flush failed");
    reactor.ring.deliver(0, 4, 7);
    reactor.dispatch_completions();

    // Polling the table twice before consumption reports the same cached
    // raw result both times and leaves the slot complete.
    let (_, w) = counter();
    let one = reactor.poll_op(id, w.clone()).expect("complete");
    let two = reactor.poll_op(id, w.clone()).expect("still complete");
    assert_eq!(one, two);
    assert_eq!(one.result, 4);
    assert_eq!(one.flags, 7);
    assert!(matches!(reactor.op_state(id), Some(LcModel::Complete(c)) if c.result == 4));

    // Consumption removes the slot ...
    assert!(matches!(op.poll(&mut reactor, w), OpPoll::Ready(_)));
    assert!(reactor.op_state(id).is_none());

    // ... and only then may the identifier be reused.
    let reused = read_op(&mut reactor, 9, vec![0u8; 1]);
    assert_eq!(reused.index(), id);
}

#[test]
fn identifier_is_not_reused_while_outstanding() {
    let mut reactor: Reactor<CountWake, SimRing> = Reactor::new(SimRing::new(8));
    let a = read_op(&mut reactor, 3, vec![0u8; 4]);
    let b = read_op(&mut reactor, 3, vec![0u8; 4]);
    let c = read_op(&mut reactor, 3, vec![0u8; 4]);
    assert_ne!(a.index(), b.index());
    assert_ne!(a.index(), c.index());
    assert_ne!(b.index(), c.index());
}

#[test]
fn full_ring_is_retried_without_surfacing_an_error() {
    // A ring of capacity one rejects the second enqueue until the first is
    // flushed; the flush itself first reports a busy kernel and an
    // interrupted call.  The reactor absorbs all of it.
    let mut ring = SimRing::new(1);
    ring.push_submit_error(EINTR);
    ring.push_submit_error(EBUSY);
    let mut reactor: Reactor<CountWake, SimRing> = Reactor::new(ring);

    let a = read_op(&mut reactor, 3, vec![0u8; 4]);
    let b = read_op(&mut reactor, 3, vec![0u8; 4]);
    assert_ne!(a.index(), b.index());
    assert_eq!(reactor.ring.accepted_count(), 1, "the flush reached the kernel");
    reactor.submit().expect("second flush");
    assert_eq!(reactor.ring.accepted_count(), 2);
}

#[test]
fn unexpected_submit_error_surfaces() {
    let mut ring = SimRing::new(1);
    ring.push_submit_error(22); // invalid argument
    let mut reactor: Reactor<CountWake, SimRing> = Reactor::new(ring);
    let _a = read_op(&mut reactor, 3, vec![0u8; 4]);
    // The queue is full, so this submission must flush, and the flush fails.
    let r = Op::<Read>::read_at(&mut reactor, 3, vec![0u8; 4], 0);
    match r {
        Ok(_) => panic!("flush error must surface"),
        Err(e) => assert_eq!(e.code, 22),
    }
}

#[test]
fn wait_flushes_pending_entries() {
    let mut reactor: Reactor<CountWake, SimRing> = Reactor::new(SimRing::new(8));
    let _a = read_op(&mut reactor, 3, vec![0u8; 4]);
    let n = reactor.wait().expect("wait");
    assert_eq!(n, 1);
    assert_eq!(reactor.ring.accepted_count(), 1);
}
