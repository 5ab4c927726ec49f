//! End-to-end echo scenarios over the simulated ring: the socket layer
//! issues accept, read and write operations; the test plays the kernel.
//!
//! A kernel read deposits the peer's bytes in the operation's buffer before
//! reporting the byte count; here the test writes the bytes it pretends the
//! peer sent into the buffer it hands to the read, and the reactor's
//! contract guarantees the buffer comes back untouched with the reported
//! count.

use std::cell::Cell;
use std::rc::Rc;

use uring_reactor::reactor::op::{OpPoll, Wake};
use uring_reactor::reactor::ring::SimRing;
use uring_reactor::reactor::Reactor;
use uring_reactor::tcp::{echo_after_read, echo_after_write, EchoStep, TcpListener, TcpStream};

#[derive(Clone)]
struct CountWake(Rc<Cell<u32>>);

impl Wake for CountWake {
    fn wake(&self) {
        self.0.set(self.0.get() + 1);
    }
}

fn wake() -> CountWake {
    CountWake(Rc::new(Cell::new(0)))
}

type Rx = Reactor<CountWake, SimRing>;

/// Drive one submitted operation to completion: flush, complete the oldest
/// accepted entry with `result`, dispatch, and poll the adapter.
fn drive<T: uring_reactor::reactor::op::Completable>(
    reactor: &mut Rx,
    mut op: uring_reactor::reactor::op::Op<T>,
    result: i32,
) -> T::Output {
    reactor.submit().expect("flush");
    reactor.ring.deliver(0, result, 0);
    reactor.dispatch_completions();
    match op.poll(reactor, wake()) {
        OpPoll::Ready(out) => out,
        OpPoll::Pending => panic!("operation did not complete"),
    }
}

#[test]
fn echo_session_returns_exactly_the_peers_bytes() {
    let mut reactor: Rx = Reactor::new(SimRing::new(8));
    let listener = TcpListener::new(3);
    assert_eq!(listener.fd(), 3);

    // One client connects.
    let accept = listener.accept(&mut reactor).expect("submit accept");
    let stream = drive(&mut reactor, accept, 7).expect("accept");
    assert_eq!(stream.fd(), 7);

    // The peer sends "ping": the kernel fills the read buffer and reports 4.
    let mut buf = vec![0u8; 8];
    buf[..4].copy_from_slice(b"ping");
    let read = stream.read(&mut reactor, buf).expect("submit read");
    let (res, buf) = drive(&mut reactor, read, 4);
    let n = match echo_after_read(&res) {
        EchoStep::Echo(n) => n,
        EchoStep::Stop => panic!("four bytes must be echoed"),
    };
    assert_eq!(n, 4);

    // The service echoes exactly those bytes back.
    let echoed = buf[..n].to_vec();
    assert_eq!(echoed, b"ping".to_vec());
    let write = stream.write(&mut reactor, echoed).expect("submit write");
    let (res, sent) = drive(&mut reactor, write, 4);
    assert_eq!(res.unwrap(), 4, "a fully accepted write reports its byte count");
    assert_eq!(sent, b"ping".to_vec());
    assert!(echo_after_write(&res));

    // The peer half-closes: a zero byte count ends the loop cleanly.
    let read = stream.read(&mut reactor, vec![0u8; 8]).expect("submit read");
    let (res, _) = drive(&mut reactor, read, 0);
    assert!(res.is_ok(), "end-of-stream is not an error");
    assert_eq!(echo_after_read(&res), EchoStep::Stop);
}

#[test]
fn read_error_stops_the_loop_with_the_os_error() {
    let mut reactor: Rx = Reactor::new(SimRing::new(8));
    let stream = TcpStream::new(7);
    let read = stream.read(&mut reactor, vec![0u8; 8]).expect("submit read");
    let (res, _) = drive(&mut reactor, read, -104); // connection reset
    assert_eq!(res.as_ref().unwrap_err().code, 104);
    assert_eq!(echo_after_read(&res), EchoStep::Stop);
}

#[test]
fn write_error_stops_the_loop() {
    let mut reactor: Rx = Reactor::new(SimRing::new(8));
    let stream = TcpStream::new(7);
    let write = stream.write(&mut reactor, b"x".to_vec()).expect("submit write");
    let (res, _) = drive(&mut reactor, write, -32); // broken pipe
    assert!(!echo_after_write(&res));
}

#[test]
fn two_connections_echo_independently() {
    let mut reactor: Rx = Reactor::new(SimRing::new(8));
    let first = TcpStream::new(7);
    let second = TcpStream::new(8);

    // Both connections have a read outstanding at once; each buffer holds
    // what its own peer sent.
    let read_first = first.read(&mut reactor, b"from first ".to_vec()).expect("submit");
    let read_second = second.read(&mut reactor, b"from second".to_vec()).expect("submit");
    reactor.submit().expect("flush");
    assert_eq!(reactor.ring.accepted_count(), 2);

    // The kernel completes them in the opposite order.
    reactor.ring.deliver(1, 11, 0); // second
    reactor.ring.deliver(0, 11, 0); // first
    reactor.dispatch_completions();

    let mut read_first = read_first;
    let mut read_second = read_second;
    let (res, buf) = match read_second.poll(&mut reactor, wake()) {
        OpPoll::Ready(out) => out,
        OpPoll::Pending => panic!("second not complete"),
    };
    assert_eq!(res.unwrap(), 11);
    assert_eq!(buf, b"from second".to_vec(), "no cross-delivery of buffers");
    let (res, buf) = match read_first.poll(&mut reactor, wake()) {
        OpPoll::Ready(out) => out,
        OpPoll::Pending => panic!("first not complete"),
    };
    assert_eq!(res.unwrap(), 11);
    assert_eq!(buf, b"from first ".to_vec(), "no cross-delivery of buffers");

    // Each echoes its own bytes back on its own descriptor.
    let write_first = first.write(&mut reactor, b"from first ".to_vec()).expect("submit");
    let write_second = second.write(&mut reactor, b"from second".to_vec()).expect("submit");
    reactor.submit().expect("flush");
    reactor.ring.deliver(0, 11, 0);
    reactor.ring.deliver(0, 11, 0);
    reactor.dispatch_completions();
    let mut write_first = write_first;
    let mut write_second = write_second;
    for (op, expect) in [
        (&mut write_first, b"from first ".to_vec()),
        (&mut write_second, b"from second".to_vec()),
    ] {
        match op.poll(&mut reactor, wake()) {
            OpPoll::Ready((res, buf)) => {
                assert_eq!(res.unwrap(), 11);
                assert_eq!(buf, expect);
            }
            OpPoll::Pending => panic!("write not complete"),
        }
    }
}
