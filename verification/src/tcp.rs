//! The socket layer: thin wrappers around connected and listening kernel
//! socket descriptors, and the per-connection echo-loop policy.
//!
//! Creating the descriptors — resolving an address, constructing a socket
//! with address and port reuse, binding and listening — is socket I/O that
//! the embedder performs; it then wraps the resulting descriptor here and
//! issues accept, read and write operations through the reactor.

use vstd::prelude::*;

use crate::reactor::accept::Accept;
use crate::reactor::op::{Op, OsError, Wake};
use crate::reactor::read::Read;
use crate::reactor::ring::Ring;
use crate::reactor::write::Write;
use crate::reactor::{Reactor, EBUSY, EINTR};

verus! {

/// A connected socket: a wrapper around the raw descriptor the kernel
/// returned from accept (or that the embedder connected itself).
#[derive(Debug)]
pub struct TcpStream {
    fd: i32,
}

impl TcpStream {
    /// The stream holding descriptor `fd`.
    pub closed spec fn with_fd(fd: i32) -> TcpStream {
        TcpStream { fd }
    }

    pub closed spec fn raw_fd(&self) -> i32 {
        self.fd
    }

    pub fn new(fd: i32) -> (r: TcpStream)
        ensures
            r == TcpStream::with_fd(fd),
            r.raw_fd() == fd,
    {
        TcpStream { fd }
    }

    pub fn fd(&self) -> (r: i32)
        ensures
            r == self.raw_fd(),
    {
        self.fd
    }

    /// Issue a read from this stream, at offset zero, into `buf`.
    pub fn read<W: Wake, R: Ring>(
        &self,
        reactor: &mut Reactor<W, R>,
        buf: Vec<u8>,
    ) -> (r: Result<Op<Read>, OsError>)
        requires
            old(reactor).wf(),
        ensures
            final(reactor).wf(),
            r matches Ok(op) ==> op.descriptor() == Some(
                Read { fd: self.raw_fd(), buf, offset: 0 },
            ) && final(reactor).table().dom().contains(op.id() as int),
            r matches Err(e) ==> e.code != EBUSY && e.code != EINTR,
    {
        Op::<Read>::read_at(reactor, self.fd, buf, 0)
    }

    /// Issue a write to this stream, at offset zero, of `buf`'s bytes.
    pub fn write<W: Wake, R: Ring>(
        &self,
        reactor: &mut Reactor<W, R>,
        buf: Vec<u8>,
    ) -> (r: Result<Op<Write>, OsError>)
        requires
            old(reactor).wf(),
        ensures
            final(reactor).wf(),
            r matches Ok(op) ==> op.descriptor() == Some(
                Write { fd: self.raw_fd(), buf, offset: 0 },
            ) && final(reactor).table().dom().contains(op.id() as int),
            r matches Err(e) ==> e.code != EBUSY && e.code != EINTR,
    {
        Op::<Write>::write_at(reactor, self.fd, buf, 0)
    }
}

/// A listening socket: a wrapper around a bound, listening descriptor.
#[derive(Debug)]
pub struct TcpListener {
    fd: i32,
}

impl TcpListener {
    pub closed spec fn raw_fd(&self) -> i32 {
        self.fd
    }

    /// Wrap a descriptor the embedder has bound and put into listening
    /// state.
    pub fn new(fd: i32) -> (r: TcpListener)
        ensures
            r.raw_fd() == fd,
    {
        TcpListener { fd }
    }

    pub fn fd(&self) -> (r: i32)
        ensures
            r == self.raw_fd(),
    {
        self.fd
    }

    /// Issue an accept on this listener.
    pub fn accept<W: Wake, R: Ring>(&self, reactor: &mut Reactor<W, R>) -> (r: Result<
        Op<Accept>,
        OsError,
    >)
        requires
            old(reactor).wf(),
        ensures
            final(reactor).wf(),
            r matches Ok(op) ==> op.descriptor() == Some(Accept { fd: self.raw_fd() }) && final(reactor).table().dom().contains(op.id() as int),
            r matches Err(e) ==> e.code != EBUSY && e.code != EINTR,
    {
        Op::<Accept>::accept(reactor, self.fd)
    }
}

/// What a connection's echo loop does next after a read completed.
#[derive(Clone, Copy, Debug, PartialEq, Eq, Structural)]
pub enum EchoStep {
    /// Echo the first `n` bytes of the buffer back to the peer.
    Echo(usize),
    /// End this connection's loop.
    Stop,
}

/// The echo loop's decision after a read: a positive byte count is echoed
/// back; a byte count of zero is end-of-stream and ends the loop without
/// surfacing an error; a read error also ends the loop.
pub fn echo_after_read(res: &Result<usize, OsError>) -> (s: EchoStep)
    ensures
        forall|n: usize| *res == Ok::<usize, OsError>(n) && n > 0 ==> s == EchoStep::Echo(n),
        *res == Ok::<usize, OsError>(0) ==> s == EchoStep::Stop,
        *res is Err ==> s == EchoStep::Stop,
{
    match res {
        Ok(n) => {
            if *n == 0 {
                EchoStep::Stop
            } else {
                EchoStep::Echo(*n)
            }
        },
        Err(_) => EchoStep::Stop,
    }
}

/// The echo loop's decision after a write: it goes on exactly when the
/// write succeeded; a write error ends the loop.
pub fn echo_after_write(res: &Result<usize, OsError>) -> (go_on: bool)
    ensures
        go_on <==> *res is Ok,
{
    res.is_ok()
}

} // verus!
