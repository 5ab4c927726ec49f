//! The accept operation kind: one connection from a listening socket.

use vstd::prelude::*;

use crate::reactor::op::{Completable, CqeResult, Op, Opable, OsError, Wake};
use crate::reactor::ring::{OpDesc, Ring};
use crate::reactor::{Reactor, EBUSY, EINTR};
use crate::tcp::TcpStream;

verus! {

/// An accept request on the listening descriptor `fd`.  The peer's address
/// is written by the kernel into storage the embedder pins beside the
/// submission entry; this crate's result is the connected stream.
pub struct Accept {
    pub fd: i32,
}

impl Opable for Accept {
    open spec fn opcode_spec(&self) -> OpDesc {
        OpDesc::Accept { fd: self.fd }
    }

    fn opcode(&self) -> (e: OpDesc) {
        OpDesc::Accept { fd: self.fd }
    }
}

impl Completable for Accept {
    type Output = Result<TcpStream, OsError>;

    /// A non-negative kernel result is the connected stream's descriptor; a
    /// negative one is the OS error.
    open spec fn complete_spec(self, cqe: CqeResult) -> Self::Output {
        match cqe.result {
            Ok(n) => Ok(TcpStream::with_fd(n as i32)),
            Err(e) => Err(e),
        }
    }

    fn complete(self, cqe: CqeResult) -> (r: Self::Output) {
        match cqe.result {
            Ok(n) => Ok(TcpStream::new(n as i32)),
            Err(e) => Err(e),
        }
    }
}

impl Op<Accept> {
    /// Submit an accept on the listening descriptor `fd`.
    pub fn accept<W: Wake, R: Ring>(reactor: &mut Reactor<W, R>, fd: i32) -> (r: Result<
        Op<Accept>,
        OsError,
    >)
        requires
            old(reactor).wf(),
        ensures
            final(reactor).wf(),
            r matches Ok(op) ==> op.descriptor() == Some(Accept { fd }) && final(reactor).table().dom().contains(op.id() as int) && !old(reactor).table().dom().contains(
                op.id() as int,
            ),
            r matches Err(e) ==> e.code != EBUSY && e.code != EINTR,
    {
        reactor.submit_op(Accept { fd })
    }
}

} // verus!
