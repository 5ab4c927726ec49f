//! The read operation kind: bytes from a descriptor into an owned buffer.

use vstd::prelude::*;

use crate::reactor::op::{Completable, CqeResult, Op, Opable, OsError, Wake};
use crate::reactor::ring::{OpDesc, Ring};
use crate::reactor::{Reactor, EBUSY, EINTR};

verus! {

/// A read request: up to the buffer's length in bytes from `fd` at `offset`.
/// The descriptor owns the buffer for the operation's whole outstanding
/// lifetime — the kernel writes into it — and hands it back on completion.
pub struct Read {
    pub fd: i32,
    pub buf: Vec<u8>,
    pub offset: u64,
}

/// A buffer length as the kernel's 32-bit length field: longer buffers are
/// capped at the field's maximum.
pub open spec fn kernel_len(n: nat) -> u32 {
    if n > u32::MAX {
        u32::MAX
    } else {
        n as u32
    }
}

impl Opable for Read {
    open spec fn opcode_spec(&self) -> OpDesc {
        OpDesc::Read { fd: self.fd, len: kernel_len(self.buf@.len()), offset: self.offset }
    }

    fn opcode(&self) -> (e: OpDesc) {
        let len: u32 = if self.buf.len() > u32::MAX as usize {
            u32::MAX
        } else {
            self.buf.len() as u32
        };
        OpDesc::Read { fd: self.fd, len, offset: self.offset }
    }
}

impl Completable for Read {
    type Output = (Result<usize, OsError>, Vec<u8>);

    /// A non-negative kernel result is the byte count read; a negative one
    /// is the OS error.  Either way the buffer goes back to the caller.  A
    /// byte count of zero is end-of-stream, not an error.
    open spec fn complete_spec(self, cqe: CqeResult) -> Self::Output {
        match cqe.result {
            Ok(n) => (Ok(n as usize), self.buf),
            Err(e) => (Err(e), self.buf),
        }
    }

    fn complete(self, cqe: CqeResult) -> (r: Self::Output) {
        match cqe.result {
            Ok(n) => (Ok(n as usize), self.buf),
            Err(e) => (Err(e), self.buf),
        }
    }
}

impl Op<Read> {
    /// Submit a read of `fd` at `offset` into `buf`.
    pub fn read_at<W: Wake, R: Ring>(
        reactor: &mut Reactor<W, R>,
        fd: i32,
        buf: Vec<u8>,
        offset: u64,
    ) -> (r: Result<Op<Read>, OsError>)
        requires
            old(reactor).wf(),
        ensures
            final(reactor).wf(),
            r matches Ok(op) ==> op.descriptor() == Some(Read { fd, buf, offset }) && final(reactor).table().dom().contains(op.id() as int) && !old(reactor).table().dom().contains(
                op.id() as int,
            ),
            r matches Err(e) ==> e.code != EBUSY && e.code != EINTR,
    {
        reactor.submit_op(Read { fd, buf, offset })
    }
}

} // verus!
