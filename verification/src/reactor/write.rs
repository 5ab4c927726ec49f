//! The write operation kind: bytes from an owned buffer to a descriptor.

use vstd::prelude::*;

use crate::reactor::op::{Completable, CqeResult, Op, Opable, OsError, Wake};
use crate::reactor::read::kernel_len;
use crate::reactor::ring::{OpDesc, Ring};
use crate::reactor::{Reactor, EBUSY, EINTR};

verus! {

/// A write request: the buffer's bytes to `fd` at `offset`.  The descriptor
/// owns the buffer for the operation's whole outstanding lifetime — the
/// kernel reads from it — and hands it back on completion.
pub struct Write {
    pub fd: i32,
    pub buf: Vec<u8>,
    pub offset: u64,
}

impl Opable for Write {
    open spec fn opcode_spec(&self) -> OpDesc {
        OpDesc::Write { fd: self.fd, len: kernel_len(self.buf@.len()), offset: self.offset }
    }

    fn opcode(&self) -> (e: OpDesc) {
        let len: u32 = if self.buf.len() > u32::MAX as usize {
            u32::MAX
        } else {
            self.buf.len() as u32
        };
        OpDesc::Write { fd: self.fd, len, offset: self.offset }
    }
}

impl Completable for Write {
    type Output = (Result<usize, OsError>, Vec<u8>);

    /// A non-negative kernel result is the byte count accepted; a negative
    /// one is the OS error.  Either way the buffer goes back to the caller.
    open spec fn complete_spec(self, cqe: CqeResult) -> Self::Output {
        match cqe.result {
            Ok(n) => (Ok(n as usize), self.buf),
            Err(e) => (Err(e), self.buf),
        }
    }

    fn complete(self, cqe: CqeResult) -> (r: Self::Output) {
        match cqe.result {
            Ok(n) => (Ok(n as usize), self.buf),
            Err(e) => (Err(e), self.buf),
        }
    }
}

impl Op<Write> {
    /// Submit a write of `buf` to `fd` at `offset`.
    pub fn write_at<W: Wake, R: Ring>(
        reactor: &mut Reactor<W, R>,
        fd: i32,
        buf: Vec<u8>,
        offset: u64,
    ) -> (r: Result<Op<Write>, OsError>)
        requires
            old(reactor).wf(),
        ensures
            final(reactor).wf(),
            r matches Ok(op) ==> op.descriptor() == Some(Write { fd, buf, offset }) && final(reactor).table().dom().contains(op.id() as int) && !old(reactor).table().dom().contains(
                op.id() as int,
            ),
            r matches Err(e) ==> e.code != EBUSY && e.code != EINTR,
    {
        reactor.submit_op(Write { fd, buf, offset })
    }
}

} // verus!
