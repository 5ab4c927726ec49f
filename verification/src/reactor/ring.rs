//! The submission/completion ring boundary.
//!
//! The reactor drives a pair of fixed-capacity queues: submission entries
//! travel to the kernel tagged with an operation identifier, and completion
//! entries travel back carrying the same tag.  The [`Ring`] trait states that
//! protocol over plain sequences; [`SimRing`] is an in-crate ring whose
//! kernel side is played by the caller, used to exercise the reactor.

use vstd::prelude::*;

use crate::reactor::op::OsError;

verus! {

/// The tag of a submission whose completion nobody awaits: such a
/// completion is discarded instead of being routed to a lifecycle slot.
pub const SENTINEL: u64 = u64::MAX;

/// What a submission entry asks the kernel to do.  Buffers are owned by the
/// operation descriptor for the whole time the entry is outstanding; an
/// embedder that talks to a real kernel derives the buffer address from that
/// descriptor when it encodes the entry.
#[derive(Clone, Copy, Debug, PartialEq, Eq, Structural)]
pub enum OpDesc {
    /// Accept one connection on a listening socket.
    Accept { fd: i32 },
    /// Read up to `len` bytes from `fd` at `offset`.
    Read { fd: i32, len: u32, offset: u64 },
    /// Write `len` bytes to `fd` at `offset`.
    Write { fd: i32, len: u32, offset: u64 },
}

/// One submission-queue entry: a request plus the identifier tag the kernel
/// echoes back on completion.
#[derive(Clone, Copy, Debug, PartialEq, Eq, Structural)]
pub struct Sqe {
    pub op: OpDesc,
    pub user_data: u64,
}

/// One raw completion-queue entry: the identifier tag of the submission it
/// answers, the kernel's result code (negative for an OS error) and flags.
#[derive(Clone, Copy, Debug, PartialEq, Eq, Structural)]
pub struct RawCqe {
    pub user_data: u64,
    pub result: i32,
    pub flags: u32,
}

/// A submission/completion ring pair.
///
/// `sq` models the entries enqueued but not yet handed to the kernel, oldest
/// first; `cq` models the completions the kernel has reported and nothing
/// has drained yet, oldest first.  The kernel may append to `cq` whenever a
/// syscall is made, so `submit` and `wait` only promise that the completions
/// already visible stay in place.
pub trait Ring: Sized {
    /// Entries enqueued and not yet passed to the kernel.  An embedder's
    /// ring outside this crate is never reasoned about, so the defaults
    /// stand for it; a ring verified in this crate overrides them with its
    /// real contents.
    open spec fn sq(&self) -> Seq<Sqe> {
        Seq::empty()
    }

    /// Completions reported by the kernel and not yet drained.
    open spec fn cq(&self) -> Seq<RawCqe> {
        Seq::empty()
    }

    /// An upper bound on how many more `submit` or `wait` calls may fail
    /// before one succeeds.  The kernel reports a full or busy ring, or an
    /// interrupted call, only finitely often while completions are being
    /// drained, so the reactor's retry loops terminate; each failing submit
    /// spends one unit of this bound.
    open spec fn budget(&self) -> nat {
        0
    }

    /// Enqueue one entry; reports `false` only when the submission queue is
    /// full (so never when it is empty), in which case nothing changes.
    fn try_push(&mut self, e: Sqe) -> (ok: bool)
        ensures
            ok ==> final(self).sq() == old(self).sq().push(e),
            !ok ==> final(self).sq() == old(self).sq() && old(self).sq().len() > 0,
            final(self).cq() == old(self).cq(),
            final(self).budget() == old(self).budget(),
    ;

    /// Hand every enqueued entry to the kernel.  On an error nothing was
    /// consumed; either way, completions already visible stay visible.
    fn submit(&mut self) -> (r: Result<usize, OsError>)
        ensures
            r is Ok ==> final(self).sq().len() == 0,
            r is Err ==> final(self).sq() == old(self).sq() && final(self).budget() < old(self).budget(),
            old(self).cq().is_prefix_of(final(self).cq()),
    ;

    /// Hand every enqueued entry to the kernel and block until at least one
    /// completion is ready.  This is the one call that yields the thread.
    fn wait(&mut self) -> (r: Result<usize, OsError>)
        ensures
            r is Ok ==> final(self).sq().len() == 0,
            r is Err ==> final(self).sq() == old(self).sq(),
            old(self).cq().is_prefix_of(final(self).cq()),
    ;

    /// Drain the oldest visible completion, if any.
    fn pop_cqe(&mut self) -> (r: Option<RawCqe>)
        ensures
            final(self).sq() == old(self).sq(),
            final(self).budget() == old(self).budget(),
            old(self).cq().len() == 0 ==> r is None && final(self).cq() == old(self).cq(),
            old(self).cq().len() > 0 ==> r == Some(old(self).cq()[0])
                && final(self).cq() == old(self).cq().drop_first(),
    ;
}

/// A ring whose kernel side the caller plays.  Enqueued entries move to an
/// `accepted` queue when submitted; the caller then completes an accepted
/// entry with a result of its choosing, which appends the completion entry.
/// Submit failures — a busy kernel, an interrupted call — are scripted in
/// advance, so a reactor driving this ring can be shown retrying through
/// any finite run of them.
pub struct SimRing {
    cap: usize,
    sq: Vec<Sqe>,
    accepted: Vec<Sqe>,
    cq: Vec<RawCqe>,
    submit_errors: Vec<i32>,
}

impl SimRing {
    /// Entries the simulated kernel has accepted and not yet completed,
    /// oldest first.
    pub closed spec fn accepted_view(&self) -> Seq<Sqe> {
        self.accepted@
    }

    /// Errno values the coming submit calls report, most recently scripted
    /// first.
    pub closed spec fn scripted(&self) -> Seq<i32> {
        self.submit_errors@
    }

    /// A ring accepting at most `cap` enqueued entries (at least one, so a
    /// submission can always make progress after a flush).
    pub fn new(cap: usize) -> (r: SimRing)
        ensures
            r.sq() == Seq::<Sqe>::empty(),
            r.cq() == Seq::<RawCqe>::empty(),
            r.accepted_view() == Seq::<Sqe>::empty(),
            r.scripted() == Seq::<i32>::empty(),
    {
        SimRing {
            cap,
            sq: Vec::new(),
            accepted: Vec::new(),
            cq: Vec::new(),
            submit_errors: Vec::new(),
        }
    }

    /// Script the next submit call to fail with errno `code`; with several
    /// scripted, the most recently scripted fails first.
    pub fn push_submit_error(&mut self, code: i32)
        ensures
            final(self).scripted() == old(self).scripted().push(code),
            final(self).sq() == old(self).sq(),
            final(self).cq() == old(self).cq(),
            final(self).accepted_view() == old(self).accepted_view(),
    {
        self.submit_errors.push(code);
    }

    /// Play the kernel: complete the accepted entry at position `i` with
    /// `result` and `flags`, appending a completion entry that carries the
    /// accepted entry's tag.
    pub fn deliver(&mut self, i: usize, result: i32, flags: u32)
        requires
            i < old(self).accepted_view().len(),
        ensures
            final(self).cq() == old(self).cq().push(
                RawCqe { user_data: old(self).accepted_view()[i as int].user_data, result, flags },
            ),
            final(self).accepted_view() == old(self).accepted_view().remove(i as int),
            final(self).sq() == old(self).sq(),
            final(self).scripted() == old(self).scripted(),
    {
        let e = self.accepted.remove(i);
        self.cq.push(RawCqe { user_data: e.user_data, result, flags });
    }

    /// How many accepted entries wait for a completion.
    pub fn accepted_count(&self) -> (n: usize)
        ensures
            n == self.accepted_view().len(),
    {
        self.accepted.len()
    }

    /// Play the kernel: report a completion that answers no accepted entry,
    /// such as one tagged with the sentinel for an untracked submission.
    pub fn inject(&mut self, c: RawCqe)
        ensures
            final(self).cq() == old(self).cq().push(c),
            final(self).sq() == old(self).sq(),
            final(self).accepted_view() == old(self).accepted_view(),
            final(self).scripted() == old(self).scripted(),
    {
        self.cq.push(c);
    }
}

impl Ring for SimRing {
    closed spec fn sq(&self) -> Seq<Sqe> {
        self.sq@
    }

    closed spec fn cq(&self) -> Seq<RawCqe> {
        self.cq@
    }

    closed spec fn budget(&self) -> nat {
        self.submit_errors@.len()
    }

    fn try_push(&mut self, e: Sqe) -> (ok: bool) {
        if self.sq.len() < self.cap || self.sq.len() == 0 {
            self.sq.push(e);
            true
        } else {
            false
        }
    }

    fn submit(&mut self) -> (r: Result<usize, OsError>) {
        match self.submit_errors.pop() {
            Some(code) => Err(OsError { code }),
            None => {
                let n = self.sq.len();
                self.accepted.append(&mut self.sq);
                Ok(n)
            },
        }
    }

    fn wait(&mut self) -> (r: Result<usize, OsError>) {
        self.submit()
    }

    fn pop_cqe(&mut self) -> (r: Option<RawCqe>) {
        if self.cq.len() == 0 {
            None
        } else {
            let c = self.cq.remove(0);
            proof {
                assert(self.cq@ =~= old(self).cq@.drop_first());
            }
            Some(c)
        }
    }
}

} // verus!
