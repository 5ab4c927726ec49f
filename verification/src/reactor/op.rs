//! The operation protocol: how a typed request becomes a submission entry,
//! how a raw completion becomes a typed result, and the lifecycle of one
//! outstanding operation from submission to consumption.

use vstd::prelude::*;

use crate::reactor::ring::{OpDesc, RawCqe, Ring};
use crate::reactor::Reactor;

verus! {

/// An operating-system error: a positive errno value reported by the kernel
/// as a negated completion result.
#[derive(Clone, Copy, Debug, PartialEq, Eq, Structural)]
pub struct OsError {
    pub code: i32,
}

/// The interpreted result of one completion entry: the kernel's flags, and
/// either the non-negative result value or the OS error a negative result
/// denotes.
#[derive(Clone, Copy, Debug)]
pub struct CqeResult {
    pub result: Result<u32, OsError>,
    pub flags: u32,
}

impl CqeResult {
    /// A successful value always fits the kernel's signed result field.
    pub open spec fn wf(&self) -> bool {
        self.result matches Ok(n) ==> n <= i32::MAX as u32
    }
}

/// How a raw completion entry is read: a non-negative result code is the
/// operation's value (a byte count or a new descriptor), a negative one is
/// the negated errno.
pub open spec fn cqe_interpret(c: RawCqe) -> CqeResult {
    CqeResult {
        result: if c.result >= 0 {
            Ok(c.result as u32)
        } else if c.result == i32::MIN {
            Err(OsError { code: i32::MIN })
        } else {
            Err(OsError { code: (0 - c.result as int) as i32 })
        },
        flags: c.flags,
    }
}

impl From<RawCqe> for CqeResult {
    fn from(c: RawCqe) -> (r: CqeResult) {
        let result: Result<u32, OsError> = if c.result >= 0 {
            Ok(c.result as u32)
        } else if c.result == i32::MIN {
            Err(OsError { code: i32::MIN })
        } else {
            Err(OsError { code: -c.result })
        };
        CqeResult { result, flags: c.flags }
    }
}

impl vstd::std_specs::convert::FromSpecImpl<RawCqe> for CqeResult {
    open spec fn obeys_from_spec() -> bool {
        true
    }

    open spec fn from_spec(c: RawCqe) -> CqeResult {
        cqe_interpret(c)
    }
}

/// Interpreting a raw entry always yields a well-formed result: a success
/// value read out of the signed result field fits it.
pub proof fn lemma_cqe_interpret_wf(c: RawCqe)
    ensures
        cqe_interpret(c).wf(),
{
}

/// A handle that resumes the suspended computation interested in one
/// operation; the reactor invokes it while routing that operation's
/// completion.
pub trait Wake {
    /// Signal the computation registered with this handle.
    fn wake(&self);
}

/// Turns a raw kernel result into a typed, ergonomic output, consuming the
/// operation descriptor exactly once.
pub trait Completable: Sized {
    type Output;

    /// What consuming the descriptor with result `cqe` produces.
    spec fn complete_spec(self, cqe: CqeResult) -> Self::Output;

    /// Consume the descriptor and the kernel result.
    fn complete(self, cqe: CqeResult) -> (r: Self::Output)
        requires
            cqe.wf(),
        ensures
            r == self.complete_spec(cqe),
    ;
}

/// Turns a typed operation descriptor into a kernel submission entry.
pub trait Opable: Sized {
    /// The submission entry this descriptor asks for.
    spec fn opcode_spec(&self) -> OpDesc;

    /// Build the submission entry.
    fn opcode(&self) -> (e: OpDesc)
        ensures
            e == self.opcode_spec(),
    ;
}

/// The state of one outstanding operation.  Transitions run strictly forward:
/// `Submitted` to `Waiting` to `Complete`, or `Submitted` to `Complete`; the
/// slot is reset only when the table releases it after consumption.
pub enum Lifecycle<W> {
    /// The kernel has the request; nothing has polled for it yet.
    Submitted,
    /// A poll recorded a resume handle to invoke on completion.
    Waiting(W),
    /// The completion arrived; the raw result is cached until consumed.
    Complete(RawCqe),
}

/// A lifecycle state with the resume handle abstracted away: what contracts
/// say about a slot.
pub enum LcModel {
    Submitted,
    Waiting,
    Complete(RawCqe),
}

impl<W> Lifecycle<W> {
    pub open spec fn model(&self) -> LcModel {
        match self {
            Lifecycle::Submitted => LcModel::Submitted,
            Lifecycle::Waiting(_) => LcModel::Waiting,
            Lifecycle::Complete(c) => LcModel::Complete(*c),
        }
    }
}

impl<W: Wake> Lifecycle<W> {
    /// Record the completion `cqe`, invoking and discarding the resume
    /// handle a poll may have registered.  A slot completes at most once:
    /// the kernel reports one completion per submission.
    pub fn complete(self, cqe: RawCqe) -> (next: Lifecycle<W>)
        requires
            !(self.model() is Complete),
        ensures
            next.model() == LcModel::Complete(cqe),
    {
        match self {
            Lifecycle::Submitted => Lifecycle::Complete(cqe),
            Lifecycle::Waiting(w) => {
                w.wake();
                Lifecycle::Complete(cqe)
            },
            Lifecycle::Complete(_) => {
                proof {
                    assert(false);
                }
                Lifecycle::Complete(cqe)
            },
        }
    }

    /// Ask whether the completion has arrived.  If it has, the cached raw
    /// result is reported and stays cached — releasing the slot is the
    /// consumer's step, not the poll's.  Otherwise `w` is recorded, replacing
    /// any handle from an earlier poll: only the most recent one is kept.
    pub fn poll_op(self, w: W) -> (r: (Lifecycle<W>, Option<RawCqe>))
        ensures
            self.model() matches LcModel::Complete(c) ==> r.0 == self && r.1 == Some(c),
            !(self.model() is Complete) ==> r.0.model() == LcModel::Waiting && r.1 is None,
    {
        match self {
            Lifecycle::Submitted => (Lifecycle::Waiting(w), None),
            Lifecycle::Waiting(_) => (Lifecycle::Waiting(w), None),
            Lifecycle::Complete(c) => (Lifecycle::Complete(c), Some(c)),
        }
    }
}

/// What one poll of an operation reports: the typed output, or that the
/// computation must suspend until the reactor wakes it.
pub enum OpPoll<T> {
    Ready(T),
    Pending,
}

/// The adapter binding an operation descriptor to its lifecycle slot.  It
/// owns the descriptor (and so any buffer the kernel touches) for the whole
/// outstanding lifetime, and consumes it exactly once on completion.
///
/// Dropping the adapter before its completion is consumed leaves the slot
/// in the table with no owner left to consume it: the identifier is then
/// never released.  That gap is deliberate — there is no cancellation
/// protocol here — and a caller who must reclaim such slots has to decide
/// between leaking them, asking the kernel to cancel, and detaching them to
/// self-release on completion.
pub struct Op<T> {
    data: Option<T>,
    index: usize,
}

impl<T> Op<T> {
    /// The descriptor, still owned until completion is consumed.
    pub closed spec fn descriptor(&self) -> Option<T> {
        self.data
    }

    /// The operation identifier: this adapter's slot in the lifecycle table.
    pub closed spec fn id(&self) -> usize {
        self.index
    }

    pub fn new(data: T, index: usize) -> (r: Op<T>)
        ensures
            r.descriptor() == Some(data),
            r.id() == index,
    {
        Op { data: Some(data), index }
    }

    pub fn index(&self) -> (i: usize)
        ensures
            i == self.id(),
    {
        self.index
    }
}

impl<T: Completable> Op<T> {
    /// One poll of the operation: if this identifier's slot is complete, take
    /// the descriptor (exactly once), release the slot, and produce the typed
    /// output; otherwise register `w` and suspend.
    pub fn poll<W: Wake, R: Ring>(
        &mut self,
        reactor: &mut Reactor<W, R>,
        w: W,
    ) -> (r: OpPoll<T::Output>)
        requires
            old(reactor).wf(),
            old(self).descriptor() is Some,
            old(reactor).table().dom().contains(old(self).id() as int),
        ensures
            final(reactor).wf(),
            final(self).id() == old(self).id(),
            final(reactor).ring_sq() == old(reactor).ring_sq(),
            final(reactor).ring_cq() == old(reactor).ring_cq(),
            match old(reactor).table()[old(self).id() as int] {
                LcModel::Complete(raw) => {
                    &&& r == OpPoll::<T::Output>::Ready(
                        old(self).descriptor()->0.complete_spec(cqe_interpret(raw)),
                    )
                    &&& final(self).descriptor() is None
                    &&& final(reactor).table() == old(reactor).table().remove(
                        old(self).id() as int,
                    )
                },
                _ => {
                    &&& r is Pending
                    &&& final(self).descriptor() == old(self).descriptor()
                    &&& final(reactor).table() == old(reactor).table().insert(
                        old(self).id() as int,
                        LcModel::Waiting,
                    )
                },
            },
    {
        match reactor.poll_op(self.index, w) {
            None => OpPoll::Pending,
            Some(raw) => {
                reactor.remove_op(self.index);
                let data = self.data.take().unwrap();
                let cqe = CqeResult::from(raw);
                proof {
                    lemma_cqe_interpret_wf(raw);
                }
                OpPoll::Ready(data.complete(cqe))
            },
        }
    }
}

} // verus!
