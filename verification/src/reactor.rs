//! The reactor: owner of the kernel ring and of the operation lifecycle
//! table.  It submits entries (retrying while the ring is full), blocks for
//! completions, and routes each drained completion to the lifecycle slot
//! whose identifier matches the completion's tag.

use vstd::prelude::*;

pub mod accept;
pub mod op;
pub mod read;
pub mod ring;
pub mod write;

use crate::reactor::op::{LcModel, Lifecycle, Op, Opable, OsError, Wake};
use crate::reactor::ring::{RawCqe, Ring, Sqe, SENTINEL};

verus! {

/// The errno the kernel reports while the completion queue must be drained
/// before more submissions are accepted.
pub const EBUSY: i32 = 16;

/// The errno of an interrupted system call, which is simply retried.
pub const EINTR: i32 = 4;

/// Relies on libc::EBUSY: on Linux the "device or resource busy" errno is 16.
#[verifier::external_body]
fn libc_ebusy() -> (r: i32)
    ensures
        r == EBUSY,
{
    libc::EBUSY
}

/// Relies on libc::EINTR: on Linux the "interrupted system call" errno is 4.
#[verifier::external_body]
fn libc_eintr() -> (r: i32)
    ensures
        r == EINTR,
{
    libc::EINTR
}

/// The operation lifecycle table: a dense, reusable-slot registry mapping an
/// operation identifier to its lifecycle record.  Freed slots are kept on a
/// free list and reused by later inserts; an identifier is never reused
/// while its operation is outstanding, because the slot is released only
/// when the completion is consumed.
pub struct Ops<W> {
    slots: Vec<Option<Lifecycle<W>>>,
    free: Vec<usize>,
}

impl<W> View for Ops<W> {
    type V = Map<int, LcModel>;

    /// The table as a map from occupied identifiers to lifecycle states.
    closed spec fn view(&self) -> Map<int, LcModel> {
        Map::new(
            |i: int| 0 <= i < self.slots@.len() && self.slots@[i] is Some,
            |i: int| (self.slots@[i]->0).model(),
        )
    }
}

impl<W> Ops<W> {
    /// The free list holds exactly the vacant slots, each once.
    pub closed spec fn wf(&self) -> bool {
        &&& forall|k: int|
            0 <= k < self.free@.len() ==> (#[trigger] self.free@[k]) < self.slots@.len()
                && self.slots@[self.free@[k] as int] is None
        &&& forall|k1: int, k2: int|
            0 <= k1 < k2 < self.free@.len() ==> self.free@[k1] != self.free@[k2]
        &&& forall|i: usize|
            i < self.slots@.len() && self.slots@[i as int] is None ==> self.free@.contains(i)
    }

    /// How many slots the table has ever allocated; every identifier in the
    /// table is below this bound.
    pub closed spec fn n_slots(&self) -> nat {
        self.slots@.len()
    }

    pub proof fn lemma_dom_bound(&self)
        ensures
            forall|i: int| self@.dom().contains(i) ==> 0 <= i < self.n_slots(),
    {
    }

    pub fn new() -> (r: Ops<W>)
        ensures
            r.wf(),
            r@ == Map::<int, LcModel>::empty(),
            r.n_slots() == 0,
    {
        let r = Ops { slots: Vec::new(), free: Vec::new() };
        proof {
            assert(r@ =~= Map::<int, LcModel>::empty());
        }
        r
    }

    pub fn slot_count(&self) -> (n: usize)
        ensures
            n == self.n_slots(),
    {
        self.slots.len()
    }

    /// Allocate a fresh slot in `Submitted` state, reusing a released slot's
    /// storage where one is available.  The returned identifier is not in
    /// the table before the call: it never aliases an outstanding operation.
    pub fn insert(&mut self) -> (index: usize)
        requires
            old(self).wf(),
        ensures
            final(self).wf(),
            !old(self)@.dom().contains(index as int),
            final(self)@ == old(self)@.insert(index as int, LcModel::Submitted),
            index < final(self).n_slots(),
    {
        match self.free.pop() {
            Some(index) => {
                self.slots[index] = Some(Lifecycle::Submitted);
                proof {
                    assert(self.free@ == old(self).free@.drop_last());
                    assert(old(self).free@[old(self).free@.len() - 1] == index);
                    assert forall|i: usize|
                        i < self.slots@.len() && self.slots@[i as int] is None implies self.free@
                        .contains(i) by {
                        assert(old(self).slots@[i as int] is None);
                        assert(i != index);
                        assert(old(self).free@.contains(i));
                        let k = choose|k: int|
                            0 <= k < old(self).free@.len() && old(self).free@[k] == i;
                        assert(old(self).free@[k] != index);
                        assert(k != old(self).free@.len() - 1);
                        assert(self.free@[k] == i);
                    }
                    assert(self@ =~= old(self)@.insert(index as int, LcModel::Submitted));
                }
                index
            },
            None => {
                let index = self.slots.len();
                self.slots.push(Some(Lifecycle::Submitted));
                proof {
                    assert(self@ =~= old(self)@.insert(index as int, LcModel::Submitted));
                }
                index
            },
        }
    }

    /// Whether `index` names an operation whose completion may still be
    /// routed: an occupied slot that is not yet `Complete`.
    pub fn routable(&self, index: usize) -> (b: bool)
        requires
            self.wf(),
        ensures
            b <==> (self@.dom().contains(index as int) && !(self@[index as int] is Complete)),
    {
        if index < self.slots.len() {
            match &self.slots[index] {
                None => false,
                Some(Lifecycle::Complete(_)) => false,
                Some(_) => true,
            }
        } else {
            false
        }
    }

    /// Read one slot's lifecycle state.
    pub fn state_of(&self, index: usize) -> (s: Option<LcModel>)
        requires
            self.wf(),
        ensures
            self@.dom().contains(index as int) ==> s == Some(self@[index as int]),
            !self@.dom().contains(index as int) ==> s is None,
    {
        if index < self.slots.len() {
            match &self.slots[index] {
                None => None,
                Some(Lifecycle::Submitted) => Some(LcModel::Submitted),
                Some(Lifecycle::Waiting(_)) => Some(LcModel::Waiting),
                Some(Lifecycle::Complete(c)) => Some(LcModel::Complete(*c)),
            }
        } else {
            None
        }
    }
}

impl<W: Wake> Ops<W> {
    /// Route a completion into slot `index`, waking any registered resume
    /// handle.  Completing an already-complete slot is a contract violation:
    /// the kernel reports exactly one completion per submission.
    pub fn complete(&mut self, index: usize, cqe: RawCqe)
        requires
            old(self).wf(),
            old(self)@.dom().contains(index as int),
            !(old(self)@[index as int] is Complete),
        ensures
            final(self).wf(),
            final(self)@ == old(self)@.insert(index as int, LcModel::Complete(cqe)),
            final(self).n_slots() == old(self).n_slots(),
    {
        let lc = self.slots[index].take().unwrap();
        let next = lc.complete(cqe);
        self.slots[index] = Some(next);
        proof {
            assert(self@ =~= old(self)@.insert(index as int, LcModel::Complete(cqe)));
        }
    }

    /// Ask whether slot `index` is complete.  If it is, report the cached
    /// raw result and leave it cached — the slot is freed by `remove`, on
    /// consumption, not here.  Otherwise record `w`, replacing any resume
    /// handle from an earlier poll.
    pub fn poll_op(&mut self, index: usize, w: W) -> (r: Option<RawCqe>)
        requires
            old(self).wf(),
            old(self)@.dom().contains(index as int),
        ensures
            final(self).wf(),
            final(self)@ == poll_model(old(self)@, index as int),
            old(self)@[index as int] matches LcModel::Complete(c) ==> r == Some(c) && final(self)@ == old(self)@,
            !(old(self)@[index as int] is Complete) ==> r is None && final(self)@ == old(self)@.insert(index as int, LcModel::Waiting),
            final(self).n_slots() == old(self).n_slots(),
    {
        let lc = self.slots[index].take().unwrap();
        let (next, r) = lc.poll_op(w);
        self.slots[index] = Some(next);
        proof {
            if old(self)@[index as int] is Complete {
                assert(self@ =~= old(self)@);
            } else {
                assert(self@ =~= old(self)@.insert(index as int, LcModel::Waiting));
            }
        }
        r
    }

    /// Release a consumed slot: the identifier leaves the table and may be
    /// handed out again by a later insert.  Only a consumed completion may
    /// be released; an outstanding operation's identifier is never reused.
    pub fn remove(&mut self, index: usize)
        requires
            old(self).wf(),
            old(self)@.dom().contains(index as int),
            old(self)@[index as int] is Complete,
        ensures
            final(self).wf(),
            final(self)@ == old(self)@.remove(index as int),
            final(self).n_slots() == old(self).n_slots(),
    {
        let lc = self.slots[index].take();
        proof {
            assert(forall|k: int|
                0 <= k < old(self).free@.len() ==> (#[trigger] old(self).free@[k]) != index);
        }
        self.free.push(index);
        proof {
            assert(self.free@ == old(self).free@.push(index));
            assert forall|i: usize|
                i < self.slots@.len() && self.slots@[i as int] is None implies self.free@.contains(
                i,
            ) by {
                if i == index {
                    assert(self.free@[self.free@.len() - 1] == index);
                } else {
                    assert(old(self).slots@[i as int] is None);
                    assert(old(self).free@.contains(i));
                    let k = choose|k: int|
                        0 <= k < old(self).free@.len() && old(self).free@[k] == i;
                    assert(self.free@[k] == i);
                }
            }
            assert(self@ =~= old(self)@.remove(index as int));
        }
        let _unused = lc;
    }
}

/// How one poll changes the table: a complete slot is left exactly as it
/// is — the cached result stays until consumption — and any other slot
/// moves to `Waiting`, holding the most recent resume handle.
pub open spec fn poll_model(m: Map<int, LcModel>, id: int) -> Map<int, LcModel> {
    if m.dom().contains(id) && m[id] is Complete {
        m
    } else {
        m.insert(id, LcModel::Waiting)
    }
}

/// Law: a slot's lifecycle is monotonic.  Once a slot is complete, a poll
/// before consumption changes nothing — so any number of further polls all
/// find the same cached raw result — and only consumption removes the
/// identifier from the table; a fresh insert never returns an identifier
/// still present (see `Ops::insert`), so an identifier is reused only after
/// its completion was consumed.
pub proof fn lemma_complete_slot_is_stable(m: Map<int, LcModel>, id: int, c: RawCqe)
    requires
        m.dom().contains(id),
        m[id] == LcModel::Complete(c),
    ensures
        poll_model(m, id) == m,
        poll_model(m, id)[id] == LcModel::Complete(c),
        !m.remove(id).dom().contains(id),
{
}

/// How one drained completion changes the table: an entry tagged with the
/// sentinel, or whose tag names no routable slot, is discarded; any other
/// entry marks its slot `Complete` with the raw result cached.
pub open spec fn route_one(m: Map<int, LcModel>, c: RawCqe) -> Map<int, LcModel> {
    if c.user_data != SENTINEL && m.dom().contains(c.user_data as int) && !(m[c.user_data as int]
        is Complete) {
        m.insert(c.user_data as int, LcModel::Complete(c))
    } else {
        m
    }
}

/// How draining a whole batch of completions changes the table, oldest
/// entry first.
pub open spec fn dispatch_model(m: Map<int, LcModel>, cqes: Seq<RawCqe>) -> Map<int, LcModel>
    decreases cqes.len(),
{
    if cqes.len() == 0 {
        m
    } else {
        dispatch_model(route_one(m, cqes[0]), cqes.drop_first())
    }
}

/// Routing a batch never adds or removes a slot.
pub proof fn lemma_dispatch_model_dom(m: Map<int, LcModel>, cqes: Seq<RawCqe>)
    ensures
        dispatch_model(m, cqes).dom() == m.dom(),
    decreases cqes.len(),
{
    if cqes.len() > 0 {
        assert(route_one(m, cqes[0]).dom() =~= m.dom());
        lemma_dispatch_model_dom(route_one(m, cqes[0]), cqes.drop_first());
    }
}

/// A slot whose completion is already cached is never touched again by
/// routing: the cached result stays as it is until consumed.
pub proof fn lemma_dispatch_model_complete_stable(
    m: Map<int, LcModel>,
    cqes: Seq<RawCqe>,
    id: int,
)
    requires
        m.dom().contains(id),
        m[id] is Complete,
    ensures
        dispatch_model(m, cqes).dom().contains(id),
        dispatch_model(m, cqes)[id] == m[id],
    decreases cqes.len(),
{
    if cqes.len() > 0 {
        lemma_dispatch_model_complete_stable(route_one(m, cqes[0]), cqes.drop_first(), id);
    }
}

/// A slot named by no tag in the batch is untouched by routing.
pub proof fn lemma_dispatch_model_frame(m: Map<int, LcModel>, cqes: Seq<RawCqe>, id: int)
    requires
        forall|k: int| 0 <= k < cqes.len() ==> (#[trigger] cqes[k]).user_data as int != id,
    ensures
        dispatch_model(m, cqes).dom().contains(id) == m.dom().contains(id),
        m.dom().contains(id) ==> dispatch_model(m, cqes)[id] == m[id],
    decreases cqes.len(),
{
    if cqes.len() > 0 {
        assert(cqes[0].user_data as int != id);
        lemma_dispatch_model_frame(route_one(m, cqes[0]), cqes.drop_first(), id);
    }
}

/// Law: when a batch of completions carries distinct non-sentinel tags that
/// each name an outstanding (not yet complete) slot, routing the batch
/// delivers every completion — each to exactly the slot whose identifier
/// matches its tag — and leaves every other slot, and the set of
/// identifiers, unchanged.
pub proof fn lemma_dispatch_exact(m: Map<int, LcModel>, cqes: Seq<RawCqe>)
    requires
        forall|k: int|
            0 <= k < cqes.len() ==> (#[trigger] cqes[k]).user_data != SENTINEL && m.dom().contains(
                cqes[k].user_data as int,
            ) && !(m[cqes[k].user_data as int] is Complete),
        forall|k1: int, k2: int|
            0 <= k1 < k2 < cqes.len() ==> cqes[k1].user_data != cqes[k2].user_data,
    ensures
        dispatch_model(m, cqes).dom() == m.dom(),
        forall|k: int|
            0 <= k < cqes.len() ==> dispatch_model(m, cqes)[(#[trigger] cqes[k]).user_data as int]
                == LcModel::Complete(cqes[k]),
        forall|id: int|
            m.dom().contains(id) && (forall|k: int|
                0 <= k < cqes.len() ==> (#[trigger] cqes[k]).user_data as int != id)
                ==> dispatch_model(m, cqes)[id] == m[id],
    decreases cqes.len(),
{
    lemma_dispatch_model_dom(m, cqes);
    if cqes.len() > 0 {
        let c0 = cqes[0];
        let m1 = route_one(m, c0);
        let rest = cqes.drop_first();
        assert(m1 == m.insert(c0.user_data as int, LcModel::Complete(c0)));
        assert forall|k: int|
            0 <= k < rest.len() implies (#[trigger] rest[k]).user_data != SENTINEL
            && m1.dom().contains(rest[k].user_data as int) && !(m1[rest[k].user_data as int]
            is Complete) by {
            assert(rest[k] == cqes[k + 1]);
            assert(cqes[k + 1].user_data != c0.user_data);
        }
        assert forall|k1: int, k2: int|
            0 <= k1 < k2 < rest.len() implies rest[k1].user_data != rest[k2].user_data by {
            assert(rest[k1] == cqes[k1 + 1]);
            assert(rest[k2] == cqes[k2 + 1]);
        }
        lemma_dispatch_exact(m1, rest);
        assert forall|k: int|
            0 <= k < rest.len() implies (#[trigger] rest[k]).user_data as int != c0.user_data as int
            by {
            assert(rest[k] == cqes[k + 1]);
            assert(cqes[k + 1].user_data != c0.user_data);
        }
        lemma_dispatch_model_complete_stable(m1, rest, c0.user_data as int);
        assert forall|k: int|
            0 <= k < cqes.len() implies dispatch_model(m, cqes)[(#[trigger] cqes[k]).user_data
            as int] == LcModel::Complete(cqes[k]) by {
            if k > 0 {
                assert(rest[k - 1] == cqes[k]);
            }
        }
        assert forall|id: int|
            m.dom().contains(id) && (forall|k: int|
                0 <= k < cqes.len() ==> (#[trigger] cqes[k]).user_data as int != id) implies
            dispatch_model(m, cqes)[id] == m[id] by {
            assert(cqes[0].user_data as int != id);
            assert(m1.dom().contains(id));
            assert(m1[id] == m[id]);
            assert forall|k: int|
                0 <= k < rest.len() implies (#[trigger] rest[k]).user_data as int != id by {
                assert(rest[k] == cqes[k + 1]);
            }
            assert(dispatch_model(m1, rest)[id] == m1[id]);
        }
    }
}

/// Law: a completion tagged with the sentinel is discarded, never routed to
/// a slot.
pub proof fn lemma_sentinel_discarded(m: Map<int, LcModel>, c: RawCqe)
    requires
        c.user_data == SENTINEL,
    ensures
        route_one(m, c) == m,
{
}

/// The reactor: the ring it drives and the lifecycle table it routes
/// completions into.  The ring is public: between reactor calls its other
/// side belongs to the kernel (or to whoever plays the kernel), and nothing
/// the reactor guarantees depends on the ring's state.
pub struct Reactor<W, R> {
    ops: Ops<W>,
    pub ring: R,
}

impl<W: Wake, R: Ring> Reactor<W, R> {
    /// The lifecycle table: identifiers of outstanding or consumable
    /// operations, each with its state.
    pub closed spec fn table(&self) -> Map<int, LcModel> {
        self.ops@
    }

    pub closed spec fn wf(&self) -> bool {
        self.ops.wf()
    }

    /// The ring's still-enqueued submission entries.
    pub closed spec fn ring_sq(&self) -> Seq<Sqe> {
        self.ring.sq()
    }

    /// The ring's drained-nothing-yet completion entries.
    pub closed spec fn ring_cq(&self) -> Seq<RawCqe> {
        self.ring.cq()
    }

    /// The ring's bound on coming transient submit failures; the retry
    /// loops' termination measure.
    pub closed spec fn ring_budget(&self) -> nat {
        self.ring.budget()
    }

    pub fn new(ring: R) -> (r: Self)
        ensures
            r.wf(),
            r.table() == Map::<int, LcModel>::empty(),
            r.ring_sq() == ring.sq(),
            r.ring_cq() == ring.cq(),
    {
        Reactor { ops: Ops::new(), ring }
    }

    /// Hand every enqueued entry to the kernel, absorbing the transient
    /// errors: while the kernel is busy the completion queue is drained to
    /// free capacity and the submit retried, and an interrupted call is
    /// simply retried.  Any other error surfaces to the submitter.  The
    /// drains may route fresh completions, but never disturb a slot whose
    /// completion is already cached, and never add or remove a slot.
    pub fn submit(&mut self) -> (r: Result<(), OsError>)
        requires
            old(self).wf(),
        ensures
            final(self).wf(),
            final(self).table().dom() == old(self).table().dom(),
            forall|id: int|
                old(self).table().dom().contains(id) && old(self).table()[id] is Complete
                    ==> final(self).table()[id] == old(self).table()[id],
            r is Ok ==> final(self).ring_sq().len() == 0,
            r matches Err(e) ==> e.code != EBUSY && e.code != EINTR && final(self).ring_sq()
                == old(self).ring_sq(),
    {
        loop
            invariant
                self.wf(),
                self.ring_sq() == old(self).ring_sq(),
                self.table().dom() == old(self).table().dom(),
                forall|id: int|
                    old(self).table().dom().contains(id) && old(self).table()[id] is Complete
                        ==> self.table()[id] == old(self).table()[id],
            decreases self.ring_budget(),
        {
            let busy = libc_ebusy();
            let intr = libc_eintr();
            match self.ring.submit() {
                Ok(_) => {
                    return Ok(());
                },
                Err(e) => {
                    if e.code == busy {
                        let ghost pre = self.table();
                        let ghost pre_cq = self.ring_cq();
                        self.dispatch_completions();
                        proof {
                            lemma_dispatch_model_dom(pre, pre_cq);
                            assert forall|id: int|
                                pre.dom().contains(id) && pre[id] is Complete implies self.table()[
                                id] == pre[id] by {
                                lemma_dispatch_model_complete_stable(pre, pre_cq, id);
                            }
                        }
                    } else if e.code != intr {
                        return Err(e);
                    }
                },
            }
        }
    }

    /// Drain every visible completion: an entry tagged with the sentinel is
    /// discarded, every other entry is routed to the lifecycle slot whose
    /// identifier matches its tag, waking any registered resume handle.
    pub fn dispatch_completions(&mut self)
        requires
            old(self).wf(),
        ensures
            final(self).wf(),
            final(self).table() == dispatch_model(old(self).table(), old(self).ring_cq()),
            final(self).ring_cq().len() == 0,
            final(self).ring_sq() == old(self).ring_sq(),
            final(self).ring_budget() == old(self).ring_budget(),
    {
        loop
            invariant_except_break
                self.wf(),
                self.ring_sq() == old(self).ring_sq(),
                self.ring_budget() == old(self).ring_budget(),
                dispatch_model(self.table(), self.ring_cq()) == dispatch_model(
                    old(self).table(),
                    old(self).ring_cq(),
                ),
            ensures
                self.wf(),
                self.ring_sq() == old(self).ring_sq(),
                self.ring_budget() == old(self).ring_budget(),
                self.ring_cq().len() == 0,
                self.table() == dispatch_model(old(self).table(), old(self).ring_cq()),
            decreases self.ring_cq().len(),
        {
            let ghost pre_cq = self.ring_cq();
            match self.ring.pop_cqe() {
                None => {
                    break ;
                },
                Some(c) => {
                    proof {
                        assert(pre_cq[0] == c);
                    }
                    self.dispatch_one(c);
                },
            }
        }
    }

    /// Route one completion: discard the sentinel tag, and discard a tag
    /// that names no routable slot; otherwise mark the matching slot
    /// complete.
    fn dispatch_one(&mut self, c: RawCqe)
        requires
            old(self).wf(),
        ensures
            final(self).wf(),
            final(self).table() == route_one(old(self).table(), c),
            final(self).ring_cq() == old(self).ring_cq(),
            final(self).ring_sq() == old(self).ring_sq(),
            final(self).ring_budget() == old(self).ring_budget(),
    {
        if c.user_data == SENTINEL {
            return ;
        }
        let count = self.ops.slot_count();
        proof {
            self.ops.lemma_dom_bound();
        }
        if c.user_data < count as u64 {
            let index = c.user_data as usize;
            if self.ops.routable(index) {
                self.ops.complete(index, c);
            }
        }
    }

    /// Allocate a lifecycle slot for `data`, enqueue its submission entry
    /// tagged with the slot's identifier — so the completion can be routed
    /// back — and retry, flushing the ring to the kernel, while the
    /// submission queue is full.  A full queue never surfaces as an error.
    pub fn submit_op<T: Opable>(&mut self, data: T) -> (r: Result<Op<T>, OsError>)
        requires
            old(self).wf(),
        ensures
            final(self).wf(),
            r matches Ok(op) ==> op.descriptor() == Some(data) && !old(self).table().dom()
                .contains(op.id() as int) && final(self).table().dom().contains(op.id() as int)
                && op.id() as u64 != SENTINEL,
            r matches Ok(op) ==> final(self).ring_sq().len() > 0 && final(self).ring_sq().last()
                == (Sqe { op: data.opcode_spec(), user_data: op.id() as u64 }),
            r matches Err(e) ==> e.code != EBUSY && e.code != EINTR,
    {
        let index = self.ops.insert();
        let count = self.ops.slot_count();
        proof {
            self.ops.lemma_dom_bound();
            assert(index < count);
            assert((index as u64) < (count as u64));
            assert((index as u64) != SENTINEL);
        }
        let sqe = Sqe { op: data.opcode(), user_data: index as u64 };
        let op = Op::new(data, index);
        loop
            invariant_except_break
                self.wf(),
                self.table().dom().contains(index as int),
            ensures
                self.wf(),
                self.table().dom().contains(index as int),
                self.ring_sq().len() > 0,
                self.ring_sq().last() == sqe,
            decreases self.ring_sq().len(),
        {
            if self.ring.try_push(sqe) {
                break ;
            }
            match self.submit() {
                Ok(_) => {},
                Err(e) => {
                    return Err(e);
                },
            }
        }
        Ok(op)
    }

    /// Block until the kernel has at least one completion ready, handing it
    /// any enqueued entries on the way.  This is the one call that yields
    /// the thread; the external scheduler's idle path uses it before
    /// dispatching.
    pub fn wait(&mut self) -> (r: Result<usize, OsError>)
        requires
            old(self).wf(),
        ensures
            final(self).wf(),
            final(self).table() == old(self).table(),
            r is Ok ==> final(self).ring_sq().len() == 0,
            r is Err ==> final(self).ring_sq() == old(self).ring_sq(),
            old(self).ring_cq().is_prefix_of(final(self).ring_cq()),
    {
        self.ring.wait()
    }

    /// Read one slot's lifecycle state; see [`Ops::state_of`].
    pub fn op_state(&self, index: usize) -> (s: Option<LcModel>)
        requires
            self.wf(),
        ensures
            self.table().dom().contains(index as int) ==> s == Some(self.table()[index as int]),
            !self.table().dom().contains(index as int) ==> s is None,
    {
        self.ops.state_of(index)
    }

    /// Ask whether `index`'s slot is complete; see [`Ops::poll_op`].
    pub fn poll_op(&mut self, index: usize, w: W) -> (r: Option<RawCqe>)
        requires
            old(self).wf(),
            old(self).table().dom().contains(index as int),
        ensures
            final(self).wf(),
            final(self).ring_sq() == old(self).ring_sq(),
            final(self).ring_cq() == old(self).ring_cq(),
            old(self).table()[index as int] matches LcModel::Complete(c) ==> r == Some(c) && final(self).table() == old(self).table(),
            !(old(self).table()[index as int] is Complete) ==> r is None && final(self).table()
                == old(self).table().insert(index as int, LcModel::Waiting),
    {
        self.ops.poll_op(index, w)
    }

    /// Release a consumed slot; see [`Ops::remove`].
    pub fn remove_op(&mut self, index: usize)
        requires
            old(self).wf(),
            old(self).table().dom().contains(index as int),
            old(self).table()[index as int] is Complete,
        ensures
            final(self).wf(),
            final(self).ring_sq() == old(self).ring_sq(),
            final(self).ring_cq() == old(self).ring_cq(),
            final(self).table() == old(self).table().remove(index as int),
    {
        self.ops.remove(index)
    }
}

} // verus!
