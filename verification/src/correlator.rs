//! The reply correlator: the slots of the events whose sender waits for a
//! reply, each with its deadline.

use crate::error::{Error, ProtocolFault};
use vstd::prelude::*;

verus! {

/// The number of reply slots that a connection holds unless told otherwise.
pub const DEFAULT_PENDING_CAP: usize = 10_000;

/// A waiter: the id of the event it waits on and the time it gives up.
#[derive(Debug, Clone, Copy, PartialEq, Eq, Structural)]
pub struct Slot {
    pub id: u64,
    pub deadline: u64,
}

/// A slot that ended without a reply, and why.
#[derive(Debug, Clone, Copy, PartialEq, Eq, Structural)]
pub struct Failed {
    pub id: u64,
    pub error: Error,
}

/// Whether a slot for `id` is among `slots`.
pub open spec fn has_slot(slots: Seq<Slot>, id: u64) -> bool {
    exists|i: int| 0 <= i < slots.len() && #[trigger] slots[i].id == id
}

/// Whether no two of the slots wait on the same id.
pub open spec fn distinct_ids(slots: Seq<Slot>) -> bool {
    forall|i: int, j: int|
        0 <= i < j < slots.len() ==> (#[trigger] slots[i]).id != (#[trigger] slots[j]).id
}

/// The slots but those for `id`, in their order.
pub open spec fn without(slots: Seq<Slot>, id: u64) -> Seq<Slot>
    decreases slots.len(),
{
    if slots.len() == 0 {
        slots
    } else if slots.last().id == id {
        without(slots.drop_last(), id)
    } else {
        without(slots.drop_last(), id).push(slots.last())
    }
}

/// The slots whose deadline lies after `now`, in their order.
pub open spec fn not_due(slots: Seq<Slot>, now: u64) -> Seq<Slot>
    decreases slots.len(),
{
    if slots.len() == 0 {
        slots
    } else if slots.last().deadline <= now {
        not_due(slots.drop_last(), now)
    } else {
        not_due(slots.drop_last(), now).push(slots.last())
    }
}

/// The slots whose deadline is `now` or earlier, each failed with a timeout,
/// in their order.
pub open spec fn due(slots: Seq<Slot>, now: u64) -> Seq<Failed>
    decreases slots.len(),
{
    if slots.len() == 0 {
        Seq::empty()
    } else if slots.last().deadline <= now {
        due(slots.drop_last(), now).push(Failed { id: slots.last().id, error: Error::Timeout })
    } else {
        due(slots.drop_last(), now)
    }
}

/// Every slot, failed with `error`, in their order.
pub open spec fn all_failed(slots: Seq<Slot>, error: Error) -> Seq<Failed> {
    Seq::new(slots.len(), |i: int| Failed { id: slots[i].id, error })
}

/// What is left once the slots for `id` are gone holds no slot for `id`,
/// holds every other slot that was there and no new one, and is no longer.
pub proof fn lemma_without(slots: Seq<Slot>, id: u64)
    ensures
        !has_slot(without(slots, id), id),
        forall|other: u64|
            other != id ==> has_slot(without(slots, id), other) == has_slot(slots, other),
        without(slots, id).len() <= slots.len(),
        has_slot(slots, id) ==> without(slots, id).len() < slots.len(),
        !has_slot(slots, id) ==> without(slots, id) == slots,
        distinct_ids(slots) ==> distinct_ids(without(slots, id)),
    decreases slots.len(),
{
    let out = without(slots, id);
    if slots.len() > 0 {
        let head = slots.drop_last();
        let last = slots.last();
        let sub = without(head, id);
        lemma_without(head, id);
        assert forall|other: u64| has_slot(slots, other) == (has_slot(head, other) || last.id
            == other) by {
            if has_slot(slots, other) {
                let i = choose|i: int| 0 <= i < slots.len() && #[trigger] slots[i].id == other;
                if i < head.len() {
                    assert(head[i].id == other);
                }
            }
            if has_slot(head, other) {
                let i = choose|i: int| 0 <= i < head.len() && #[trigger] head[i].id == other;
                assert(slots[i].id == other);
            }
            if last.id == other {
                assert(slots[slots.len() - 1].id == other);
            }
        }
        if last.id == id {
        } else {
            assert forall|other: u64| has_slot(out, other) == (has_slot(sub, other) || last.id
                == other) by {
                if has_slot(out, other) {
                    let i = choose|i: int| 0 <= i < out.len() && #[trigger] out[i].id == other;
                    if i < sub.len() {
                        assert(sub[i].id == other);
                    }
                }
                if has_slot(sub, other) {
                    let i = choose|i: int| 0 <= i < sub.len() && #[trigger] sub[i].id == other;
                    assert(out[i].id == other);
                }
                if last.id == other {
                    assert(out[out.len() - 1].id == other);
                }
            }
            if !has_slot(slots, id) {
                assert(out =~= slots);
            }
        }
        if distinct_ids(slots) {
            assert(distinct_ids(head)) by {
                assert forall|i: int, j: int| 0 <= i < j < head.len() implies (#[trigger] head[i]).id
                    != (#[trigger] head[j]).id by {
                    assert(slots[i].id != slots[j].id);
                }
            }
            if last.id != id {
                assert(!has_slot(head, last.id)) by {
                    if has_slot(head, last.id) {
                        let i = choose|i: int| 0 <= i < head.len() && #[trigger] head[i].id
                            == last.id;
                        assert(slots[i].id != slots[slots.len() - 1].id);
                    }
                }
                assert forall|i: int, j: int| 0 <= i < j < out.len() implies (#[trigger] out[i]).id
                    != (#[trigger] out[j]).id by {
                    if j < sub.len() {
                        assert(sub[i].id != sub[j].id);
                    } else {
                        assert(sub[i].id == out[i].id);
                        assert(has_slot(sub, out[i].id));
                    }
                }
            }
        }
    }
}

/// The slots that are not due are among the slots, so no two of them wait
/// on one id where that held before, and they are no more.
pub proof fn lemma_not_due(slots: Seq<Slot>, now: u64)
    ensures
        not_due(slots, now).len() <= slots.len(),
        forall|id: u64| has_slot(not_due(slots, now), id) ==> has_slot(slots, id),
        distinct_ids(slots) ==> distinct_ids(not_due(slots, now)),
        forall|i: int|
            0 <= i < not_due(slots, now).len() ==> (#[trigger] not_due(slots, now)[i]).deadline
                > now,
    decreases slots.len(),
{
    let out = not_due(slots, now);
    if slots.len() > 0 {
        let head = slots.drop_last();
        let last = slots.last();
        let sub = not_due(head, now);
        lemma_not_due(head, now);
        assert forall|id: u64| has_slot(out, id) implies has_slot(slots, id) by {
            let i = choose|i: int| 0 <= i < out.len() && #[trigger] out[i].id == id;
            if i < sub.len() {
                assert(sub[i].id == id);
                assert(has_slot(head, id));
                let k = choose|k: int| 0 <= k < head.len() && #[trigger] head[k].id == id;
                assert(slots[k].id == id);
            } else {
                assert(slots[slots.len() - 1].id == id);
            }
        }
        if distinct_ids(slots) {
            assert(distinct_ids(head)) by {
                assert forall|i: int, j: int| 0 <= i < j < head.len() implies (#[trigger] head[i]).id
                    != (#[trigger] head[j]).id by {
                    assert(slots[i].id != slots[j].id);
                }
            }
            if last.deadline > now {
                assert forall|i: int, j: int| 0 <= i < j < out.len() implies (#[trigger] out[i]).id
                    != (#[trigger] out[j]).id by {
                    if j < sub.len() {
                        assert(sub[i].id != sub[j].id);
                    } else {
                        assert(sub[i].id == out[i].id);
                        assert(has_slot(sub, out[i].id));
                        assert(has_slot(head, out[i].id));
                        let k = choose|k: int| 0 <= k < head.len() && #[trigger] head[k].id
                            == out[i].id;
                        assert(slots[k].id != slots[slots.len() - 1].id);
                    }
                }
            }
        }
    }
}

/// Each slot that is due stands for a slot that was there, with a deadline
/// that has passed.
pub proof fn lemma_due(slots: Seq<Slot>, now: u64)
    ensures
        due(slots, now).len() + not_due(slots, now).len() == slots.len(),
        forall|i: int|
            0 <= i < due(slots, now).len() ==> {
                &&& (#[trigger] due(slots, now)[i]).error == Error::Timeout
                &&& exists|k: int|
                    0 <= k < slots.len() && #[trigger] slots[k].id == due(slots, now)[i].id
                        && slots[k].deadline <= now
            },
        distinct_ids(slots) ==> forall|i: int, j: int|
            0 <= i < j < due(slots, now).len() ==> (#[trigger] due(slots, now)[i]).id != (
            #[trigger] due(slots, now)[j]).id,
    decreases slots.len(),
{
    let out = due(slots, now);
    if slots.len() > 0 {
        let head = slots.drop_last();
        let last = slots.last();
        let sub = due(head, now);
        lemma_due(head, now);
        assert forall|i: int| 0 <= i < out.len() implies {
            &&& (#[trigger] out[i]).error == Error::Timeout
            &&& exists|k: int|
                0 <= k < slots.len() && #[trigger] slots[k].id == out[i].id && slots[k].deadline
                    <= now
        } by {
            if i < sub.len() {
                assert(out[i] == sub[i]);
                let k = choose|k: int|
                    0 <= k < head.len() && #[trigger] head[k].id == sub[i].id && head[k].deadline
                        <= now;
                assert(slots[k].id == out[i].id && slots[k].deadline <= now);
            } else {
                assert(slots[slots.len() - 1].id == out[i].id);
            }
        }
        if distinct_ids(slots) {
            assert(distinct_ids(head)) by {
                assert forall|i: int, j: int| 0 <= i < j < head.len() implies (#[trigger] head[i]).id
                    != (#[trigger] head[j]).id by {
                    assert(slots[i].id != slots[j].id);
                }
            }
            assert forall|i: int, j: int| 0 <= i < j < out.len() implies (#[trigger] out[i]).id != (
            #[trigger] out[j]).id by {
                if j < sub.len() {
                    assert(sub[i].id != sub[j].id);
                } else {
                    assert(out[i] == sub[i]);
                    let k = choose|k: int|
                        0 <= k < head.len() && #[trigger] head[k].id == sub[i].id
                            && head[k].deadline <= now;
                    assert(slots[k].id != slots[slots.len() - 1].id);
                }
            }
        }
    }
}

/// No reply slot is resolved more than once. A slot is resolved when a
/// reply, an expiry or the teardown takes it out. A second reply for the
/// same id finds no slot; a slot that expired is no longer there for a reply
/// or a later expiry; no id is failed twice by one expiry or one teardown;
/// and after the teardown no slot is left.
pub proof fn lemma_resolved_once(slots: Seq<Slot>, id: u64, now: u64, error: Error)
    requires
        distinct_ids(slots),
    ensures
        !has_slot(without(slots, id), id),
        forall|i: int|
            0 <= i < due(slots, now).len() ==> !has_slot(
                not_due(slots, now),
                (#[trigger] due(slots, now)[i]).id,
            ),
        due(not_due(slots, now), now) == Seq::<Failed>::empty(),
        forall|i: int, j: int|
            0 <= i < j < due(slots, now).len() ==> (#[trigger] due(slots, now)[i]).id != (
            #[trigger] due(slots, now)[j]).id,
        forall|i: int, j: int|
            0 <= i < j < all_failed(slots, error).len() ==> (#[trigger] all_failed(
                slots,
                error,
            )[i]).id != (#[trigger] all_failed(slots, error)[j]).id,
{
    lemma_without(slots, id);
    lemma_due(slots, now);
    lemma_not_due(slots, now);
    let late = not_due(slots, now);
    let gone = due(slots, now);
    assert forall|i: int| 0 <= i < gone.len() implies !has_slot(late, (#[trigger] gone[i]).id) by {
        if has_slot(late, gone[i].id) {
            let a = choose|a: int| 0 <= a < late.len() && #[trigger] late[a].id == gone[i].id;
            lemma_member_of_not_due(slots, now, a);
            let b = choose|b: int| 0 <= b < slots.len() && #[trigger] slots[b] == late[a];
            let k = choose|k: int|
                0 <= k < slots.len() && #[trigger] slots[k].id == gone[i].id && slots[k].deadline
                    <= now;
            if b < k {
                assert(slots[b].id != slots[k].id);
            } else if k < b {
                assert(slots[k].id != slots[b].id);
            }
        }
    }
    lemma_due_of_late(late, now);
    assert forall|i: int, j: int| 0 <= i < j < all_failed(slots, error).len() implies (
    #[trigger] all_failed(slots, error)[i]).id != (#[trigger] all_failed(slots, error)[j]).id by {
        assert(slots[i].id != slots[j].id);
    }
}

/// Each slot that is not due is one of the slots.
proof fn lemma_member_of_not_due(slots: Seq<Slot>, now: u64, a: int)
    requires
        0 <= a < not_due(slots, now).len(),
    ensures
        exists|b: int| 0 <= b < slots.len() && #[trigger] slots[b] == not_due(slots, now)[a],
    decreases slots.len(),
{
    if slots.len() > 0 {
        let head = slots.drop_last();
        let sub = not_due(head, now);
        if a < sub.len() {
            lemma_member_of_not_due(head, now, a);
            let b = choose|b: int| 0 <= b < head.len() && #[trigger] head[b] == sub[a];
            assert(slots[b] == not_due(slots, now)[a]);
        } else {
            assert(slots[slots.len() - 1] == not_due(slots, now)[a]);
        }
    }
}

/// Where every deadline lies after `now`, nothing is due.
proof fn lemma_due_of_late(slots: Seq<Slot>, now: u64)
    requires
        forall|i: int| 0 <= i < slots.len() ==> (#[trigger] slots[i]).deadline > now,
    ensures
        due(slots, now) == Seq::<Failed>::empty(),
    decreases slots.len(),
{
    if slots.len() > 0 {
        let head = slots.drop_last();
        assert forall|i: int| 0 <= i < head.len() implies (#[trigger] head[i]).deadline > now by {
            assert(slots[i].deadline > now);
        }
        lemma_due_of_late(head, now);
        assert(slots[slots.len() - 1].deadline > now);
    }
}

/// The reply slots of one connection, in the order in which they were
/// registered. No two of them wait on the same id, and there are never more
/// than the connection allows.
pub struct ReplyCorrelator {
    slots: Vec<Slot>,
    cap: usize,
}

impl View for ReplyCorrelator {
    type V = Seq<Slot>;

    closed spec fn view(&self) -> Seq<Slot> {
        self.slots@
    }
}

impl ReplyCorrelator {
    /// Whether no two slots wait on the same id and there are no more of
    /// them than the correlator may hold. It holds of a new correlator, and
    /// every operation keeps it.
    pub open spec fn wf(&self) -> bool {
        distinct_ids(self@) && self@.len() <= self.cap()
    }

    /// The number of slots that the correlator may hold.
    pub closed spec fn cap(&self) -> usize {
        self.cap
    }

    /// A correlator without slots, which may hold up to `cap` of them.
    pub fn new(cap: usize) -> (r: Self)
        ensures
            r@ == Seq::<Slot>::empty(),
            r.cap() == cap,
            r.wf(),
    {
        Self { slots: Vec::new(), cap }
    }

    /// The number of slots that wait.
    pub fn len(&self) -> (n: usize)
        ensures
            n == self@.len(),
    {
        self.slots.len()
    }

    /// Whether a slot waits on `id`.
    pub fn contains(&self, id: u64) -> (r: bool)
        ensures
            r == has_slot(self@, id),
    {
        let mut i: usize = 0;
        while i < self.slots.len()
            invariant
                i <= self.slots@.len(),
                forall|k: int| 0 <= k < i ==> (#[trigger] self.slots@[k]).id != id,
            decreases self.slots@.len() - i,
        {
            if self.slots[i].id == id {
                return true;
            }
            i = i + 1;
        }
        false
    }

    /// Installs a slot that waits on `id` until `deadline`. An id that a
    /// slot waits on already is refused, and so is any where the correlator
    /// is full; the correlator then stays as it was.
    pub fn register(&mut self, id: u64, deadline: u64) -> (r: Result<(), Error>)
        ensures
            final(self).cap() == old(self).cap(),
            r == (if has_slot(old(self)@, id) {
                Err::<(), _>(Error::Protocol(ProtocolFault::DuplicateId))
            } else if old(self)@.len() >= old(self).cap() {
                Err::<(), _>(Error::Protocol(ProtocolFault::TooManyPending))
            } else {
                Ok::<_, Error>(())
            }),
            final(self)@ == (if r is Ok {
                old(self)@.push(Slot { id, deadline })
            } else {
                old(self)@
            }),
            old(self).wf() ==> final(self).wf(),
    {
        if self.contains(id) {
            return Err(Error::Protocol(ProtocolFault::DuplicateId));
        }
        if self.slots.len() >= self.cap {
            return Err(Error::Protocol(ProtocolFault::TooManyPending));
        }
        let ghost before = self.slots@;
        self.slots.push(Slot { id, deadline });
        proof {
            let after = self.slots@;
            if distinct_ids(before) {
                assert forall|i: int, j: int| 0 <= i < j < after.len() implies (
                #[trigger] after[i]).id != (#[trigger] after[j]).id by {
                    if j < before.len() {
                        assert(before[i].id != before[j].id);
                    } else {
                        assert(before[i].id == after[i].id);
                    }
                }
            }
        }
        Ok(())
    }

    /// Takes the slot that waits on `id` out, for the reply to be handed to
    /// its waiter, and says whether there was one.
    pub fn resolve(&mut self, id: u64) -> (found: bool)
        ensures
            found == has_slot(old(self)@, id),
            final(self)@ == without(old(self)@, id),
            final(self).cap() == old(self).cap(),
            !has_slot(final(self)@, id),
            old(self).wf() ==> final(self).wf(),
    {
        proof {
            lemma_without(self.slots@, id);
        }
        let mut kept: Vec<Slot> = Vec::new();
        let mut found = false;
        let mut i: usize = 0;
        while i < self.slots.len()
            invariant
                i <= self.slots@.len(),
                kept@ == without(self.slots@.take(i as int), id),
                found == has_slot(self.slots@.take(i as int), id),
            decreases self.slots@.len() - i,
        {
            let slot = self.slots[i];
            proof {
                let next = self.slots@.take(i + 1);
                assert(next.drop_last() =~= self.slots@.take(i as int));
                assert(next.last() == slot);
                if slot.id == id {
                    assert(next[i as int].id == id);
                } else if has_slot(next, id) {
                    let k = choose|k: int| 0 <= k < next.len() && #[trigger] next[k].id == id;
                    assert(self.slots@.take(i as int)[k].id == id);
                } else if has_slot(self.slots@.take(i as int), id) {
                    let k = choose|k: int|
                        0 <= k < i && #[trigger] self.slots@.take(i as int)[k].id == id;
                    assert(next[k].id == id);
                }
            }
            if slot.id == id {
                found = true;
            } else {
                kept.push(slot);
            }
            i = i + 1;
        }
        proof {
            assert(self.slots@.take(i as int) =~= self.slots@);
        }
        self.slots = kept;
        found
    }

    /// Takes out every slot whose deadline is `now` or earlier, and returns
    /// them failed with a timeout, in the order in which they were
    /// registered. The others stay.
    pub fn expire_due(&mut self, now: u64) -> (expired: Vec<Failed>)
        ensures
            expired@ == due(old(self)@, now),
            final(self)@ == not_due(old(self)@, now),
            final(self).cap() == old(self).cap(),
            old(self).wf() ==> final(self).wf(),
    {
        proof {
            lemma_not_due(self.slots@, now);
        }
        let mut kept: Vec<Slot> = Vec::new();
        let mut expired: Vec<Failed> = Vec::new();
        let mut i: usize = 0;
        while i < self.slots.len()
            invariant
                i <= self.slots@.len(),
                kept@ == not_due(self.slots@.take(i as int), now),
                expired@ == due(self.slots@.take(i as int), now),
            decreases self.slots@.len() - i,
        {
            let slot = self.slots[i];
            proof {
                let next = self.slots@.take(i + 1);
                assert(next.drop_last() =~= self.slots@.take(i as int));
                assert(next.last() == slot);
            }
            if slot.deadline <= now {
                expired.push(Failed { id: slot.id, error: Error::Timeout });
            } else {
                kept.push(slot);
            }
            i = i + 1;
        }
        proof {
            assert(self.slots@.take(i as int) =~= self.slots@);
        }
        self.slots = kept;
        expired
    }

    /// Takes out every slot, and returns them failed with `error`, in the
    /// order in which they were registered.
    pub fn drain_all(&mut self, error: Error) -> (failed: Vec<Failed>)
        ensures
            failed@ == all_failed(old(self)@, error),
            final(self)@ == Seq::<Slot>::empty(),
            final(self).cap() == old(self).cap(),
            final(self).wf(),
    {
        let mut failed: Vec<Failed> = Vec::new();
        let mut i: usize = 0;
        while i < self.slots.len()
            invariant
                i <= self.slots@.len(),
                failed@ == all_failed(self.slots@.take(i as int), error),
            decreases self.slots@.len() - i,
        {
            let slot = self.slots[i];
            proof {
                assert(all_failed(self.slots@.take(i + 1), error) =~= all_failed(
                    self.slots@.take(i as int),
                    error,
                ).push(Failed { id: slot.id, error }));
            }
            failed.push(Failed { id: slot.id, error });
            i = i + 1;
        }
        proof {
            assert(self.slots@.take(i as int) =~= self.slots@);
        }
        self.slots = Vec::new();
        failed
    }
}

} // verus!
