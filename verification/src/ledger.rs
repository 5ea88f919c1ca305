//! The access ledger: a record of every outstanding access to one cell,
//! keyed by a monotonically assigned id and annotated with the stack snapshot
//! captured when the access was granted. The ledger is the source of truth
//! for how many accesses are outstanding and where they came from.

use vstd::prelude::*;

use crate::trace::{capture_stack, StackTrace};

verus! {

/// Whether an outstanding access permits observation only, or mutation.
#[derive(Clone, Copy, Debug, PartialEq, Eq, Structural)]
pub enum AccessKind {
    Shared,
    Exclusive,
}

/// The record of one outstanding access.
pub struct BorrowRecord {
    pub id: usize,
    pub kind: AccessKind,
    pub trace: StackTrace,
}

/// The ledger's occupancy, derived from its entries: no entry, some number of
/// shared entries, or exactly one exclusive entry.
#[derive(Clone, Copy, Debug, PartialEq, Eq, Structural)]
pub enum Occupancy {
    Idle,
    Shared(usize),
    Exclusive,
}

/// The ledger itself: the next id to hand out, and the records of every
/// outstanding access, in grant order.
pub struct BorrowData {
    next_id: usize,
    borrows: Vec<BorrowRecord>,
}

impl BorrowData {
    /// The outstanding records, in grant order.
    pub closed spec fn entries(&self) -> Seq<BorrowRecord> {
        self.borrows@
    }

    /// The id the next granted access will receive.
    pub closed spec fn counter(&self) -> usize {
        self.next_id
    }

    /// Well-formedness: ids are distinct and below the counter, entries never
    /// mix shared with exclusive, and an exclusive entry is alone.
    pub open spec fn wf(&self) -> bool {
        &&& forall|i: int, j: int|
            0 <= i < j < self.entries().len() ==> (#[trigger] self.entries()[i].id)
                != (#[trigger] self.entries()[j].id)
        &&& forall|i: int|
            0 <= i < self.entries().len() ==> (#[trigger] self.entries()[i].id) < self.counter()
        &&& forall|i: int, j: int|
            0 <= i < self.entries().len() && 0 <= j < self.entries().len() ==> (
            #[trigger] self.entries()[i].kind) == (#[trigger] self.entries()[j].kind)
        &&& (exists|i: int|
            0 <= i < self.entries().len() && (#[trigger] self.entries()[i].kind)
                == AccessKind::Exclusive) ==> self.entries().len() == 1
    }

    /// The occupancy derived from the entries.
    pub open spec fn occupancy_spec(&self) -> Occupancy {
        if self.entries().len() == 0 {
            Occupancy::Idle
        } else if self.entries()[0].kind == AccessKind::Shared {
            Occupancy::Shared(self.entries().len() as usize)
        } else {
            Occupancy::Exclusive
        }
    }

    /// Whether a new access of the given kind may be granted: any access when
    /// idle, a further shared access beside shared ones, nothing beside an
    /// exclusive one.
    pub open spec fn admits(&self, kind: AccessKind) -> bool {
        match self.occupancy_spec() {
            Occupancy::Idle => true,
            Occupancy::Shared(_) => kind == AccessKind::Shared,
            Occupancy::Exclusive => false,
        }
    }

    /// Whether some entry carries the given id.
    pub open spec fn contains_id(&self, id: usize) -> bool {
        exists|i: int| 0 <= i < self.entries().len() && (#[trigger] self.entries()[i].id) == id
    }

    /// The position of the entry carrying the given id; meaningful only when
    /// `contains_id` holds, and then unique because ids are distinct.
    pub open spec fn index_of(&self, id: usize) -> int {
        choose|i: int| 0 <= i < self.entries().len() && (#[trigger] self.entries()[i].id) == id
    }

    /// The outstanding stack snapshots, in grant order.
    pub open spec fn snapshots_spec(&self) -> Seq<StackTrace> {
        self.entries().map_values(|r: BorrowRecord| r.trace)
    }

    /// An empty ledger.
    pub fn new() -> (d: BorrowData)
        ensures
            d.wf(),
            d.entries().len() == 0,
            d.counter() == 0,
    {
        BorrowData { next_id: 0, borrows: Vec::new() }
    }

    /// Grant one access of the given kind: capture a stack snapshot, allocate
    /// the next id, append the record, and return the id.
    pub fn record(&mut self, kind: AccessKind) -> (id: usize)
        requires
            old(self).wf(),
            old(self).counter() < usize::MAX,
            old(self).admits(kind),
        ensures
            final(self).wf(),
            id == old(self).counter(),
            final(self).counter() == id + 1,
            final(self).entries().len() == old(self).entries().len() + 1,
            forall|i: int|
                0 <= i < old(self).entries().len() ==> final(self).entries()[i] == old(
                    self,
                ).entries()[i],
            final(self).entries().last().id == id,
            final(self).entries().last().kind == kind,
            !old(self).contains_id(id),
            final(self).occupancy_spec() == (if kind == AccessKind::Shared {
                Occupancy::Shared((old(self).entries().len() + 1) as usize)
            } else {
                Occupancy::Exclusive
            }),
    {
        let id = self.next_id;
        self.next_id = id + 1;
        let trace = capture_stack();
        self.borrows.push(BorrowRecord { id, kind, trace });
        id
    }

    /// Remove the entry carrying the given id. A release that has no matching
    /// entry means the ledger and the guards have desynchronized; that is a
    /// programming error, excluded here by the precondition.
    pub fn release(&mut self, id: usize)
        requires
            old(self).wf(),
            old(self).contains_id(id),
        ensures
            final(self).wf(),
            final(self).counter() == old(self).counter(),
            final(self).entries() == old(self).entries().remove(old(self).index_of(id)),
    {
        let mut i: usize = 0;
        while i < self.borrows.len()
            invariant
                old(self).wf(),
                old(self).contains_id(id),
                *self == *old(self),
                0 <= i <= self.borrows.len(),
                forall|j: int| 0 <= j < i ==> (#[trigger] self.entries()[j].id) != id,
            decreases self.borrows.len() - i,
        {
            if self.borrows[i].id == id {
                proof {
                    let at = old(self).index_of(id);
                    assert(0 <= at < old(self).entries().len() && old(self).entries()[at].id
                        == id);
                    if at < i as int {
                        assert(old(self).entries()[at].id != old(self).entries()[i as int].id);
                    } else if at > i as int {
                        assert(old(self).entries()[i as int].id != old(self).entries()[at].id);
                    }
                    assert(at == i as int);
                }
                self.borrows.remove(i);
                proof {
                    let s_old = old(self).entries();
                    let s_new = self.entries();
                    let k = i as int;
                    assert(s_new =~= s_old.remove(k));
                    assert forall|a: int, b: int|
                        0 <= a < b < s_new.len() implies (#[trigger] s_new[a].id) != (
                    #[trigger] s_new[b].id) by {
                        let a0 = if a < k {
                            a
                        } else {
                            a + 1
                        };
                        let b0 = if b < k {
                            b
                        } else {
                            b + 1
                        };
                        assert(s_new[a] == s_old[a0]);
                        assert(s_new[b] == s_old[b0]);
                    }
                    assert forall|a: int|
                        0 <= a < s_new.len() implies (#[trigger] s_new[a].id) < self.counter()
                        && s_new[a].kind == s_old[0].kind by {
                        let a0 = if a < k {
                            a
                        } else {
                            a + 1
                        };
                        assert(s_new[a] == s_old[a0]);
                    }
                    assert forall|a: int|
                        0 <= a < s_new.len() implies (#[trigger] s_new[a].kind)
                        != AccessKind::Exclusive by {
                        let a0 = if a < k {
                            a
                        } else {
                            a + 1
                        };
                        assert(s_new[a] == s_old[a0]);
                        if s_old[a0].kind == AccessKind::Exclusive {
                            assert(0 <= a0 < s_old.len() && s_old[a0].kind
                                == AccessKind::Exclusive);
                            assert(s_old.len() == 1);
                        }
                    }
                }
                return ;
            }
            i += 1;
        }
        proof {
            assert(false);
        }
    }

    /// The id the next granted access will receive.
    pub fn counter_value(&self) -> (n: usize)
        ensures
            n == self.counter(),
    {
        self.next_id
    }

    /// The number of outstanding accesses.
    pub fn outstanding(&self) -> (n: usize)
        ensures
            n == self.entries().len(),
    {
        self.borrows.len()
    }

    /// The stack snapshot of the outstanding access at the given position.
    pub fn snapshot(&self, i: usize) -> (t: &StackTrace)
        requires
            i < self.entries().len(),
        ensures
            *t == self.snapshots_spec()[i as int],
    {
        &self.borrows[i].trace
    }

    /// The occupancy derived from the entries and their kind tag.
    pub fn occupancy(&self) -> (o: Occupancy)
        ensures
            o == self.occupancy_spec(),
    {
        if self.borrows.len() == 0 {
            Occupancy::Idle
        } else {
            match self.borrows[0].kind {
                AccessKind::Shared => Occupancy::Shared(self.borrows.len()),
                AccessKind::Exclusive => Occupancy::Exclusive,
            }
        }
    }
}

} // verus!
