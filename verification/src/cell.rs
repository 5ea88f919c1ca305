//! The tracked cell: owns one value and one access ledger, and grants shared
//! or exclusive access through guard tokens. Shared and exclusive access never
//! overlap; a request that would overlap is refused, and the ledger's stack
//! snapshots say where the outstanding accesses came from.
//!
//! The cell hands out `Ref` and `RefMut` guard tokens. Each guard owns exactly
//! one ledger entry; giving the guard back to the cell (`release`,
//! `release_mut`) removes exactly that entry. Reading and writing the value go
//! through the cell with the guard shown as warrant.

use vstd::prelude::*;

use crate::ledger::{AccessKind, BorrowData, BorrowRecord, Occupancy};
use crate::trace::StackTrace;

verus! {

/// The recoverable refusal of a shared access: an exclusive access is
/// outstanding. Carries no payload.
#[derive(Clone, Copy, Debug, PartialEq, Eq, Structural)]
pub struct BorrowError {}

/// The recoverable refusal of an exclusive access: some access is
/// outstanding. Carries no payload.
#[derive(Clone, Copy, Debug, PartialEq, Eq, Structural)]
pub struct BorrowMutError {}

/// A guard token for one outstanding shared access. It owns one ledger entry
/// of the cell that granted it; the cell's read operations accept it as
/// warrant, and `RefCell::release` gives the entry back.
#[derive(Debug)]
pub struct Ref {
    id: usize,
}

/// A guard token for the one outstanding exclusive access. It owns one ledger
/// entry of the cell that granted it; the cell's read and write operations
/// accept it as warrant, and `RefCell::release_mut` gives the entry back.
#[derive(Debug)]
pub struct RefMut {
    id: usize,
}

impl Ref {
    /// The id of the ledger entry this guard owns.
    pub closed spec fn entry_id(&self) -> usize {
        self.id
    }
}

impl RefMut {
    /// The id of the ledger entry this guard owns.
    pub closed spec fn entry_id(&self) -> usize {
        self.id
    }
}

/// A cell that tracks outstanding accesses to the value it owns. At every
/// instant its ledger holds either nothing, only shared entries, or exactly
/// one exclusive entry.
pub struct RefCell<T> {
    value: T,
    borrows: BorrowData,
}

impl<T> RefCell<T> {
    /// The access ledger.
    pub closed spec fn data(&self) -> BorrowData {
        self.borrows
    }

    /// The value the cell owns.
    pub closed spec fn val(&self) -> T {
        self.value
    }

    /// The outstanding ledger entries, in grant order.
    pub open spec fn ledger(&self) -> Seq<BorrowRecord> {
        self.data().entries()
    }

    /// The id the next granted access will receive.
    pub open spec fn counter(&self) -> usize {
        self.data().counter()
    }

    /// Well-formedness: the ledger never mixes shared with exclusive entries,
    /// never holds two exclusive entries, and its ids are distinct and below
    /// the counter. Established by the constructors and preserved by every
    /// operation.
    pub open spec fn wf(&self) -> bool {
        self.data().wf()
    }

    /// Whether the id counter can still be incremented. Exhausting it would
    /// take a grant per id value of the machine word; the operations that
    /// grant an access ask for this much room.
    pub open spec fn id_space_left(&self) -> bool {
        self.counter() < usize::MAX
    }

    /// The cell's occupancy: idle, shared n times, or exclusively accessed.
    pub open spec fn occ(&self) -> Occupancy {
        self.data().occupancy_spec()
    }

    /// Whether some ledger entry carries the given id.
    pub open spec fn contains_entry(&self, id: usize) -> bool {
        self.data().contains_id(id)
    }

    /// The position of the ledger entry carrying the given id.
    pub open spec fn entry_index(&self, id: usize) -> int {
        self.data().index_of(id)
    }

    /// Whether the given guard owns a shared entry of this cell's ledger.
    pub open spec fn holds_shared(&self, g: Ref) -> bool {
        exists|i: int|
            0 <= i < self.ledger().len() && (#[trigger] self.ledger()[i]).id == g.entry_id()
                && self.ledger()[i].kind == AccessKind::Shared
    }

    /// Whether the given guard owns an exclusive entry of this cell's ledger.
    pub open spec fn holds_exclusive(&self, g: RefMut) -> bool {
        exists|i: int|
            0 <= i < self.ledger().len() && (#[trigger] self.ledger()[i]).id == g.entry_id()
                && self.ledger()[i].kind == AccessKind::Exclusive
    }

    /// How a grant of a shared access relates the cell before and after it:
    /// the value is untouched, the returned guard owns a fresh shared entry
    /// appended to the ledger, and every prior entry is untouched.
    pub open spec fn grants_shared(pre: Self, post: Self, g: Ref) -> bool {
        &&& post.val() == pre.val()
        &&& g.entry_id() == pre.counter()
        &&& post.counter() == pre.counter() + 1
        &&& !pre.contains_entry(g.entry_id())
        &&& post.ledger().len() == pre.ledger().len() + 1
        &&& forall|i: int| 0 <= i < pre.ledger().len() ==> post.ledger()[i] == pre.ledger()[i]
        &&& post.ledger().last().id == g.entry_id()
        &&& post.ledger().last().kind == AccessKind::Shared
        &&& post.holds_shared(g)
        &&& post.occ() == Occupancy::Shared((pre.ledger().len() + 1) as usize)
    }

    /// How a grant of an exclusive access relates the cell before and after
    /// it: the value is untouched and the returned guard owns the one entry
    /// of the ledger, fresh and exclusive.
    pub open spec fn grants_exclusive(pre: Self, post: Self, g: RefMut) -> bool {
        &&& post.val() == pre.val()
        &&& g.entry_id() == pre.counter()
        &&& post.counter() == pre.counter() + 1
        &&& !pre.contains_entry(g.entry_id())
        &&& post.ledger().len() == 1
        &&& post.ledger().last().id == g.entry_id()
        &&& post.ledger().last().kind == AccessKind::Exclusive
        &&& post.holds_exclusive(g)
        &&& post.occ() == Occupancy::Exclusive
    }

    /// How a release relates the cell before and after it: the value and the
    /// counter are untouched, and exactly the entry carrying the given id is
    /// removed; every other entry stays, in order.
    pub open spec fn releases_entry(pre: Self, post: Self, id: usize) -> bool {
        &&& post.val() == pre.val()
        &&& post.counter() == pre.counter()
        &&& pre.contains_entry(id)
        &&& post.ledger() == pre.ledger().remove(pre.entry_index(id))
    }

    /// Create a cell owning the given value, with an empty ledger.
    pub fn new(value: T) -> (c: RefCell<T>)
        ensures
            c.wf(),
            c.val() == value,
            c.ledger().len() == 0,
            c.occ() == Occupancy::Idle,
            c.counter() == 0,
    {
        RefCell { value, borrows: BorrowData::new() }
    }

    /// Discard the cell and return the value stored inside of it. Consuming
    /// the cell makes every further access impossible, so the ledger needs no
    /// look.
    pub fn into_inner(self) -> (v: T)
        ensures
            v == self.val(),
    {
        self.value
    }

    /// The cell's occupancy, for callers that must decide before asking.
    pub fn occupancy(&self) -> (o: Occupancy)
        ensures
            o == self.occ(),
    {
        self.borrows.occupancy()
    }

    /// The number of outstanding accesses.
    pub fn outstanding(&self) -> (n: usize)
        ensures
            n == self.ledger().len(),
    {
        self.borrows.outstanding()
    }

    /// Whether the id counter can still be incremented.
    pub fn has_capacity(&self) -> (b: bool)
        ensures
            b == self.id_space_left(),
    {
        self.borrows.counter_value() < usize::MAX
    }

    /// The stack snapshot of the outstanding access at the given position, in
    /// grant order; for diagnostic rendering.
    pub fn snapshot(&self, i: usize) -> (t: &StackTrace)
        requires
            i < self.ledger().len(),
        ensures
            *t == self.data().snapshots_spec()[i as int],
    {
        self.borrows.snapshot(i)
    }

    /// Grant a shared access. The caller must know that no exclusive access
    /// is outstanding; `try_borrow` is the form that finds out.
    pub fn borrow(&mut self) -> (g: Ref)
        requires
            old(self).wf(),
            old(self).id_space_left(),
            !(old(self).occ() is Exclusive),
        ensures
            final(self).wf(),
            Self::grants_shared(*old(self), *final(self), g),
    {
        let id = self.borrows.record(AccessKind::Shared);
        let g = Ref { id };
        proof {
            let n = old(self).ledger().len() as int;
            assert(0 <= n < self.ledger().len() && self.ledger()[n].id == g.entry_id()
                && self.ledger()[n].kind == AccessKind::Shared);
        }
        g
    }

    /// Ask for a shared access; refused exactly when an exclusive access is
    /// outstanding, and then the cell is left untouched.
    pub fn try_borrow(&mut self) -> (r: Result<Ref, BorrowError>)
        requires
            old(self).wf(),
            old(self).id_space_left(),
        ensures
            final(self).wf(),
            r is Err <==> old(self).occ() is Exclusive,
            r is Err ==> *final(self) == *old(self),
            r matches Ok(g) ==> Self::grants_shared(*old(self), *final(self), g),
    {
        match self.borrows.occupancy() {
            Occupancy::Exclusive => Err(BorrowError {}),
            _ => Ok(self.borrow()),
        }
    }

    /// Grant the exclusive access. The caller must know that nothing is
    /// outstanding; `try_borrow_mut` is the form that finds out.
    pub fn borrow_mut(&mut self) -> (g: RefMut)
        requires
            old(self).wf(),
            old(self).id_space_left(),
            old(self).occ() is Idle,
        ensures
            final(self).wf(),
            Self::grants_exclusive(*old(self), *final(self), g),
    {
        let id = self.borrows.record(AccessKind::Exclusive);
        let g = RefMut { id };
        proof {
            assert(0 <= 0 < self.ledger().len() && self.ledger()[0].id == g.entry_id()
                && self.ledger()[0].kind == AccessKind::Exclusive);
        }
        g
    }

    /// Ask for the exclusive access; refused exactly when any access is
    /// outstanding, and then the cell is left untouched.
    pub fn try_borrow_mut(&mut self) -> (r: Result<RefMut, BorrowMutError>)
        requires
            old(self).wf(),
            old(self).id_space_left(),
        ensures
            final(self).wf(),
            r is Err <==> !(old(self).occ() is Idle),
            r is Err ==> *final(self) == *old(self),
            r matches Ok(g) ==> Self::grants_exclusive(*old(self), *final(self), g),
    {
        match self.borrows.occupancy() {
            Occupancy::Idle => Ok(self.borrow_mut()),
            _ => Err(BorrowMutError {}),
        }
    }

    /// Observe the value through a shared guard.
    pub fn read<'a>(&'a self, g: &Ref) -> (v: &'a T)
        requires
            self.wf(),
            self.holds_shared(*g),
        ensures
            *v == self.val(),
    {
        &self.value
    }

    /// Observe the value through the exclusive guard.
    pub fn read_mut<'a>(&'a self, g: &RefMut) -> (v: &'a T)
        requires
            self.wf(),
            self.holds_exclusive(*g),
        ensures
            *v == self.val(),
    {
        &self.value
    }

    /// Store a new value through the exclusive guard. The ledger is
    /// untouched: the guard stays valid.
    pub fn write(&mut self, g: &RefMut, value: T)
        requires
            old(self).wf(),
            old(self).holds_exclusive(*g),
        ensures
            final(self).wf(),
            final(self).val() == value,
            final(self).ledger() == old(self).ledger(),
            final(self).counter() == old(self).counter(),
    {
        self.value = value;
    }

    /// Exchange the value with another through the exclusive guard. The
    /// ledger is untouched: the guard stays valid.
    pub fn swap_value(&mut self, g: &RefMut, other: &mut T)
        requires
            old(self).wf(),
            old(self).holds_exclusive(*g),
        ensures
            final(self).wf(),
            final(self).val() == *old(other),
            *final(other) == old(self).val(),
            final(self).ledger() == old(self).ledger(),
            final(self).counter() == old(self).counter(),
    {
        core::mem::swap(&mut self.value, other);
    }

    /// Give a shared guard back: its ledger entry, and only that entry, is
    /// removed. Every other outstanding shared guard stays valid.
    pub fn release(&mut self, g: Ref)
        requires
            old(self).wf(),
            old(self).holds_shared(g),
        ensures
            final(self).wf(),
            Self::releases_entry(*old(self), *final(self), g.entry_id()),
            final(self).ledger().len() + 1 == old(self).ledger().len(),
            forall|h: Ref|
                old(self).holds_shared(h) && h.entry_id() != g.entry_id() ==> final(
                self).holds_shared(h),
    {
        proof {
            let i = choose|i: int|
                0 <= i < self.ledger().len() && (#[trigger] self.ledger()[i]).id == g.entry_id()
                    && self.ledger()[i].kind == AccessKind::Shared;
            assert(self.contains_entry(g.entry_id()));
        }
        self.borrows.release(g.id);
        proof {
            assert forall|h: Ref|
                old(self).holds_shared(h) && h.entry_id() != g.entry_id() implies self
                .holds_shared(h) by {
                let k = old(self).entry_index(g.entry_id());
                let i = choose|i: int|
                    0 <= i < old(self).ledger().len() && (#[trigger] old(self).ledger()[i]).id
                        == h.entry_id() && old(self).ledger()[i].kind == AccessKind::Shared;
                let i2 = if i < k {
                    i
                } else {
                    i - 1
                };
                assert(self.ledger()[i2] == old(self).ledger()[i]);
            }
        }
    }

    /// Give the exclusive guard back: its ledger entry is removed, and the
    /// cell is idle again, since an exclusive entry is always alone.
    pub fn release_mut(&mut self, g: RefMut)
        requires
            old(self).wf(),
            old(self).holds_exclusive(g),
        ensures
            final(self).wf(),
            Self::releases_entry(*old(self), *final(self), g.entry_id()),
            final(self).ledger().len() == 0,
            final(self).occ() == Occupancy::Idle,
    {
        proof {
            let i = choose|i: int|
                0 <= i < self.ledger().len() && (#[trigger] self.ledger()[i]).id == g.entry_id()
                    && self.ledger()[i].kind == AccessKind::Exclusive;
            assert(self.contains_entry(g.entry_id()));
        }
        self.borrows.release(g.id);
    }

    /// Take the exclusive access, swap in the given value, release the
    /// access, and return the prior value. Refused exactly as `borrow_mut`
    /// would refuse, here excluded by the precondition.
    pub fn replace(&mut self, t: T) -> (r: T)
        requires
            old(self).wf(),
            old(self).id_space_left(),
            old(self).occ() is Idle,
        ensures
            final(self).wf(),
            r == old(self).val(),
            final(self).val() == t,
            final(self).occ() == Occupancy::Idle,
            final(self).ledger().len() == 0,
            final(self).counter() == old(self).counter() + 1,
    {
        let g = self.borrow_mut();
        let mut t = t;
        self.swap_value(&g, &mut t);
        self.release_mut(g);
        t
    }

    /// As `replace`, but the replacement value is computed by the given
    /// transform from the current value before the swap.
    pub fn replace_with<F: FnOnce(&T) -> T>(&mut self, f: F) -> (r: T)
        requires
            old(self).wf(),
            old(self).id_space_left(),
            old(self).occ() is Idle,
            call_requires(f, (&old(self).val(),)),
        ensures
            final(self).wf(),
            r == old(self).val(),
            call_ensures(f, (&old(self).val(),), final(self).val()),
            final(self).occ() == Occupancy::Idle,
            final(self).ledger().len() == 0,
            final(self).counter() == old(self).counter() + 1,
    {
        let g = self.borrow_mut();
        let mut t = f(self.read_mut(&g));
        self.swap_value(&g, &mut t);
        self.release_mut(g);
        t
    }
}

impl<T: Clone> RefCell<T> {
    /// A fresh, idle cell owning a clone of the value, observed through a
    /// transient shared access; hence refused while an exclusive access is
    /// outstanding.
    pub fn clone_cell(&self) -> (c: RefCell<T>)
        requires
            self.wf(),
            !(self.occ() is Exclusive),
        ensures
            c.wf(),
            c.ledger().len() == 0,
            c.occ() == Occupancy::Idle,
            c.counter() == 0,
            call_ensures(T::clone, (&self.val(),), c.val()),
    {
        RefCell::new(self.value.clone())
    }
}

impl<T: PartialEq> RefCell<T> {
    /// Compare the contained values through a transient shared access on
    /// each side; hence refused while either cell is exclusively accessed.
    pub fn eq_cells(&self, other: &RefCell<T>) -> (r: bool)
        requires
            self.wf(),
            other.wf(),
            !(self.occ() is Exclusive),
            !(other.occ() is Exclusive),
        ensures
            call_ensures(T::eq, (&self.val(), &other.val()), r),
    {
        self.value == other.value
    }
}

impl<T: Default> RefCell<T> {
    /// Take the value out, leaving the type's default construction behind;
    /// equivalent to replacing with the default value.
    pub fn take(&mut self) -> (r: T)
        requires
            old(self).wf(),
            old(self).id_space_left(),
            old(self).occ() is Idle,
        ensures
            final(self).wf(),
            r == old(self).val(),
            call_ensures(T::default, (), final(self).val()),
            final(self).occ() == Occupancy::Idle,
            final(self).ledger().len() == 0,
            final(self).counter() == old(self).counter() + 1,
    {
        self.replace(T::default())
    }
}

impl<T: Default> Default for RefCell<T> {
    /// A cell owning the type's default construction, with an empty ledger.
    fn default() -> (c: Self)
        ensures
            c.wf(),
            call_ensures(T::default, (), c.val()),
            c.ledger().len() == 0,
            c.occ() == Occupancy::Idle,
            c.counter() == 0,
    {
        RefCell::new(T::default())
    }
}

impl Ref {
    /// Clone a shared guard: a brand-new ledger entry is recorded, so the
    /// clone is released independently of the original, and the number of
    /// outstanding accesses grows by one. The original guard stays valid.
    pub fn clone<T>(orig: &Ref, cell: &mut RefCell<T>) -> (g: Ref)
        requires
            old(cell).wf(),
            old(cell).id_space_left(),
            old(cell).holds_shared(*orig),
        ensures
            final(cell).wf(),
            RefCell::grants_shared(*old(cell), *final(cell), g),
            final(cell).holds_shared(*orig),
            g.entry_id() != orig.entry_id(),
    {
        proof {
            let i = choose|i: int|
                0 <= i < cell.ledger().len() && (#[trigger] cell.ledger()[i]).id
                    == orig.entry_id() && cell.ledger()[i].kind == AccessKind::Shared;
            assert(cell.ledger()[0].kind == cell.ledger()[i].kind);
        }
        let g = cell.borrow();
        proof {
            let i = choose|i: int|
                0 <= i < old(cell).ledger().len() && (#[trigger] old(cell).ledger()[i]).id
                    == orig.entry_id() && old(cell).ledger()[i].kind == AccessKind::Shared;
            assert(cell.ledger()[i] == old(cell).ledger()[i]);
        }
        g
    }

    /// Project a shared guard onto a narrower view. A projection creates no
    /// new access: the original guard is consumed and its ledger entry — its
    /// identity and release timing — carries over to the guard returned, so
    /// the number of outstanding accesses is unchanged. For this cell, whose
    /// guards observe the value through the cell itself, the entry transfer
    /// is the whole run-time content of the projection.
    pub fn map(orig: Ref) -> (g: Ref)
        ensures
            g.entry_id() == orig.entry_id(),
    {
        orig
    }
}

impl RefMut {
    /// Project the exclusive guard onto a narrower view: the original guard
    /// is consumed and its ledger entry carries over to the guard returned,
    /// as with `Ref::map`. Exclusive guards cannot be cloned: exclusivity
    /// cannot be duplicated.
    pub fn map(orig: RefMut) -> (g: RefMut)
        ensures
            g.entry_id() == orig.entry_id(),
    {
        orig
    }
}

/// Project a shared guard through a transform that may decline. When the
/// transform accepts, the guard's ledger entry carries over to the guard
/// returned, as with `Ref::map`; when it declines, the access is released at
/// once. Either way exactly zero or one live guard comes out of the original
/// entry, never two.
pub fn ref_filter_map<T, F: FnOnce(&T) -> bool>(cell: &mut RefCell<T>, orig: Ref, f: F) -> (r:
    Option<Ref>)
    requires
        old(cell).wf(),
        old(cell).holds_shared(orig),
        call_requires(f, (&old(cell).val(),)),
    ensures
        final(cell).wf(),
        final(cell).val() == old(cell).val(),
        r matches Some(g) ==> {
            &&& g.entry_id() == orig.entry_id()
            &&& *final(cell) == *old(cell)
            &&& call_ensures(f, (&old(cell).val(),), true)
        },
        r is None ==> {
            &&& RefCell::releases_entry(*old(cell), *final(cell), orig.entry_id())
            &&& final(cell).ledger().len() + 1 == old(cell).ledger().len()
            &&& call_ensures(f, (&old(cell).val(),), false)
        },
{
    if f(cell.read(&orig)) {
        Some(Ref::map(orig))
    } else {
        cell.release(orig);
        None
    }
}

/// Project the exclusive guard through a transform that may decline, as
/// `ref_filter_map` does for shared guards. A decline releases the access at
/// once, leaving the cell idle.
pub fn ref_mut_filter_map<T, F: FnOnce(&T) -> bool>(
    cell: &mut RefCell<T>,
    orig: RefMut,
    f: F,
) -> (r: Option<RefMut>)
    requires
        old(cell).wf(),
        old(cell).holds_exclusive(orig),
        call_requires(f, (&old(cell).val(),)),
    ensures
        final(cell).wf(),
        final(cell).val() == old(cell).val(),
        r matches Some(g) ==> {
            &&& g.entry_id() == orig.entry_id()
            &&& *final(cell) == *old(cell)
            &&& call_ensures(f, (&old(cell).val(),), true)
        },
        r is None ==> {
            &&& RefCell::releases_entry(*old(cell), *final(cell), orig.entry_id())
            &&& final(cell).ledger().len() + 1 == old(cell).ledger().len()
            &&& final(cell).occ() == Occupancy::Idle
            &&& call_ensures(f, (&old(cell).val(),), false)
        },
{
    if f(cell.read_mut(&orig)) {
        Some(RefMut::map(orig))
    } else {
        cell.release_mut(orig);
        None
    }
}

/// In a well-formed cell's ledger, a shared entry and an exclusive entry
/// never coexist.
pub proof fn lemma_no_mixed_entries<T>(c: RefCell<T>)
    requires
        c.wf(),
    ensures
        !((exists|i: int|
            0 <= i < c.ledger().len() && (#[trigger] c.ledger()[i]).kind == AccessKind::Shared)
            && (exists|j: int|
            0 <= j < c.ledger().len() && (#[trigger] c.ledger()[j]).kind
                == AccessKind::Exclusive)),
{
    if (exists|i: int|
        0 <= i < c.ledger().len() && (#[trigger] c.ledger()[i]).kind == AccessKind::Shared) && (
    exists|j: int|
        0 <= j < c.ledger().len() && (#[trigger] c.ledger()[j]).kind == AccessKind::Exclusive) {
        let i = choose|i: int|
            0 <= i < c.ledger().len() && (#[trigger] c.ledger()[i]).kind == AccessKind::Shared;
        let j = choose|j: int|
            0 <= j < c.ledger().len() && (#[trigger] c.ledger()[j]).kind == AccessKind::Exclusive;
        assert(c.ledger()[i].kind == c.ledger()[j].kind);
    }
}

/// In a well-formed cell's ledger, two exclusive entries never coexist: any
/// two positions holding exclusive entries are the same position.
pub proof fn lemma_exclusive_entry_unique<T>(c: RefCell<T>, i: int, j: int)
    requires
        c.wf(),
        0 <= i < c.ledger().len(),
        0 <= j < c.ledger().len(),
        c.ledger()[i].kind == AccessKind::Exclusive,
        c.ledger()[j].kind == AccessKind::Exclusive,
    ensures
        i == j,
{
    assert(c.ledger().len() == 1);
}

/// While any shared guard of a well-formed cell is held, no exclusive guard
/// of it can be held.
pub proof fn lemma_shared_guard_excludes_exclusive<T>(c: RefCell<T>, g: Ref, h: RefMut)
    requires
        c.wf(),
        c.holds_shared(g),
    ensures
        !c.holds_exclusive(h),
{
    let i = choose|i: int|
        0 <= i < c.ledger().len() && (#[trigger] c.ledger()[i]).id == g.entry_id()
            && c.ledger()[i].kind == AccessKind::Shared;
    if c.holds_exclusive(h) {
        let j = choose|j: int|
            0 <= j < c.ledger().len() && (#[trigger] c.ledger()[j]).id == h.entry_id()
                && c.ledger()[j].kind == AccessKind::Exclusive;
        assert(c.ledger()[i].kind == c.ledger()[j].kind);
    }
}

/// Any two exclusive guards held of a well-formed cell own the same, single
/// ledger entry: exclusivity is never duplicated.
pub proof fn lemma_exclusive_guard_unique<T>(c: RefCell<T>, g: RefMut, h: RefMut)
    requires
        c.wf(),
        c.holds_exclusive(g),
        c.holds_exclusive(h),
    ensures
        g.entry_id() == h.entry_id(),
{
    let i = choose|i: int|
        0 <= i < c.ledger().len() && (#[trigger] c.ledger()[i]).id == g.entry_id()
            && c.ledger()[i].kind == AccessKind::Exclusive;
    let j = choose|j: int|
        0 <= j < c.ledger().len() && (#[trigger] c.ledger()[j]).id == h.entry_id()
            && c.ledger()[j].kind == AccessKind::Exclusive;
    assert(c.ledger().len() == 1);
}

} // verus!
