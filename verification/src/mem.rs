//! Alignment arithmetic and the reference-counted sharing arena.

use vstd::prelude::*;
use core::marker::PhantomData;
use vstd::arithmetic::power2::{pow2, lemma_pow2_pos};
use vstd::arithmetic::div_mod::{lemma_fundamental_div_mod, lemma_mod_multiples_basic};
use vstd::bits::{low_bits_mask, lemma_usize_low_bits_mask_is_mod};

verus! {

/// Whether `align` is a power of two that fits the address width.
pub open spec fn is_power_of_two(align: usize) -> bool {
    exists|n: nat| n < usize::BITS && align == #[trigger] pow2(n)
}

/// What `align_down` computes on every input: the bits of `value` above the mask `align - 1`.
pub open spec fn spec_align_down(value: usize, align: usize) -> usize {
    value & !((align - 1) as usize)
}

/// What `align_up` computes on every input it accepts.
pub open spec fn spec_align_up(value: usize, align: usize) -> usize {
    ((value + align - 1) as usize) & !((align - 1) as usize)
}

/// For a power of two, masking the low bits away subtracts the remainder.
pub proof fn lemma_align_down(value: usize, align: usize)
    requires
        is_power_of_two(align),
    ensures
        spec_align_down(value, align) == value - (value as int) % (align as int),
        (spec_align_down(value, align) as int) % (align as int) == 0,
{
    let n = choose|n: nat| n < usize::BITS && align == #[trigger] pow2(n);
    lemma_pow2_pos(n);
    let mask = (align - 1) as usize;
    assert(mask == low_bits_mask(n) as usize);
    lemma_usize_low_bits_mask_is_mod(value, n);
    let low = value & mask;
    assert(low == value % align);
    let r = value & !mask;
    assert(r == value - low) by (bit_vector)
        requires
            low == value & mask,
            r == value & !mask,
    ;
    let q = value as int / align as int;
    lemma_fundamental_div_mod(value as int, align as int);
    assert(r == q * align) by (nonlinear_arith)
        requires
            value == align * q + (value as int) % (align as int),
            r == value - (value as int) % (align as int),
    ;
    lemma_mod_multiples_basic(q, align as int);
}

/// Rounds `value` down to a multiple of `align`, a power of two, by
/// masking its low bits away.
pub fn align_down(value: usize, align: usize) -> (r: usize)
    requires
        align > 0,
    ensures
        r == spec_align_down(value, align),
        is_power_of_two(align) ==> r == value - (value as int) % (align as int)
            && (r as int) % (align as int) == 0,
{
    let inv_mask: usize = align - 1;
    proof {
        if is_power_of_two(align) {
            lemma_align_down(value, align);
        }
    }
    value & !inv_mask
}

/// Rounds `value` up to a multiple of `align`, a power of two: the least
/// multiple that is not below `value`.
pub fn align_up(value: usize, align: usize) -> (r: usize)
    requires
        align > 0,
        value + align - 1 <= usize::MAX,
    ensures
        r == spec_align_up(value, align),
        is_power_of_two(align) ==> value <= r && r - value < align && (r as int) % (align as int) == 0,
{
    let inv_mask: usize = align - 1;
    proof {
        if is_power_of_two(align) {
            lemma_align_down((value + align - 1) as usize, align);
        }
    }
    (value + inv_mask) & !inv_mask
}

/// The counter of one shared allocation. It has no storage until it is first
/// acquired and gives its storage back when the count returns to zero.
pub struct ReferenceCount {
    holder: Option<i64>,
}

impl ReferenceCount {
    /// The number of owners the counter records; zero while it has no storage.
    pub closed spec fn count(&self) -> int {
        match self.holder {
            Some(n) => n as int,
            None => 0,
        }
    }

    /// Storage exists exactly while the count is positive.
    pub closed spec fn wf(&self) -> bool {
        match self.holder {
            Some(n) => n >= 1,
            None => true,
        }
    }

    /// A counter that records no owner.
    pub fn new() -> (r: Self)
        ensures
            r.wf(),
            r.count() == 0,
    {
        Self { holder: None }
    }

    /// The number of owners recorded.
    pub fn use_count(&self) -> (n: i64)
        ensures
            n == self.count(),
    {
        match self.holder {
            Some(n) => n,
            None => 0,
        }
    }

    /// Records one more owner, allocating the counter on first use.
    pub fn acquire(&mut self)
        requires
            old(self).wf(),
            old(self).count() < i64::MAX,
        ensures
            final(self).wf(),
            final(self).count() == old(self).count() + 1,
    {
        match self.holder {
            None => {
                self.holder = Some(1);
            },
            Some(n) => {
                self.holder = Some(n + 1);
            },
        }
    }

    /// Forgets one owner. Returns `true` when that was the last one, in which
    /// case the counter's storage is gone and the object must be freed too.
    pub fn release(&mut self) -> (last: bool)
        requires
            old(self).wf(),
        ensures
            final(self).wf(),
            old(self).count() == 0 ==> !last && final(self).count() == 0,
            old(self).count() > 0 ==> final(self).count() == old(self).count() - 1,
            last == (old(self).count() == 1),
    {
        match self.holder {
            None => false,
            Some(n) => {
                if n == 1 {
                    self.holder = None;
                    true
                } else {
                    self.holder = Some(n - 1);
                    false
                }
            },
        }
    }
}

/// Names one allocation of a heap: the slot it lives in and the slot's
/// generation at the time it was made. A slot that is reused gets a new
/// generation, so a stale name never matches a later occupant.
#[derive(Clone, Copy, PartialEq, Eq, Structural, Debug)]
pub struct CellId {
    pub slot: usize,
    pub generation: u64,
}

struct Slot<T> {
    generation: u64,
    object: Option<T>,
    ref_count: ReferenceCount,
}

/// The arena that backs every `Shared` handle: objects and their counters
/// live here, handles only name them.
pub struct SharedHeap<T> {
    slots: Vec<Slot<T>>,
}

impl<T> SharedHeap<T> {
    /// Every slot holds an object exactly while its counter is positive.
    pub closed spec fn wf(&self) -> bool {
        forall|i: int|
            0 <= i < self.slots.len() ==> {
                &&& (#[trigger] self.slots[i]).ref_count.wf()
                &&& (self.slots[i].object is Some <==> self.slots[i].ref_count.count() > 0)
            }
    }

    /// Whether the allocation named `id` still exists.
    pub closed spec fn live(&self, id: CellId) -> bool {
        &&& id.slot < self.slots.len()
        &&& self.slots[id.slot as int].generation == id.generation
        &&& self.slots[id.slot as int].object is Some
    }

    /// The number of handles that own the allocation named `id`; zero once it is gone.
    pub closed spec fn count(&self, id: CellId) -> int {
        if self.live(id) {
            self.slots[id.slot as int].ref_count.count()
        } else {
            0
        }
    }

    /// The object stored in the allocation named `id`.
    pub closed spec fn value(&self, id: CellId) -> T
        recommends
            self.live(id),
    {
        self.slots[id.slot as int].object->0
    }

    /// Everything but the allocation `id` is the same in `self` and `other`.
    pub open spec fn same_except(&self, other: &Self, id: CellId) -> bool {
        forall|o: CellId|
            o != id ==> {
                &&& #[trigger] self.live(o) == other.live(o)
                &&& self.count(o) == other.count(o)
                &&& (self.live(o) ==> self.value(o) == other.value(o))
            }
    }

    /// The same allocations, with the same counts and objects.
    pub open spec fn same_as(&self, other: &Self) -> bool {
        forall|o: CellId|
            {
                &&& #[trigger] self.live(o) == other.live(o)
                &&& self.count(o) == other.count(o)
                &&& (self.live(o) ==> self.value(o) == other.value(o))
            }
    }

    /// Whether `self` is `other` after a handle on `cell` was duplicated:
    /// where that can be, the allocation has one owner more and holds what
    /// it held; where it cannot, nothing changed. No other allocation changed.
    pub open spec fn took_on(&self, other: &Self, cell: Option<CellId>) -> bool {
        if other.can_share(cell) {
            let id = cell->0;
            &&& self.live(id)
            &&& self.count(id) == other.count(id) + 1
            &&& self.value(id) == other.value(id)
            &&& self.same_except(other, id)
        } else {
            self.same_as(other)
        }
    }

    /// Whether `self` is `other` after a handle on `cell` was given up: the
    /// allocation has one owner fewer, and is gone where that was its last;
    /// a handle on nothing, or on an allocation that is gone, changes nothing.
    pub open spec fn gave_up(&self, other: &Self, cell: Option<CellId>) -> bool {
        match cell {
            Some(id) => {
                &&& self.count(id) == if other.live(id) {
                    other.count(id) - 1
                } else {
                    0
                }
                &&& self.live(id) == (other.count(id) > 1)
                &&& (self.live(id) ==> self.value(id) == other.value(id))
                &&& self.same_except(other, id)
            },
            None => self.same_as(other),
        }
    }

    /// An allocation exists exactly while at least one handle owns it: the
    /// object and its counter go together, when the count returns to zero.
    pub proof fn lemma_live_has_owner(&self, id: CellId)
        requires
            self.wf(),
        ensures
            self.live(id) <==> self.count(id) > 0,
    {
    }

    /// Every allocation exists exactly while it has an owner, and none
    /// has fewer than no owner.
    pub proof fn lemma_counts(&self)
        requires
            self.wf(),
        ensures
            forall|id: CellId| #[trigger] self.live(id) <==> self.count(id) > 0,
            forall|id: CellId| #[trigger] self.count(id) >= 0,
    {
    }

    /// A heap that holds nothing.
    pub fn new() -> (heap: Self)
        ensures
            heap.wf(),
            forall|id: CellId| !heap.live(id),
    {
        Self { slots: Vec::new() }
    }

    /// Whether `id` names an allocation that still exists.
    pub fn is_live(&self, id: CellId) -> (b: bool)
        ensures
            b == self.live(id),
    {
        id.slot < self.slots.len() && self.slots[id.slot].generation == id.generation
            && self.slots[id.slot].object.is_some()
    }

    /// Borrows the object of the allocation `id`, if it still exists.
    pub fn get(&self, id: CellId) -> (r: Option<&T>)
        ensures
            self.live(id) ==> r == Some(&self.value(id)),
            !self.live(id) ==> r is None,
    {
        if id.slot < self.slots.len() && self.slots[id.slot].generation == id.generation {
            self.slots[id.slot].object.as_ref()
        } else {
            None
        }
    }

    /// Borrows the object of the allocation `id` for writing.
    pub fn get_mut(&mut self, id: CellId) -> (r: &mut T)
        requires
            old(self).wf(),
            old(self).live(id),
        ensures
            *r == old(self).value(id),
            final(self).wf(),
            final(self).live(id),
            final(self).value(id) == *final(r),
            final(self).count(id) == old(self).count(id),
            final(self).same_except(old(self), id),
    {
        match &mut self.slots[id.slot].object {
            Some(object) => object,
            None => vstd::pervasive::unreached(),
        }
    }

    /// Whether a handle on `cell` can be duplicated: the allocation exists and
    /// its counter has room for one more owner.
    pub open spec fn can_share(&self, cell: Option<CellId>) -> bool {
        cell matches Some(id) && self.live(id) && self.count(id) < i64::MAX
    }

    fn find_vacant(&self) -> (i: usize)
        ensures
            i <= self.slots.len(),
            i < self.slots.len() ==> self.slots[i as int].object is None
                && self.slots[i as int].generation < u64::MAX,
    {
        let mut i: usize = 0;
        while i < self.slots.len()
            invariant
                i <= self.slots.len(),
            decreases self.slots.len() - i,
        {
            if self.slots[i].object.is_none() && self.slots[i].generation < u64::MAX {
                return i;
            }
            i += 1;
        }
        i
    }

    /// Stores `var` as a new allocation with one owner and returns its name.
    fn allocate(&mut self, var: T) -> (id: CellId)
        requires
            old(self).wf(),
        ensures
            final(self).wf(),
            !old(self).live(id),
            final(self).live(id),
            final(self).count(id) == 1,
            final(self).value(id) == var,
            final(self).same_except(old(self), id),
    {
        let mut ref_count = ReferenceCount::new();
        ref_count.acquire();
        let i = self.find_vacant();
        if i < self.slots.len() {
            let generation: u64 = self.slots[i].generation + 1;
            self.slots.set(i, Slot { generation, object: Some(var), ref_count });
            CellId { slot: i, generation }
        } else {
            self.slots.push(Slot { generation: 0, object: Some(var), ref_count });
            CellId { slot: i, generation: 0 }
        }
    }

    /// Adds one owner to the allocation `id`.
    fn retain(&mut self, id: CellId)
        requires
            old(self).wf(),
            old(self).can_share(Some(id)),
        ensures
            final(self).wf(),
            final(self).live(id),
            final(self).count(id) == old(self).count(id) + 1,
            final(self).value(id) == old(self).value(id),
            final(self).same_except(old(self), id),
    {
        self.slots[id.slot].ref_count.acquire();
    }

    /// Takes one owner from the allocation `id`, freeing object and counter
    /// together when it was the last. Does nothing if the allocation is gone.
    fn release(&mut self, id: CellId)
        requires
            old(self).wf(),
        ensures
            final(self).wf(),
            final(self).count(id) == if old(self).live(id) { old(self).count(id) - 1 } else { 0 },
            final(self).live(id) == (old(self).count(id) > 1),
            final(self).live(id) ==> final(self).value(id) == old(self).value(id),
            final(self).same_except(old(self), id),
    {
        if self.is_live(id) {
            let last = self.slots[id.slot].ref_count.release();
            if last {
                self.slots[id.slot].object = None;
            }
        }
    }

    /// As `release`, and hands out the object where it was freed.
    fn release_take(&mut self, id: CellId) -> (freed: Option<T>)
        requires
            old(self).wf(),
        ensures
            final(self).wf(),
            final(self).count(id) == if old(self).live(id) { old(self).count(id) - 1 } else { 0 },
            final(self).live(id) == (old(self).count(id) > 1),
            final(self).live(id) ==> final(self).value(id) == old(self).value(id),
            final(self).same_except(old(self), id),
            freed == if old(self).count(id) == 1 { Some(old(self).value(id)) } else { None },
    {
        if self.is_live(id) {
            let last = self.slots[id.slot].ref_count.release();
            if last {
                return self.slots[id.slot].object.take();
            }
        }
        None
    }
}

/// A counted handle on an object stored in a `SharedHeap`. Two handles are
/// equal exactly when they name the same allocation. Handles are made
/// by `new`, duplicated by `copy` and `to`, and given up by `reset`; the
/// object is freed when its last handle is given up.
pub struct Shared<T> {
    cell: Option<CellId>,
    marker: PhantomData<T>,
}

impl<T> Shared<T> {
    /// The allocation this handle names, or `None` once it has been reset.
    pub closed spec fn cell(&self) -> Option<CellId> {
        self.cell
    }

    /// The allocation this handle names, or `None` once it has been reset.
    pub fn id(&self) -> (r: Option<CellId>)
        ensures
            r == self.cell(),
    {
        self.cell
    }

    /// Moves `var` into the heap and returns the one handle that owns it.
    pub fn new(heap: &mut SharedHeap<T>, var: T) -> (r: Self)
        requires
            old(heap).wf(),
        ensures
            final(heap).wf(),
            r.cell() matches Some(id) && {
                &&& !old(heap).live(id)
                &&& final(heap).live(id)
                &&& final(heap).count(id) == 1
                &&& final(heap).value(id) == var
                &&& final(heap).same_except(old(heap), id)
            },
    {
        let id = heap.allocate(var);
        Self { cell: Some(id), marker: PhantomData }
    }

    /// The number of handles that own this handle's object; zero for a handle
    /// that was reset or whose object is gone.
    pub fn use_count(&self, heap: &SharedHeap<T>) -> (n: i64)
        requires
            heap.wf(),
        ensures
            n == match self.cell() {
                Some(id) => heap.count(id),
                None => 0,
            },
    {
        match self.cell {
            Some(id) => {
                if heap.is_live(id) {
                    heap.slots[id.slot].ref_count.use_count()
                } else {
                    0
                }
            },
            None => 0,
        }
    }

    /// A second handle on the same object, raising its count by one. Where
    /// the object is gone, or its counter is full, the result is a handle on
    /// nothing and the heap is unchanged.
    pub fn copy(&self, heap: &mut SharedHeap<T>) -> (r: Self)
        requires
            old(heap).wf(),
        ensures
            final(heap).wf(),
            final(heap).took_on(old(heap), self.cell()),
            old(heap).can_share(self.cell()) ==> r.cell() == self.cell(),
            !old(heap).can_share(self.cell()) ==> r.cell() is None,
    {
        match self.cell {
            Some(id) => {
                if heap.is_live(id) && heap.slots[id.slot].ref_count.use_count() < i64::MAX {
                    heap.retain(id);
                    Self { cell: Some(id), marker: PhantomData }
                } else {
                    Self { cell: None, marker: PhantomData }
                }
            },
            None => Self { cell: None, marker: PhantomData },
        }
    }

    /// A second handle that views the same allocation, sharing its count.
    pub fn to(&self, heap: &mut SharedHeap<T>) -> (r: Self)
        requires
            old(heap).wf(),
        ensures
            final(heap).wf(),
            final(heap).took_on(old(heap), self.cell()),
            old(heap).can_share(self.cell()) ==> r.cell() == self.cell(),
            !old(heap).can_share(self.cell()) ==> r.cell() is None,
    {
        self.copy(heap)
    }

    /// Gives this handle up: the object's count drops by one, the object is
    /// freed if this was its last handle, and the handle names nothing after.
    pub fn reset(&mut self, heap: &mut SharedHeap<T>)
        requires
            old(heap).wf(),
        ensures
            final(heap).wf(),
            final(self).cell() is None,
            final(heap).gave_up(old(heap), old(self).cell()),
    {
        match self.cell {
            Some(id) => {
                heap.release(id);
                self.cell = None;
            },
            None => {},
        }
    }

    /// Gives this handle up as `reset` does, and hands out the object where
    /// this was its last handle.
    pub fn take(&mut self, heap: &mut SharedHeap<T>) -> (freed: Option<T>)
        requires
            old(heap).wf(),
        ensures
            final(heap).wf(),
            final(self).cell() is None,
            final(heap).gave_up(old(heap), old(self).cell()),
            freed == match old(self).cell() {
                Some(id) if old(heap).count(id) == 1 => Some(old(heap).value(id)),
                _ => None,
            },
    {
        match self.cell {
            Some(id) => {
                let freed = heap.release_take(id);
                self.cell = None;
                freed
            },
            None => None,
        }
    }

    /// Borrows the shared object, if it still exists.
    pub fn get<'a>(&self, heap: &'a SharedHeap<T>) -> (r: Option<&'a T>)
        ensures
            match self.cell() {
                Some(id) if heap.live(id) => r == Some(&heap.value(id)),
                _ => r is None,
            },
    {
        match self.cell {
            Some(id) => heap.get(id),
            None => None,
        }
    }
}

/// What became of one handle on an allocation: a duplicate of it was
/// made, or a handle on it was given up.
pub enum HandleEvent {
    Duplicated,
    GivenUp,
}

/// How many of `events` made a duplicate.
pub open spec fn duplicates(events: Seq<HandleEvent>) -> int
    decreases events.len(),
{
    if events.len() == 0 {
        0
    } else {
        duplicates(events.drop_last()) + if events.last() is Duplicated {
            1int
        } else {
            0int
        }
    }
}

/// How many of `events` gave a handle up.
pub open spec fn given_up_handles(events: Seq<HandleEvent>) -> int
    decreases events.len(),
{
    if events.len() == 0 {
        0
    } else {
        given_up_handles(events.drop_last()) + if events.last() is GivenUp {
            1int
        } else {
            0int
        }
    }
}

/// Whether `after` is what `event` on the allocation `id` made of
/// `before`: what `Shared::copy` and `Shared::to` do where the handle can
/// be duplicated, or what `Shared::reset` and `Shared::take` do.
pub open spec fn handle_event<T>(
    before: &SharedHeap<T>,
    after: &SharedHeap<T>,
    id: CellId,
    event: HandleEvent,
) -> bool {
    match event {
        HandleEvent::Duplicated => before.can_share(Some(id)) && after.took_on(before, Some(id)),
        HandleEvent::GivenUp => after.gave_up(before, Some(id)),
    }
}

/// The count of an allocation is the number of handles on it. Take an
/// allocation that `Shared::new` made, with its one handle, and any history
/// of duplicating handles on it and giving handles on it up, in which at no
/// time more were given up than had been duplicated, so that the first
/// handle is still held. Then the allocation is still there, it holds the
/// object it was made with, and its count is one more than the duplicates
/// made less the handles given up.
pub proof fn lemma_count_is_handles_held<T>(
    heaps: Seq<SharedHeap<T>>,
    events: Seq<HandleEvent>,
    id: CellId,
)
    requires
        heaps.len() == events.len() + 1,
        forall|i: int| 0 <= i < heaps.len() ==> (#[trigger] heaps[i]).wf(),
        heaps[0].live(id),
        heaps[0].count(id) == 1,
        forall|i: int|
            0 <= i < events.len() ==> handle_event(&heaps[i], &heaps[i + 1], id, #[trigger] events[i]),
        forall|k: int|
            0 <= k <= events.len() ==> given_up_handles(events.take(k)) <= #[trigger] duplicates(
                events.take(k),
            ),
    ensures
        heaps.last().live(id),
        heaps.last().count(id) == 1 + duplicates(events) - given_up_handles(events),
        heaps.last().value(id) == heaps[0].value(id),
    decreases events.len(),
{
    let n = events.len() as int;
    if n > 0 {
        let earlier = events.drop_last();
        let short = heaps.drop_last();
        assert forall|k: int| 0 <= k <= earlier.len() implies given_up_handles(earlier.take(k))
            <= #[trigger] duplicates(earlier.take(k)) by {
            assert(earlier.take(k) =~= events.take(k));
            assert(given_up_handles(events.take(k)) <= duplicates(events.take(k)));
        }
        assert forall|i: int| 0 <= i < earlier.len() implies handle_event(
            &short[i],
            &short[i + 1],
            id,
            #[trigger] earlier[i],
        ) by {
            assert(handle_event(&heaps[i], &heaps[i + 1], id, events[i]));
        }
        assert forall|i: int| 0 <= i < short.len() implies (#[trigger] short[i]).wf() by {
            assert(heaps[i].wf());
        }
        lemma_count_is_handles_held(short, earlier, id);
        assert(short.last() == heaps[n - 1]);
        assert(heaps.last() == heaps[n]);
        assert(handle_event(&heaps[n - 1], &heaps[n], id, events[n - 1]));
        assert(events.take(n) =~= events);
        assert(given_up_handles(events.take(n)) <= duplicates(events.take(n)));
        assert(earlier.take(n - 1) =~= earlier);
    }
}

impl<T> PartialEq for Shared<T> {
    fn eq(&self, other: &Self) -> (b: bool) {
        match (self.cell, other.cell) {
            (Some(a), Some(b)) => a.slot == b.slot && a.generation == b.generation,
            (None, None) => true,
            _ => false,
        }
    }
}

impl<T> vstd::std_specs::cmp::PartialEqSpecImpl for Shared<T> {
    open spec fn obeys_eq_spec() -> bool {
        true
    }

    open spec fn eq_spec(&self, other: &Self) -> bool {
        self.cell() == other.cell()
    }
}

} // verus!
