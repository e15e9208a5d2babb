//! Lists of the chunks of a memory pool that are borrowed. Each holds one flag
//! per chunk index, `true` while the chunk is out. `insert` claims a chunk and
//! says whether it was free, `remove` returns one and says whether it was out,
//! and `remove_all` frees every chunk still out and reports each one once, in
//! ascending order, so that a torn-down connection cannot leak chunks.
//!
//! * `UsedChunkList` owns its flags and is usable as soon as it is made.
//! * `RelocatableUsedChunkList` is a header that lives in a shared segment. It
//!   is made unbound, then bound exactly once to a region of the segment that
//!   an allocator handed out; it reaches that region through a distance from
//!   its own position, so it works wherever the segment is mapped.
//! * `FixedSizeUsedChunkList` keeps a bound header and its flags in one block,
//!   the flags right behind the header, with no allocator involved.

use vstd::prelude::*;

use crate::occupancy::{all_free, flags_at, same_outside, used_indices};
use crate::relative_pointer::RelativePointer;
use crate::segment::SharedSegment;

verus! {

#[verifier::external_type_specification]
#[verifier::external_body]
pub struct ExAllocationError(iceoryx2_bb_elementary::bump_allocator::AllocationError);

/// Relies on iceoryx2_bb_elementary::math::unaligned_mem_size, which gives
/// `size_of::<T>() * n + align_of::<T>() - 1` bytes for `n` values of `T`.
/// A flag is an `AtomicBool`, of one byte at alignment one, so this is `n`.
/// The sum is formed before the subtraction, hence the bound on `n`.
#[verifier::external_body]
fn flag_table_size(capacity: usize) -> (r: usize)
    requires
        capacity < usize::MAX,
    ensures
        r == capacity,
{
    iceoryx2_bb_elementary::math::unaligned_mem_size::<core::sync::atomic::AtomicBool>(capacity)
}

/// Relies on iceoryx2_bb_elementary::math::align_to, which rounds a value up to
/// a multiple of the alignment of `AtomicBool`; that alignment is one, so the
/// value comes back unchanged.
#[verifier::external_body]
fn align_to_flag(value: usize) -> (r: usize)
    ensures
        r == value,
{
    iceoryx2_bb_elementary::math::align_to::<core::sync::atomic::AtomicBool>(value)
}

/// The bytes that the flags of `capacity` chunks take: one byte each.
pub open spec fn flag_table_bytes(capacity: nat) -> nat {
    capacity
}

/// A list of used chunks that owns its flags.
#[derive(Debug)]
pub struct UsedChunkList {
    data: Vec<u8>,
    capacity: usize,
}

impl View for UsedChunkList {
    type V = Seq<bool>;

    /// The flag of each chunk index, `true` for a used chunk.
    closed spec fn view(&self) -> Seq<bool> {
        flags_at(self.data@, 0, self.capacity as int)
    }
}

impl UsedChunkList {
    pub closed spec fn wf(&self) -> bool {
        self.data@.len() == self.capacity
    }

    /// A list of `capacity` chunks, all free.
    pub fn new(capacity: usize) -> (r: Self)
        ensures
            r.wf(),
            r@ == all_free(capacity as nat),
    {
        let data = vec![0u8; capacity];
        let r = UsedChunkList { data, capacity };
        assert(r@ =~= all_free(capacity as nat));
        r
    }

    /// The bytes that the flags of `capacity` chunks take.
    pub fn const_memory_size(capacity: usize) -> (r: usize)
        requires
            capacity < usize::MAX,
        ensures
            r == flag_table_bytes(capacity as nat),
    {
        flag_table_size(capacity)
    }

    pub fn capacity(&self) -> (r: usize)
        requires
            self.wf(),
        ensures
            r == self@.len(),
    {
        self.capacity
    }

    /// Marks chunk `value` as used; `true` when it was free before.
    pub fn insert(&mut self, value: usize) -> (r: bool)
        requires
            old(self).wf(),
            value < old(self)@.len(),
        ensures
            final(self).wf(),
            r == !old(self)@[value as int],
            final(self)@ == old(self)@.update(value as int, true),
    {
        let was_used = crate::occupancy::swap_flag(&mut self.data, value, true);
        assert(self@ =~= old(self)@.update(value as int, true));
        !was_used
    }

    /// Marks chunk `value` as free; `true` when it was used before.
    pub fn remove(&mut self, value: usize) -> (r: bool)
        requires
            old(self).wf(),
            value < old(self)@.len(),
        ensures
            final(self).wf(),
            r == old(self)@[value as int],
            final(self)@ == old(self)@.update(value as int, false),
    {
        let was_used = crate::occupancy::swap_flag(&mut self.data, value, false);
        assert(self@ =~= old(self)@.update(value as int, false));
        was_used
    }

    /// Frees every used chunk and returns their indices in ascending order.
    pub fn remove_all(&mut self) -> (freed: Vec<usize>)
        requires
            old(self).wf(),
        ensures
            final(self).wf(),
            freed@ == used_indices(old(self)@),
            final(self)@ == all_free(old(self)@.len()),
    {
        crate::occupancy::drain_flags(&mut self.data, 0, self.capacity)
    }
}

/// A list of used chunks whose flags lie in a shared segment, at a distance
/// from the position where the list itself is stored.
#[derive(Debug)]
pub struct RelocatableUsedChunkList {
    data_ptr: RelativePointer,
    capacity: usize,
    is_memory_initialized: bool,
}

impl RelocatableUsedChunkList {
    pub closed spec fn spec_capacity(&self) -> nat {
        self.capacity as nat
    }

    /// Whether the list has been bound to its flags.
    pub closed spec fn spec_is_bound(&self) -> bool {
        self.is_memory_initialized
    }

    /// The position of the first flag when the list is stored at `own_position`.
    pub closed spec fn table_start(&self, own_position: int) -> int {
        self.data_ptr.target(own_position)
    }

    /// The list, stored at `own_position`, is bound and its flags lie inside `segment`.
    pub open spec fn placed_in(&self, segment: Seq<u8>, own_position: int) -> bool {
        &&& self.spec_is_bound()
        &&& 0 <= self.table_start(own_position)
        &&& self.table_start(own_position) + self.spec_capacity() <= segment.len()
    }

    /// The flag of each chunk index, for the list stored at `own_position`.
    pub open spec fn table(&self, segment: Seq<u8>, own_position: int) -> Seq<bool> {
        flags_at(segment, self.table_start(own_position), self.spec_capacity() as int)
    }

    /// An unbound list of `capacity` chunks: it owns no flags yet and must be
    /// bound with `init` before any other use.
    pub fn new_uninit(capacity: usize) -> (r: Self)
        ensures
            !r.spec_is_bound(),
            r.spec_capacity() == capacity,
    {
        RelocatableUsedChunkList {
            data_ptr: RelativePointer::new_uninit(),
            capacity,
            is_memory_initialized: false,
        }
    }

    /// A list of `capacity` chunks already bound to flags that lie
    /// `distance_to_data` bytes from where the list is stored.
    pub fn new(capacity: usize, distance_to_data: isize) -> (r: Self)
        ensures
            r.spec_is_bound(),
            r.spec_capacity() == capacity,
            forall|own: int| #[trigger] r.table_start(own) == own + distance_to_data,
    {
        RelocatableUsedChunkList {
            data_ptr: RelativePointer::new(distance_to_data),
            capacity,
            is_memory_initialized: true,
        }
    }

    /// The bytes that `init` asks the allocator for, for `capacity` chunks.
    pub fn memory_size(capacity: usize) -> (r: usize)
        requires
            capacity < usize::MAX,
        ensures
            r == flag_table_bytes(capacity as nat),
    {
        flag_table_size(capacity)
    }

    pub fn capacity(&self) -> (r: usize)
        ensures
            r == self.spec_capacity(),
    {
        self.capacity
    }

    /// Whether the list, stored at `own_position`, is bound and its flags lie
    /// inside `segment`: the condition for `insert`, `remove` and `remove_all`.
    pub fn is_placed_in(&self, segment: &SharedSegment, own_position: usize) -> (r: bool)
        ensures
            r == self.placed_in(segment@, own_position as int),
    {
        if !self.is_memory_initialized {
            return false;
        }
        let start: i128 = own_position as i128 + self.data_ptr.distance() as i128;
        start >= 0 && start + (self.capacity as i128) <= segment.len() as i128
    }

    /// The bytes that `init` needs from the allocator for this list.
    pub fn allocation_size(&self) -> (r: usize)
        requires
            self.spec_capacity() < usize::MAX,
        ensures
            r == flag_table_bytes(self.spec_capacity()),
    {
        Self::memory_size(self.capacity)
    }

    pub fn is_bound(&self) -> (r: bool)
        ensures
            r == self.spec_is_bound(),
    {
        self.is_memory_initialized
    }

    /// Binds the list, stored at `own_position` of `segment`, to the region
    /// that the allocator handed out for `memory_size(capacity)` bytes, and
    /// marks every chunk in it free. A failed allocation is handed back and
    /// leaves list and segment as they were. A list is bound only once.
    pub fn init(
        &mut self,
        segment: &mut SharedSegment,
        own_position: usize,
        allocation: Result<usize, iceoryx2_bb_elementary::bump_allocator::AllocationError>,
    ) -> (r: Result<(), iceoryx2_bb_elementary::bump_allocator::AllocationError>)
        requires
            !old(self).spec_is_bound(),
            old(segment)@.len() <= isize::MAX,
            own_position <= old(segment)@.len(),
            allocation is Ok ==> allocation->Ok_0 + flag_table_bytes(old(self).spec_capacity())
                <= old(segment)@.len(),
        ensures
            allocation is Err ==> {
                &&& r is Err
                &&& r->Err_0 == allocation->Err_0
                &&& *final(self) == *old(self)
                &&& final(segment)@ == old(segment)@
            },
            allocation is Ok ==> {
                &&& r is Ok
                &&& final(self).spec_capacity() == old(self).spec_capacity()
                &&& final(self).table_start(own_position as int) == allocation->Ok_0
                &&& final(self).placed_in(final(segment)@, own_position as int)
                &&& final(self).table(final(segment)@, own_position as int) == all_free(
                    old(self).spec_capacity(),
                )
                &&& same_outside(
                    old(segment)@,
                    final(segment)@,
                    allocation->Ok_0 as int,
                    flag_table_bytes(old(self).spec_capacity()) as int,
                )
            },
    {
        match allocation {
            Err(e) => Err(e),
            Ok(start) => {
                segment.clear_flags(start, self.capacity);
                self.data_ptr = RelativePointer::between(own_position, start);
                self.is_memory_initialized = true;
                Ok(())
            },
        }
    }

    /// Marks chunk `value` as used in the list stored at `own_position`;
    /// `true` when it was free before.
    pub fn insert(&self, segment: &mut SharedSegment, own_position: usize, value: usize) -> (r:
        bool)
        requires
            self.placed_in(old(segment)@, own_position as int),
            value < self.spec_capacity(),
        ensures
            r == !self.table(old(segment)@, own_position as int)[value as int],
            self.table(final(segment)@, own_position as int) == self.table(
                old(segment)@,
                own_position as int,
            ).update(value as int, true),
            same_outside(
                old(segment)@,
                final(segment)@,
                self.table_start(own_position as int),
                self.spec_capacity() as int,
            ),
    {
        proof {
            old(segment).lemma_len_fits();
        }
        let start = self.data_ptr.resolve(own_position);
        let was_used = segment.swap_flag(start + value, true);
        assert(self.table(segment@, own_position as int) =~= self.table(
            old(segment)@,
            own_position as int,
        ).update(value as int, true));
        !was_used
    }

    /// Marks chunk `value` as free in the list stored at `own_position`;
    /// `true` when it was used before.
    pub fn remove(&self, segment: &mut SharedSegment, own_position: usize, value: usize) -> (r:
        bool)
        requires
            self.placed_in(old(segment)@, own_position as int),
            value < self.spec_capacity(),
        ensures
            r == self.table(old(segment)@, own_position as int)[value as int],
            self.table(final(segment)@, own_position as int) == self.table(
                old(segment)@,
                own_position as int,
            ).update(value as int, false),
            same_outside(
                old(segment)@,
                final(segment)@,
                self.table_start(own_position as int),
                self.spec_capacity() as int,
            ),
    {
        proof {
            old(segment).lemma_len_fits();
        }
        let start = self.data_ptr.resolve(own_position);
        let was_used = segment.swap_flag(start + value, false);
        assert(self.table(segment@, own_position as int) =~= self.table(
            old(segment)@,
            own_position as int,
        ).update(value as int, false));
        was_used
    }

    /// Frees every used chunk of the list stored at `own_position` and returns
    /// their indices in ascending order.
    pub fn remove_all(&self, segment: &mut SharedSegment, own_position: usize) -> (freed: Vec<
        usize,
    >)
        requires
            self.placed_in(old(segment)@, own_position as int),
        ensures
            freed@ == used_indices(self.table(old(segment)@, own_position as int)),
            self.table(final(segment)@, own_position as int) == all_free(self.spec_capacity()),
            same_outside(
                old(segment)@,
                final(segment)@,
                self.table_start(own_position as int),
                self.spec_capacity() as int,
            ),
    {
        proof {
            old(segment).lemma_len_fits();
        }
        let start = self.data_ptr.resolve(own_position);
        segment.drain_flags(start, self.capacity)
    }
}

/// A list of `CAPACITY` used chunks whose bound header and flags form one
/// block: the header at its start, the flags right behind it.
#[derive(Debug)]
pub struct FixedSizeUsedChunkList<const CAPACITY: usize> {
    list: RelocatableUsedChunkList,
    block: SharedSegment,
}

impl<const CAPACITY: usize> View for FixedSizeUsedChunkList<CAPACITY> {
    type V = Seq<bool>;

    /// The flag of each chunk index, `true` for a used chunk.
    closed spec fn view(&self) -> Seq<bool> {
        self.list.table(self.block@, 0)
    }
}

impl<const CAPACITY: usize> FixedSizeUsedChunkList<CAPACITY> {
    pub closed spec fn wf(&self) -> bool {
        &&& self.list.placed_in(self.block@, 0)
        &&& self.list.spec_capacity() == CAPACITY
    }

    /// A list of `CAPACITY` chunks, all free.
    pub fn new() -> (r: Self)
        requires
            vstd::layout::size_of::<RelocatableUsedChunkList>() + CAPACITY <= isize::MAX,
        ensures
            r.wf(),
            r@ == all_free(CAPACITY as nat),
    {
        let header_size = align_to_flag(core::mem::size_of::<RelocatableUsedChunkList>());
        let block = SharedSegment::new(header_size + CAPACITY);
        let list = RelocatableUsedChunkList::new(CAPACITY, header_size as isize);
        let r = FixedSizeUsedChunkList { list, block };
        assert(r.list.table_start(0) == header_size);
        assert(r@ =~= all_free(CAPACITY as nat));
        r
    }

    pub fn capacity(&self) -> (r: usize)
        ensures
            r == CAPACITY,
    {
        CAPACITY
    }

    /// Marks chunk `value` as used; `true` when it was free before.
    pub fn insert(&mut self, value: usize) -> (r: bool)
        requires
            old(self).wf(),
            value < CAPACITY,
        ensures
            final(self).wf(),
            r == !old(self)@[value as int],
            final(self)@ == old(self)@.update(value as int, true),
    {
        self.list.insert(&mut self.block, 0, value)
    }

    /// Marks chunk `value` as free; `true` when it was used before.
    pub fn remove(&mut self, value: usize) -> (r: bool)
        requires
            old(self).wf(),
            value < CAPACITY,
        ensures
            final(self).wf(),
            r == old(self)@[value as int],
            final(self)@ == old(self)@.update(value as int, false),
    {
        self.list.remove(&mut self.block, 0, value)
    }

    /// Frees every used chunk and returns their indices in ascending order.
    pub fn remove_all(&mut self) -> (freed: Vec<usize>)
        requires
            old(self).wf(),
        ensures
            final(self).wf(),
            freed@ == used_indices(old(self)@),
            final(self)@ == all_free(CAPACITY as nat),
    {
        self.list.remove_all(&mut self.block, 0)
    }
}

} // verus!
