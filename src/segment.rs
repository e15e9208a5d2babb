//! A shared memory segment, seen as its bytes. A position in it is an offset
//! from its start, so it means the same place in every process that maps it.

use vstd::prelude::*;

use crate::occupancy::{all_free, byte_of, flags_at, same_outside, used_indices};

verus! {

/// The bytes of a mapped shared memory segment.
#[derive(Debug)]
pub struct SharedSegment {
    pub(crate) bytes: Vec<u8>,
}

impl View for SharedSegment {
    type V = Seq<u8>;

    closed spec fn view(&self) -> Seq<u8> {
        self.bytes@
    }
}

impl SharedSegment {
    /// A segment's length is a `usize`.
    pub proof fn lemma_len_fits(&self)
        ensures
            self@.len() <= usize::MAX,
    {
        assert(self.bytes.len() == self.bytes@.len());
    }

    /// A segment of `size` bytes, all zero.
    pub fn new(size: usize) -> (r: Self)
        ensures
            r@ == Seq::new(size as nat, |i: int| 0u8),
    {
        let bytes = vec![0u8; size];
        assert(bytes@ =~= Seq::new(size as nat, |i: int| 0u8));
        SharedSegment { bytes }
    }

    pub fn len(&self) -> (r: usize)
        ensures
            r == self@.len(),
    {
        self.bytes.len()
    }

    /// The byte at `position`.
    pub fn byte(&self, position: usize) -> (r: u8)
        requires
            position < self@.len(),
        ensures
            r == self@[position as int],
    {
        self.bytes[position]
    }

    /// Swaps the flag stored at `at` for `used` and returns the flag it replaced.
    pub(crate) fn swap_flag(&mut self, at: usize, used: bool) -> (was_used: bool)
        requires
            at < old(self)@.len(),
        ensures
            was_used == (old(self)@[at as int] != 0),
            final(self)@ == old(self)@.update(at as int, byte_of(used)),
    {
        crate::occupancy::swap_flag(&mut self.bytes, at, used)
    }

    /// Marks every one of the `capacity` chunks stored from `start` on as free.
    pub(crate) fn clear_flags(&mut self, start: usize, capacity: usize)
        requires
            start + capacity <= old(self)@.len(),
        ensures
            flags_at(final(self)@, start as int, capacity as int) == all_free(capacity as nat),
            same_outside(old(self)@, final(self)@, start as int, capacity as int),
    {
        crate::occupancy::clear_flags(&mut self.bytes, start, capacity)
    }

    /// Frees the used chunks among the `capacity` stored from `start` on and
    /// returns their indices in ascending order.
    pub(crate) fn drain_flags(&mut self, start: usize, capacity: usize) -> (freed: Vec<usize>)
        requires
            start + capacity <= old(self)@.len(),
        ensures
            freed@ == used_indices(flags_at(old(self)@, start as int, capacity as int)),
            flags_at(final(self)@, start as int, capacity as int) == all_free(capacity as nat),
            same_outside(old(self)@, final(self)@, start as int, capacity as int),
    {
        crate::occupancy::drain_flags(&mut self.bytes, start, capacity)
    }
}

} // verus!
