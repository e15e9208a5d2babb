//! Occupancy flags kept as bytes in a memory region: a byte of zero marks a
//! free chunk, any other value a used one. The routines here act on the flags
//! of `capacity` chunks that start at some offset of the region and leave every
//! other byte of it as it was.

use vstd::prelude::*;

verus! {

/// The flags of the `capacity` chunks stored from `start` on in `mem`.
pub open spec fn flags_at(mem: Seq<u8>, start: int, capacity: int) -> Seq<bool> {
    Seq::new(capacity as nat, |i: int| mem[start + i] != 0)
}

/// The byte that a flag is stored as.
pub open spec fn byte_of(used: bool) -> u8 {
    if used { 1u8 } else { 0u8 }
}

/// A table of `capacity` flags in which every chunk is free.
pub open spec fn all_free(capacity: nat) -> Seq<bool> {
    Seq::new(capacity, |i: int| false)
}

/// The indices among the first `n` flags that are set, in ascending order.
pub open spec fn used_prefix(flags: Seq<bool>, n: int) -> Seq<usize>
    decreases n,
{
    if n <= 0 {
        Seq::empty()
    } else if flags[n - 1] {
        used_prefix(flags, n - 1).push((n - 1) as usize)
    } else {
        used_prefix(flags, n - 1)
    }
}

/// The indices that a drain of `flags` reports: every set flag, in ascending order.
pub open spec fn used_indices(flags: Seq<bool>) -> Seq<usize> {
    used_prefix(flags, flags.len() as int)
}

/// `mem2` equals `mem1` outside `[start, start + len)`.
pub open spec fn same_outside(mem1: Seq<u8>, mem2: Seq<u8>, start: int, len: int) -> bool {
    &&& mem1.len() == mem2.len()
    &&& forall|j: int| 0 <= j < mem1.len() && !(start <= j < start + len) ==> mem2[j] == mem1[j]
}

/// Every index that `used_prefix` reports lies below `n` and has its flag set;
/// the reported indices strictly ascend; and every set flag below `n` is reported.
pub proof fn lemma_used_prefix(flags: Seq<bool>, n: int)
    requires
        0 <= n <= flags.len(),
        flags.len() <= usize::MAX,
    ensures
        forall|k: int|
            0 <= k < used_prefix(flags, n).len() ==> (used_prefix(flags, n)[k] as int) < n
                && flags[used_prefix(flags, n)[k] as int],
        forall|k: int, l: int|
            0 <= k < l < used_prefix(flags, n).len() ==> used_prefix(flags, n)[k]
                < used_prefix(flags, n)[l],
        forall|i: int| 0 <= i < n && flags[i] ==> used_prefix(flags, n).contains(i as usize),
    decreases n,
{
    if n > 0 {
        lemma_used_prefix(flags, n - 1);
        let p = used_prefix(flags, n - 1);
        if flags[n - 1] {
            assert(used_prefix(flags, n) == p.push((n - 1) as usize));
            assert forall|i: int| 0 <= i < n && flags[i] implies used_prefix(flags, n).contains(
                i as usize,
            ) by {
                if i < n - 1 {
                    let k = choose|k: int| 0 <= k < p.len() && p[k] == i as usize;
                    assert(used_prefix(flags, n)[k] == i as usize);
                } else {
                    assert(used_prefix(flags, n)[p.len() as int] == i as usize);
                }
            }
        }
    }
}

/// Swaps the flag stored at `at` for `used` and returns the flag it replaced.
pub fn swap_flag(mem: &mut Vec<u8>, at: usize, used: bool) -> (was_used: bool)
    requires
        at < old(mem).len(),
    ensures
        was_used == (old(mem)@[at as int] != 0),
        final(mem)@ == old(mem)@.update(at as int, byte_of(used)),
{
    let was_used = mem[at] != 0;
    mem.set(at, if used { 1u8 } else { 0u8 });
    was_used
}

/// Marks every one of the `capacity` chunks from `start` on as free.
pub fn clear_flags(mem: &mut Vec<u8>, start: usize, capacity: usize)
    requires
        start + capacity <= old(mem).len(),
    ensures
        flags_at(final(mem)@, start as int, capacity as int) == all_free(capacity as nat),
        same_outside(old(mem)@, final(mem)@, start as int, capacity as int),
{
    let mut i: usize = 0;
    while i < capacity
        invariant
            i <= capacity,
            start + capacity <= mem.len(),
            same_outside(old(mem)@, mem@, start as int, capacity as int),
            forall|j: int| start <= j < start + i ==> mem@[j] == 0u8,
        decreases capacity - i,
    {
        mem.set(start + i, 0u8);
        i = i + 1;
    }
    assert(flags_at(mem@, start as int, capacity as int) =~= all_free(capacity as nat));
}

/// Frees every used chunk among the `capacity` chunks from `start` on, in
/// ascending order, and returns the index of each chunk that was freed.
pub fn drain_flags(mem: &mut Vec<u8>, start: usize, capacity: usize) -> (freed: Vec<usize>)
    requires
        start + capacity <= old(mem).len(),
    ensures
        freed@ == used_indices(flags_at(old(mem)@, start as int, capacity as int)),
        flags_at(final(mem)@, start as int, capacity as int) == all_free(capacity as nat),
        same_outside(old(mem)@, final(mem)@, start as int, capacity as int),
{
    let ghost before = flags_at(mem@, start as int, capacity as int);
    let mut freed: Vec<usize> = Vec::new();
    let mut i: usize = 0;
    while i < capacity
        invariant
            i <= capacity,
            start + capacity <= mem.len(),
            before == flags_at(old(mem)@, start as int, capacity as int),
            same_outside(old(mem)@, mem@, start as int, capacity as int),
            forall|j: int| start <= j < start + i ==> mem@[j] == 0u8,
            forall|j: int| start + i <= j < start + capacity ==> mem@[j] == old(mem)@[j],
            freed@ == used_prefix(before, i as int),
        decreases capacity - i,
    {
        let was_used = swap_flag(mem, start + i, false);
        if was_used {
            freed.push(i);
        }
        i = i + 1;
    }
    assert(flags_at(mem@, start as int, capacity as int) =~= all_free(capacity as nat));
    freed
}

} // verus!
