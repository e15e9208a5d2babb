//! Laws of the chunk lists, stated over the flag view that all of them share:
//! `insert(i)` on flags `f` returns `!f[i]` and leaves `f.update(i, true)`,
//! `remove(i)` returns `f[i]` and leaves `f.update(i, false)`, and
//! `remove_all` returns `used_indices(f)` and leaves every flag free.

use vstd::prelude::*;

use crate::occupancy::{all_free, lemma_used_prefix, used_indices, used_prefix};
use crate::used_chunk_list::flag_table_bytes;

verus! {

/// The bytes that the flags of `a` chunks take never exceed those of `b >= a`
/// chunks; `init` binds to a region of exactly that many bytes.
pub proof fn lemma_memory_size_monotone(a: nat, b: nat)
    requires
        a <= b,
    ensures
        flag_table_bytes(a) <= flag_table_bytes(b),
{
}

/// A fresh list has every chunk free, and draining it reports nothing.
pub proof fn lemma_fresh_list_is_free(capacity: nat)
    ensures
        forall|i: int| 0 <= i < capacity ==> !(#[trigger] all_free(capacity)[i]),
        used_indices(all_free(capacity)) == Seq::<usize>::empty(),
{
    lemma_used_prefix_of_free(capacity, capacity as int);
}

proof fn lemma_used_prefix_of_free(capacity: nat, n: int)
    requires
        n <= capacity,
    ensures
        used_prefix(all_free(capacity), n) == Seq::<usize>::empty(),
    decreases n,
{
    if n > 0 {
        lemma_used_prefix_of_free(capacity, n - 1);
    }
}

/// Once chunk `i` has been inserted, inserting it again right away reports
/// `false` and changes nothing.
pub proof fn lemma_insert_twice(flags: Seq<bool>, i: int)
    requires
        0 <= i < flags.len(),
    ensures
        !flags.update(i, true)[i] == false,
        flags.update(i, true).update(i, true) == flags.update(i, true),
{
    assert(flags.update(i, true).update(i, true) =~= flags.update(i, true));
}

/// Inserting a free chunk and then removing it reports `true` both times and
/// leaves the chunk free again; removing a chunk that is free reports `false`.
pub proof fn lemma_insert_then_remove(flags: Seq<bool>, i: int)
    requires
        0 <= i < flags.len(),
        !flags[i],
    ensures
        !flags[i] == true,
        flags.update(i, true)[i] == true,
        flags.update(i, true).update(i, false) == flags,
{
    assert(flags.update(i, true).update(i, false) =~= flags);
}

/// A drain reports exactly the used chunks, each once, in ascending order; it
/// leaves every chunk free, so a second drain right after reports nothing.
pub proof fn lemma_drain_reports_each_used_chunk_once(flags: Seq<bool>)
    requires
        flags.len() <= usize::MAX,
    ensures
        forall|k: int, l: int|
            0 <= k < l < used_indices(flags).len() ==> used_indices(flags)[k] < used_indices(
                flags,
            )[l],
        used_indices(flags).no_duplicates(),
        forall|i: int|
            0 <= i < flags.len() ==> (flags[i] <==> used_indices(flags).contains(i as usize)),
        used_indices(all_free(flags.len())) == Seq::<usize>::empty(),
{
    let n = flags.len() as int;
    lemma_used_prefix(flags, n);
    let v = used_indices(flags);
    assert forall|k: int, l: int| 0 <= k < v.len() && 0 <= l < v.len() && k != l implies v[k]
        != v[l] by {
        if k < l {
            assert(v[k] < v[l]);
        } else {
            assert(v[l] < v[k]);
        }
    }
    assert forall|i: int| 0 <= i < flags.len() && v.contains(i as usize) implies flags[i] by {
        let k = choose|k: int| 0 <= k < v.len() && v[k] == i as usize;
        assert(flags[v[k] as int]);
    }
    lemma_fresh_list_is_free(flags.len());
}

} // verus!
