//! A position-independent reference: the signed distance from the place where
//! the pointer itself is stored to its target. Both places move together when
//! a segment is mapped at another base, so the distance stays valid.

use vstd::prelude::*;

verus! {

/// Signed distance from the pointer's own position to its target.
#[derive(Clone, Copy, Debug, PartialEq, Eq)]
pub struct RelativePointer {
    distance: isize,
}

impl RelativePointer {
    pub closed spec fn spec_distance(&self) -> int {
        self.distance as int
    }

    /// The target of a pointer stored at `own_position`.
    pub open spec fn target(&self, own_position: int) -> int {
        own_position + self.spec_distance()
    }

    /// A pointer whose target lies `distance` bytes from where it is stored.
    pub fn new(distance: isize) -> (r: Self)
        ensures
            r.spec_distance() == distance as int,
    {
        RelativePointer { distance }
    }

    /// A pointer that does not point anywhere yet: its distance is zero.
    pub fn new_uninit() -> (r: Self)
        ensures
            r.spec_distance() == 0,
    {
        RelativePointer { distance: 0 }
    }

    pub fn distance(&self) -> (r: isize)
        ensures
            r as int == self.spec_distance(),
    {
        self.distance
    }

    /// The pointer stored at `own_position` that points to `target`.
    pub fn between(own_position: usize, target: usize) -> (r: Self)
        requires
            own_position <= isize::MAX,
            target <= isize::MAX,
        ensures
            r.target(own_position as int) == target as int,
    {
        RelativePointer { distance: (target as isize) - (own_position as isize) }
    }

    /// The position the pointer leads to when it is stored at `own_position`.
    pub fn resolve(&self, own_position: usize) -> (r: usize)
        requires
            0 <= self.target(own_position as int) <= usize::MAX,
        ensures
            r as int == self.target(own_position as int),
    {
        if self.distance >= 0 {
            own_position + (self.distance as usize)
        } else {
            own_position - ((0 - (self.distance as i128)) as usize)
        }
    }
}

/// A pointer resolves to the same place relative to a mapping whatever the
/// mapping's base: stored at `base + own_position`, it leads to
/// `base + target(own_position)`.
pub proof fn lemma_target_independent_of_base(p: RelativePointer, own_position: int, base: int)
    ensures
        p.target(base + own_position) == base + p.target(own_position),
{
}

} // verus!
