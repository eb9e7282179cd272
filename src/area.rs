use vstd::prelude::*;
use crate::address::PhysicalAddress;

verus! {

/// One contiguous span of usable physical memory: `size` bytes from `base`.
#[derive(Clone, Copy, Debug, PartialEq, Eq, Structural)]
pub struct MemoryArea {
    pub base: PhysicalAddress,
    pub size: usize,
}

impl MemoryArea {
    pub fn new(base: PhysicalAddress, size: usize) -> (r: Self)
        ensures
            r.base == base,
            r.size == size,
    {
        MemoryArea { base, size }
    }
}

/// The area lies wholly inside the address space.
pub open spec fn area_fits(a: MemoryArea) -> bool {
    a.base.0 + a.size <= usize::MAX
}

/// The areas are listed in ascending order of address and do not overlap.
pub open spec fn areas_ordered(s: Seq<MemoryArea>) -> bool {
    forall|i: int, j: int|
        0 <= i < j < s.len() ==> #[trigger] s[i].base.0 + s[i].size <= #[trigger] s[j].base.0
}

/// The number of bytes in all the areas together.
pub open spec fn total_size(s: Seq<MemoryArea>) -> nat
    decreases s.len(),
{
    if s.len() == 0 {
        0
    } else {
        total_size(s.drop_last()) + s.last().size as nat
    }
}

/// Summing the areas in two parts gives the same as summing them at once.
pub proof fn lemma_total_size_split(s: Seq<MemoryArea>, k: int)
    requires
        0 <= k <= s.len(),
    ensures
        total_size(s) == total_size(s.subrange(0, k)) + total_size(s.subrange(k, s.len() as int)),
    decreases s.len(),
{
    if k == s.len() {
        assert(s.subrange(0, k) =~= s);
        assert(s.subrange(k, s.len() as int) =~= Seq::<MemoryArea>::empty());
    } else {
        lemma_total_size_split(s.drop_last(), k);
        assert(s.drop_last().subrange(0, k) =~= s.subrange(0, k));
        assert(s.subrange(k, s.len() as int).drop_last() =~= s.drop_last().subrange(
            k,
            s.len() - 1,
        ));
    }
}

} // verus!
