use vstd::prelude::*;
use core::marker::PhantomData;
use crate::address::{FrameCount, FrameUsage, PhysicalAddress};
use crate::arch::Arch;
use crate::area::{area_fits, areas_ordered, lemma_total_size_split, total_size, MemoryArea};
use vstd::arithmetic::div_mod::lemma_div_is_ordered;

verus! {

/// Why a frame allocator refused a request.
#[derive(Clone, Copy, Debug, PartialEq, Eq, Structural)]
pub enum FrameError {
    /// The allocator cannot take frames back.
    Unsupported,
}

/// A source of physical page frames.
pub trait FrameAllocator {
    /// The allocator's internal invariant.
    spec fn wf(&self) -> bool;

    /// Reserves `count` contiguous frames and returns the address of the first.
    fn allocate(&mut self, count: FrameCount) -> (r: Option<PhysicalAddress>)
        requires
            old(self).wf(),
        ensures
            final(self).wf(),
    ;

    /// Gives `count` frames at `address` back.
    fn free(&mut self, address: PhysicalAddress, count: FrameCount) -> (r: Result<(), FrameError>)
        requires
            old(self).wf(),
        ensures
            final(self).wf(),
    ;

    /// How many frames are in use, out of how many in all.
    fn usage(&self) -> (r: FrameUsage)
        requires
            self.wf(),
        ensures
            r.used_spec() <= r.total_spec(),
    ;
}

/// The bytes left in `areas` past the first `off` bytes of the first area.
pub open spec fn remaining(areas: Seq<MemoryArea>, off: nat) -> int {
    if areas.len() == 0 {
        0
    } else {
        total_size(areas) - off
    }
}

/// How many whole leading areas an offset of `off` bytes passes over, and
/// the offset left in the first area after them.
pub open spec fn skip_areas(areas: Seq<MemoryArea>, off: nat) -> (nat, nat)
    decreases areas.len(),
{
    if areas.len() > 0 && areas[0].size <= off {
        let rest = skip_areas(areas.drop_first(), (off - areas[0].size) as nat);
        (rest.0 + 1, rest.1)
    } else {
        (0, off)
    }
}

/// How many leading areas are dropped, as too small, before a request of
/// `req` bytes fits; the first area already has `off` bytes taken.
pub open spec fn drop_count(areas: Seq<MemoryArea>, off: nat, req: nat) -> nat
    decreases areas.len(),
{
    if areas.len() == 0 {
        0
    } else if off + req <= areas[0].size {
        0
    } else {
        1 + drop_count(areas.drop_first(), 0, req)
    }
}

/// A request larger than every area is dropped by all of them.
proof fn lemma_drop_all(areas: Seq<MemoryArea>, off: nat, req: nat)
    requires
        req > usize::MAX,
    ensures
        drop_count(areas, off, req) == areas.len(),
    decreases areas.len(),
{
    if areas.len() > 0 {
        lemma_drop_all(areas.drop_first(), 0, req);
    }
}

/// The sum of the sizes of `areas`.
fn sum_sizes(areas: &[MemoryArea]) -> (r: usize)
    requires
        total_size(areas@) <= usize::MAX,
    ensures
        r == total_size(areas@),
{
    let mut acc: usize = 0;
    let mut i: usize = 0;
    while i < areas.len()
        invariant
            i <= areas@.len(),
            total_size(areas@) <= usize::MAX,
            acc == total_size(areas@.subrange(0, i as int)),
        decreases areas@.len() - i,
    {
        proof {
            lemma_total_size_split(areas@, i + 1);
            assert(areas@.subrange(0, i + 1).drop_last() =~= areas@.subrange(0, i as int));
        }
        acc = acc + areas[i].size;
        i = i + 1;
    }
    assert(areas@.subrange(0, i as int) =~= areas@);
    acc
}

/// A suffix of the areas holds no more bytes than all of them, and the
/// first area no more than all of them.
proof fn lemma_suffix_total(s: Seq<MemoryArea>, k: int)
    requires
        0 <= k <= s.len(),
    ensures
        total_size(s.subrange(k, s.len() as int)) <= total_size(s),
        k > 0 ==> total_size(s.subrange(k, s.len() as int)) + s[0].size <= total_size(s),
{
    lemma_total_size_split(s, k);
    if k > 0 {
        let p = s.subrange(0, k);
        lemma_total_size_split(p, 1);
        assert(p.subrange(0, 1).drop_last() =~= Seq::<MemoryArea>::empty());
    }
}

/// A frame allocator that only moves forward through a list of memory areas.
///
/// It keeps two cursors, each a list of areas and a byte offset into the
/// first of them: where it started, and where the next frames come from.
#[derive(Debug)]
pub struct BumpAllocator<A> {
    orig_areas: (&'static [MemoryArea], usize),
    cur_areas: (&'static [MemoryArea], usize),
    _marker: PhantomData<A>,
}

impl<A: Arch> BumpAllocator<A> {
    /// The areas the allocator started with.
    pub closed spec fn orig_seq(&self) -> Seq<MemoryArea> {
        self.orig_areas.0@
    }

    /// The bytes of the first starting area that were taken before the allocator existed.
    pub closed spec fn orig_offset(&self) -> nat {
        self.orig_areas.1 as nat
    }

    /// The areas that still have room.
    pub closed spec fn cur_seq(&self) -> Seq<MemoryArea> {
        self.cur_areas.0@
    }

    /// The bytes of the first area with room that are already taken.
    pub closed spec fn cur_offset(&self) -> nat {
        self.cur_areas.1 as nat
    }

    /// The lowest address that a later allocation can return; past the end
    /// of the address space when no area is left.
    pub open spec fn floor(&self) -> int {
        if self.cur_seq().len() > 0 {
            self.cur_seq()[0].base.0 + self.cur_offset()
        } else {
            usize::MAX + 1
        }
    }

    /// All the bytes the allocator could ever hand out.
    pub open spec fn total_bytes(&self) -> int {
        remaining(self.orig_seq(), self.orig_offset())
    }

    /// The bytes it can still hand out.
    pub open spec fn free_bytes(&self) -> int {
        remaining(self.cur_seq(), self.cur_offset())
    }

    /// The bytes handed out or passed over so far.
    pub open spec fn used_bytes(&self) -> int {
        self.total_bytes() - self.free_bytes()
    }

    pub closed spec fn inv(&self) -> bool {
        let orig = self.orig_seq();
        let cur = self.cur_seq();
        &&& forall|i: int| 0 <= i < orig.len() ==> area_fits(#[trigger] orig[i])
        &&& total_size(orig) <= usize::MAX
        &&& cur.len() <= orig.len()
        &&& cur == orig.subrange(orig.len() - cur.len(), orig.len() as int)
        &&& orig.len() > 0 ==> self.orig_offset() < orig[0].size
        &&& cur.len() > 0 ==> self.cur_offset() <= cur[0].size
        &&& cur.len() == orig.len() && orig.len() > 0 ==> self.orig_offset() <= self.cur_offset()
    }

    /// What `allocate` does: `after` is the allocator once `self` has been
    /// asked for `count` frames, and `r` the answer.
    pub open spec fn allocate_spec(
        &self,
        count: FrameCount,
        after: &Self,
        r: Option<PhysicalAddress>,
    ) -> bool {
        let cur = self.cur_seq();
        let req = (count.0 * A::PAGE_SIZE) as nat;
        let k = drop_count(cur, self.cur_offset(), req);
        let start = if k == 0 { self.cur_offset() } else { 0 };
        &&& after.orig_seq() == self.orig_seq()
        &&& after.orig_offset() == self.orig_offset()
        &&& after.cur_seq() == cur.subrange(k as int, cur.len() as int)
        &&& if k < cur.len() {
            &&& r == Some(PhysicalAddress((cur[k as int].base.0 + start) as usize))
            &&& after.cur_offset() == start + req
        } else {
            &&& r is None
            &&& after.cur_offset() == start
        }
    }

    /// The bytes in use and the bytes left stay within what the allocator started with.
    pub proof fn lemma_bytes(&self)
        requires
            self.inv(),
        ensures
            0 <= self.free_bytes(),
            0 <= self.used_bytes(),
            self.used_bytes() <= self.total_bytes(),
            self.total_bytes() <= usize::MAX,
            total_size(self.cur_seq()) <= usize::MAX,
            forall|i: int| 0 <= i < self.cur_seq().len() ==> area_fits(#[trigger] self.cur_seq()[i]),
    {
        let orig = self.orig_seq();
        let cur = self.cur_seq();
        let m = orig.len() - cur.len();
        lemma_suffix_total(orig, m);
        assert forall|i: int| 0 <= i < cur.len() implies area_fits(#[trigger] cur[i]) by {
            assert(cur[i] == orig[m + i]);
        }
        if cur.len() > 0 {
            lemma_suffix_total(cur, 1);
        }
    }

    /// The areas the allocator started with.
    pub fn areas(&self) -> (r: &'static [MemoryArea])
        ensures
            r@ == self.orig_seq(),
    {
        self.orig_areas.0
    }

    /// The areas that still have room, and the number of bytes of the first
    /// of them that are taken.
    pub fn free_areas(&self) -> (r: (&'static [MemoryArea], usize))
        ensures
            r.0@ == self.cur_seq(),
            r.1 == self.cur_offset(),
    {
        self.cur_areas
    }

    /// The address that the next frames would come from if they fit in the
    /// current area, or zero when no area is left.
    pub fn abs_offset(&self) -> (r: PhysicalAddress)
        requires
            self.inv(),
        ensures
            self.cur_seq().len() == 0 ==> r.0 == 0,
            self.cur_seq().len() > 0 ==> r.0 == self.cur_seq()[0].base.0 + self.cur_offset(),
    {
        proof {
            self.lemma_bytes();
        }
        let (areas, off) = self.cur_areas;
        if areas.len() == 0 {
            PhysicalAddress::new(0)
        } else {
            areas[0].base.add(off)
        }
    }

    /// The bytes in use, in whole frames.
    pub fn offset(&self) -> (r: usize)
        requires
            self.inv(),
        ensures
            r == (self.used_bytes() / A::PAGE_SIZE as int) * A::PAGE_SIZE,
    {
        let usage = self.usage();
        proof {
            A::lemma_geometry();
            self.lemma_bytes();
            let p = A::PAGE_SIZE as int;
            let u = self.used_bytes();
            assert((u / p) * p <= u) by (nonlinear_arith)
                requires p > 0, u >= 0;
        }
        (usage.total().data() - usage.free().data()) * A::PAGE_SIZE
    }

    /// Starts after the first `offset` bytes of `areas`: whole areas that the
    /// offset covers are passed over, and what is left of it falls in the
    /// first area kept.
    pub fn new(areas: &'static [MemoryArea], offset: usize) -> (r: Self)
        requires
            forall|i: int| 0 <= i < areas@.len() ==> area_fits(#[trigger] areas@[i]),
            total_size(areas@) <= usize::MAX,
        ensures
            r.inv(),
            r.orig_seq() == areas@.subrange(skip_areas(areas@, offset as nat).0 as int, areas@.len() as int),
            r.orig_offset() == skip_areas(areas@, offset as nat).1,
            r.cur_seq() == r.orig_seq(),
            r.cur_offset() == r.orig_offset(),
    {
        let ghost all = areas@;
        let ghost off0 = offset as nat;
        let mut areas: &'static [MemoryArea] = areas;
        let mut offset: usize = offset;
        let ghost mut j: nat = 0;
        assert(all.subrange(0, all.len() as int) =~= all);
        while areas.len() > 0 && areas[0].size <= offset
            invariant
                j <= all.len(),
                areas@ == all.subrange(j as int, all.len() as int),
                skip_areas(all, off0) == (
                    j + skip_areas(areas@, offset as nat).0,
                    skip_areas(areas@, offset as nat).1,
                ),
            decreases areas@.len(),
        {
            offset = offset - areas[0].size;
            let ghost before = areas@;
            areas = &areas[1..areas.len()];
            proof {
                assert(areas@ =~= before.drop_first());
                j = j + 1;
            }
        }
        proof {
            lemma_total_size_split(all, j as int);
            assert(areas@.subrange(0, areas@.len() as int) =~= areas@);
            assert forall|i: int| 0 <= i < areas@.len() implies area_fits(#[trigger] areas@[i]) by {
                assert(areas@[i] == all[j + i]);
            }
        }
        BumpAllocator { orig_areas: (areas, offset), cur_areas: (areas, offset), _marker: PhantomData }
    }
}

impl<A: Arch> FrameAllocator for BumpAllocator<A> {
    open spec fn wf(&self) -> bool {
        self.inv()
    }

    /// Takes the frames from the first area, at or after the current one,
    /// with room for all of them; the areas before it are given up for good.
    fn allocate(&mut self, count: FrameCount) -> (r: Option<PhysicalAddress>)
        ensures
            old(self).allocate_spec(count, final(self), r),
    {
        let req: usize = match count.data().checked_mul(A::PAGE_SIZE) {
            Some(v) => v,
            None => {
                proof {
                    lemma_drop_all(self.cur_seq(), self.cur_offset(), (count.0 * A::PAGE_SIZE) as nat);
                }
                let n = self.cur_areas.0.len();
                if n > 0 {
                    self.cur_areas = (&self.cur_areas.0[n..n], 0);
                }
                proof {
                    let orig = self.orig_seq();
                    assert(self.cur_seq() =~= old(self).cur_seq().subrange(n as int, n as int));
                    assert(self.cur_seq() =~= orig.subrange(orig.len() - self.cur_seq().len(), orig.len() as int));
                }
                return None;
            },
        };
        let ghost cur0 = self.cur_seq();
        let ghost off0 = self.cur_offset();
        let ghost k = drop_count(cur0, off0, req as nat);
        let ghost mut j: nat = 0;
        assert(cur0.subrange(0, cur0.len() as int) =~= cur0);
        loop
            invariant
                self.orig_areas == old(self).orig_areas,
                cur0 == old(self).cur_seq(),
                off0 == old(self).cur_offset(),
                req == count.0 * A::PAGE_SIZE,
                k == drop_count(cur0, off0, req as nat),
                self.inv(),
                j <= cur0.len(),
                self.cur_seq() == cur0.subrange(j as int, cur0.len() as int),
                k == j + drop_count(self.cur_seq(), self.cur_offset(), req as nat),
                j == 0 ==> self.cur_offset() == off0,
                j > 0 ==> self.cur_offset() == 0,
            decreases self.cur_seq().len(),
        {
            proof {
                self.lemma_bytes();
            }
            let n = self.cur_areas.0.len();
            if n == 0 {
                return None;
            }
            let area = self.cur_areas.0[0];
            let off = self.cur_areas.1;
            if area.size - off < req {
                let ghost before = self.cur_seq();
                self.cur_areas = (&self.cur_areas.0[1..n], 0);
                proof {
                    assert(self.cur_seq() =~= before.drop_first());
                    assert(self.cur_seq() =~= cur0.subrange(j + 1 as int, cur0.len() as int));
                    let orig = self.orig_seq();
                    assert(self.cur_seq() =~= orig.subrange(orig.len() - self.cur_seq().len(), orig.len() as int));
                    j = j + 1;
                }
                continue;
            }
            self.cur_areas = (self.cur_areas.0, off + req);
            return Some(area.base.add(off));
        }
    }

    /// Always refuses: this allocator never takes frames back.
    fn free(&mut self, address: PhysicalAddress, count: FrameCount) -> (r: Result<(), FrameError>)
        ensures
            r == Err::<(), FrameError>(FrameError::Unsupported),
            *final(self) == *old(self),
    {
        Err(FrameError::Unsupported)
    }

    /// In whole frames: the bytes handed out or passed over, and all the
    /// bytes the allocator started with.
    fn usage(&self) -> (r: FrameUsage)
        ensures
            r.used_spec() == self.used_bytes() / A::PAGE_SIZE as int,
            r.total_spec() == self.total_bytes() / A::PAGE_SIZE as int,
    {
        proof {
            A::lemma_geometry();
            self.lemma_bytes();
            lemma_div_is_ordered(self.used_bytes(), self.total_bytes(), A::PAGE_SIZE as int);
        }
        let total: usize = if self.orig_areas.0.len() == 0 {
            0
        } else {
            sum_sizes(self.orig_areas.0) - self.orig_areas.1
        };
        let free: usize = if self.cur_areas.0.len() == 0 {
            0
        } else {
            sum_sizes(self.cur_areas.0) - self.cur_areas.1
        };
        FrameUsage::new(
            FrameCount::new((total - free) / A::PAGE_SIZE),
            FrameCount::new(total / A::PAGE_SIZE),
        )
    }
}

/// Starting after `offset` bytes leaves as much room as the areas hold past
/// those bytes: the sum of the sizes less the offset, and nothing when the
/// offset reaches past all of them.
pub proof fn lemma_skip_total(areas: Seq<MemoryArea>, offset: nat)
    ensures
        ({
            let (k, rest) = skip_areas(areas, offset);
            &&& k <= areas.len()
            &&& remaining(areas.subrange(k as int, areas.len() as int), rest) == if offset
                <= total_size(areas) {
                total_size(areas) - offset
            } else {
                0
            }
        }),
    decreases areas.len(),
{
    let (k, rest) = skip_areas(areas, offset);
    if areas.len() > 0 && areas[0].size <= offset {
        let tail = areas.drop_first();
        lemma_skip_total(tail, (offset - areas[0].size) as nat);
        lemma_total_size_split(areas, 1);
        let one = areas.subrange(0, 1);
        assert(one.drop_last() =~= Seq::<MemoryArea>::empty());
        assert(total_size(one.drop_last()) == 0);
        assert(total_size(one) == areas[0].size);
        assert(areas.subrange(1, areas.len() as int) =~= tail);
        assert(total_size(areas) == areas[0].size + total_size(tail));
        assert(areas.subrange(k as int, areas.len() as int) =~= tail.subrange(
            k - 1,
            tail.len() as int,
        ));
    } else {
        assert(areas.subrange(0, areas.len() as int) =~= areas);
        if areas.len() > 0 {
            lemma_suffix_total(areas, 1);
        }
    }
}

/// Every allocation lies at or above the allocator's floor, and moves the
/// floor past its own end; a failed one never lowers the floor. So, over
/// areas in ascending order, the addresses of any run of allocations of at
/// least one frame increase strictly and their spans do not overlap.
pub proof fn lemma_allocate_moves_forward<A: Arch>(
    before: BumpAllocator<A>,
    count: FrameCount,
    after: BumpAllocator<A>,
    r: Option<PhysicalAddress>,
)
    requires
        before.inv(),
        areas_ordered(before.orig_seq()),
        before.allocate_spec(count, &after, r),
    ensures
        areas_ordered(after.orig_seq()),
        r is None ==> before.floor() <= after.floor(),
        r matches Some(a) ==> {
            &&& before.floor() <= a.0
            &&& a.0 + count.0 * A::PAGE_SIZE <= after.floor()
        },
{
    let orig = before.orig_seq();
    let cur = before.cur_seq();
    let m = orig.len() - cur.len();
    let req = (count.0 * A::PAGE_SIZE) as nat;
    let k = drop_count(cur, before.cur_offset(), req);
    before.lemma_bytes();
    assert(areas_ordered(cur)) by {
        assert forall|i: int, j: int| 0 <= i < j < cur.len() implies #[trigger] cur[i].base.0
            + cur[i].size <= #[trigger] cur[j].base.0 by {
            assert(cur[i] == orig[m + i]);
            assert(cur[j] == orig[m + j]);
        }
    }
    lemma_drop_count_fits(cur, before.cur_offset(), req);
    if cur.len() > 0 && k > 0 && k < cur.len() {
        assert(cur[0].base.0 + cur[0].size <= cur[k as int].base.0);
    }
    if k < cur.len() {
        assert(after.cur_seq()[0] == cur[k as int]);
    } else if k > 0 {
        assert(after.cur_seq().len() == 0);
    } else {
        assert(after.cur_seq() =~= cur);
    }
}

/// Two successive allocations, the first of at least one frame, from areas
/// in ascending order: the second begins after the first ends, at a strictly
/// higher address.
pub proof fn lemma_successive_allocations_disjoint<A: Arch>(
    s0: BumpAllocator<A>,
    c1: FrameCount,
    s1: BumpAllocator<A>,
    a1: PhysicalAddress,
    c2: FrameCount,
    s2: BumpAllocator<A>,
    a2: PhysicalAddress,
)
    requires
        s0.inv(),
        s1.inv(),
        areas_ordered(s0.orig_seq()),
        c1.0 > 0,
        s0.allocate_spec(c1, &s1, Some(a1)),
        s1.allocate_spec(c2, &s2, Some(a2)),
    ensures
        a1.0 + c1.0 * A::PAGE_SIZE <= a2.0,
        a1.0 < a2.0,
{
    A::lemma_geometry();
    lemma_allocate_moves_forward(s0, c1, s1, Some(a1));
    lemma_allocate_moves_forward(s1, c2, s2, Some(a2));
    let p = A::PAGE_SIZE as int;
    let c = c1.0 as int;
    assert(c * p > 0) by (nonlinear_arith)
        requires c > 0, p > 0;
}

/// The area where a request lands has room for it.
proof fn lemma_drop_count_fits(areas: Seq<MemoryArea>, off: nat, req: nat)
    ensures
        drop_count(areas, off, req) <= areas.len(),
        drop_count(areas, off, req) < areas.len() ==> (if drop_count(areas, off, req) == 0 {
            off
        } else {
            0
        }) + req <= areas[drop_count(areas, off, req) as int].size,
    decreases areas.len(),
{
    if areas.len() > 0 && off + req > areas[0].size {
        lemma_drop_count_fits(areas.drop_first(), 0, req);
    }
}

/// A successful allocation of `count` frames adds at least their bytes to
/// the bytes in use (more where areas were given up), and the bytes in use
/// never exceed what the allocator started with: together, the bytes handed
/// out over any run of allocations are at most the areas' sum less the
/// starting offset.
pub proof fn lemma_allocate_uses_capacity<A: Arch>(
    before: BumpAllocator<A>,
    count: FrameCount,
    after: BumpAllocator<A>,
    a: PhysicalAddress,
)
    requires
        before.inv(),
        before.allocate_spec(count, &after, Some(a)),
    ensures
        after.total_bytes() == before.total_bytes(),
        after.used_bytes() >= before.used_bytes() + count.0 * A::PAGE_SIZE,
        before.used_bytes() <= before.total_bytes(),
{
    let cur = before.cur_seq();
    let req = (count.0 * A::PAGE_SIZE) as nat;
    let k = drop_count(cur, before.cur_offset(), req);
    before.lemma_bytes();
    lemma_drop_count_fits(cur, before.cur_offset(), req);
    lemma_total_size_split(cur, k as int);
    if k > 0 {
        lemma_suffix_total(cur.subrange(0, k as int), 1);
    }
}

/// Once no area is left, every allocation fails and the allocator stays as it is.
pub proof fn lemma_exhausted<A: Arch>(
    before: BumpAllocator<A>,
    count: FrameCount,
    after: BumpAllocator<A>,
    r: Option<PhysicalAddress>,
)
    requires
        before.cur_seq().len() == 0,
        before.allocate_spec(count, &after, r),
    ensures
        r is None,
        after.cur_seq().len() == 0,
        after.cur_offset() == before.cur_offset(),
        after.orig_seq() == before.orig_seq(),
{
}

/// On a fresh allocator with no starting offset, one allocation of `count`
/// frames that fits in the first area leaves exactly `count` frames in use,
/// out of the areas' sum in whole frames.
pub proof fn lemma_single_allocation_usage<A: Arch>(
    before: BumpAllocator<A>,
    count: FrameCount,
    after: BumpAllocator<A>,
    a: PhysicalAddress,
)
    requires
        before.inv(),
        before.orig_offset() == 0,
        before.cur_seq() == before.orig_seq(),
        before.cur_offset() == 0,
        before.orig_seq().len() > 0,
        count.0 * A::PAGE_SIZE <= before.orig_seq()[0].size,
        before.allocate_spec(count, &after, Some(a)),
    ensures
        after.used_bytes() / A::PAGE_SIZE as int == count.0,
        after.total_bytes() / A::PAGE_SIZE as int == total_size(before.orig_seq()) as int / A::PAGE_SIZE as int,
{
    A::lemma_geometry();
    let cur = before.cur_seq();
    assert(cur.subrange(0, cur.len() as int) =~= cur);
    let p = A::PAGE_SIZE as int;
    let c = count.0 as int;
    assert((c * p) / p == c) by (nonlinear_arith)
        requires p > 0;
}

} // verus!
