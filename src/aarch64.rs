use vstd::prelude::*;
use vstd::arithmetic::power2::{lemma2_to64, lemma2_to64_rest};
use crate::address::{PhysicalAddress, VirtualAddress};
use crate::arch::{Arch, HwOp, TableKind};

verus! {

/// The 64-bit ARM architecture with 4 KiB pages and four translation levels.
#[derive(Clone, Copy, Debug)]
pub struct AArch64Arch;

/// Size of a cache line.
pub const CACHE_LINE: usize = 64;

/// The first cache line that `[start, start + len)` touches, aligned down.
pub open spec fn first_line(start: nat) -> nat {
    (start - start % (CACHE_LINE as nat)) as nat
}

/// How many cache lines are visited, stepping from the aligned-down start
/// while the address is below `start + len`.
pub open spec fn line_count(start: nat, len: nat) -> nat {
    let span = (start + len - first_line(start)) as nat;
    (span / (CACHE_LINE as nat) + if span % (CACHE_LINE as nat) == 0 { 0nat } else { 1nat }) as nat
}

/// The addresses of the cache lines visited for `[start, start + len)`.
pub open spec fn cache_lines(start: nat, len: nat) -> Seq<usize> {
    Seq::new(line_count(start, len), |i: int| (first_line(start) + i * CACHE_LINE) as usize)
}

/// Clean each line of the data cache, a barrier, invalidate each line of the
/// instruction cache, then a data and an instruction barrier.
pub open spec fn sync_icache_plan(start: nat, len: nat) -> Seq<HwOp> {
    let lines = cache_lines(start, len);
    lines.map_values(|a: usize| HwOp::CleanDataLine(a))
        + seq![HwOp::DataBarrier]
        + lines.map_values(|a: usize| HwOp::InvalidateInstructionLine(a))
        + seq![HwOp::DataBarrier, HwOp::InstructionBarrier]
}

proof fn lemma_line_count(start: nat, len: nat)
    ensures
        first_line(start) <= start,
        start - first_line(start) < CACHE_LINE,
        ({
            let n = line_count(start, len);
            &&& n * CACHE_LINE >= start + len - first_line(start)
            &&& n > 0 ==> (n - 1) * CACHE_LINE < start + len - first_line(start)
        }),
{
    let span = (start + len - first_line(start)) as nat;
    let n = line_count(start, len);
    assert(span == (span / 64) * 64 + span % 64) by (nonlinear_arith);
    assert(n * 64 == (span / 64) * 64 + if span % 64 == 0 { 0nat } else { 64nat }) by (nonlinear_arith)
        requires n == span / 64 + if span % 64 == 0 { 0nat } else { 1nat };
    if n > 0 {
        assert((n - 1) * 64 == n * 64 - 64) by (nonlinear_arith);
    }
}

impl AArch64Arch {
    /// The steps that make freshly written code at `[start, start + len)`
    /// visible to instruction fetch: instruction and data caches are not
    /// coherent on this architecture.
    pub fn sync_icache(start: VirtualAddress, len: usize) -> (r: Vec<HwOp>)
        requires
            start.0 + len <= usize::MAX,
        ensures
            r@ == sync_icache_plan(start.0 as nat, len as nat),
    {
        proof {
            lemma_line_count(start.0 as nat, len as nat);
        }
        let start_addr = start.data();
        let end_addr = start_addr + len;
        let first = start_addr - start_addr % CACHE_LINE;
        let span = end_addr - first;
        let count: usize = span / CACHE_LINE + if span % CACHE_LINE == 0 { 0 } else { 1 };
        let ghost lines = cache_lines(start.0 as nat, len as nat);
        assert(count == lines.len());

        let mut clean: Vec<HwOp> = Vec::new();
        let mut inval: Vec<HwOp> = Vec::new();
        let mut i: usize = 0;
        let mut addr: usize = first;
        while i < count
            invariant
                count == lines.len(),
                lines == cache_lines(start.0 as nat, len as nat),
                first == first_line(start.0 as nat),
                count * CACHE_LINE >= span,
                count > 0 ==> (count - 1) * CACHE_LINE < span,
                span == end_addr - first,
                end_addr <= usize::MAX,
                i <= count,
                i < count ==> addr == first + i * CACHE_LINE,
                clean@ == lines.take(i as int).map_values(|a: usize| HwOp::CleanDataLine(a)),
                inval@ == lines.take(i as int).map_values(|a: usize| HwOp::InvalidateInstructionLine(a)),
            decreases count - i,
        {
            proof {
                assert(i * CACHE_LINE <= (count - 1) * CACHE_LINE) by (nonlinear_arith)
                    requires i < count;
            }
            clean.push(HwOp::CleanDataLine(addr));
            inval.push(HwOp::InvalidateInstructionLine(addr));
            assert(lines.take(i + 1) =~= lines.take(i as int).push(addr));
            assert(clean@ =~= lines.take(i + 1).map_values(|a: usize| HwOp::CleanDataLine(a)));
            assert(inval@ =~= lines.take(i + 1).map_values(|a: usize| HwOp::InvalidateInstructionLine(a)));
            i = i + 1;
            if i < count {
                proof {
                    assert(i * CACHE_LINE <= (count - 1) * CACHE_LINE) by (nonlinear_arith)
                        requires i < count;
                    assert(i * CACHE_LINE == (i - 1) * CACHE_LINE + CACHE_LINE) by (nonlinear_arith);
                }
                addr = addr + CACHE_LINE;
            }
        }
        assert(lines.take(count as int) =~= lines);

        let mut r = clean;
        r.push(HwOp::DataBarrier);
        r.append(&mut inval);
        r.push(HwOp::DataBarrier);
        r.push(HwOp::InstructionBarrier);
        assert(r@ =~= sync_icache_plan(start.0 as nat, len as nat));
        r
    }
}

impl Arch for AArch64Arch {
    const PAGE_SHIFT: usize = 12;
    const PAGE_ENTRY_SHIFT: usize = 9;
    const PAGE_LEVELS: usize = 4;
    const ENTRY_ADDRESS_WIDTH: usize = 40;

    /// Present, page descriptor (bit 1), access flag (bit 10), not global.
    const ENTRY_FLAG_DEFAULT_PAGE: u64 = 1 | 1 << 1 | 1 << 10 | 1 << 11;
    /// Present, table descriptor (bit 1), access flag (bit 10).
    const ENTRY_FLAG_DEFAULT_TABLE: u64 = 1 | 1 << 1 | 1 << 10;
    const ENTRY_FLAG_PRESENT: u64 = 1;
    const ENTRY_FLAG_READONLY: u64 = 1 << 7;
    const ENTRY_FLAG_READWRITE: u64 = 0;
    const ENTRY_FLAG_PAGE_USER: u64 = 1 << 6;
    /// Both the user and the privileged execute-never bit.
    const ENTRY_FLAG_NO_EXEC: u64 = 3 << 53;
    const ENTRY_FLAG_EXEC: u64 = 0;
    const ENTRY_FLAG_GLOBAL: u64 = 0;
    const ENTRY_FLAG_NO_GLOBAL: u64 = 1 << 11;
    const ENTRY_FLAG_WRITE_COMBINING: u64 = 0;

    const PHYS_OFFSET: u64 = 0xFFFF_8000_0000_0000;

    const PAGE_SIZE: usize = 4096;
    const PAGE_OFFSET_MASK: usize = 0xFFF;
    const PAGE_ADDRESS_SHIFT: usize = 48;
    const PAGE_ADDRESS_SIZE: u64 = 0x0001_0000_0000_0000;
    const PAGE_ADDRESS_MASK: u64 = 0x0000_FFFF_FFFF_F000;
    const PAGE_ENTRY_SIZE: usize = 8;
    const PAGE_ENTRIES: usize = 512;
    const PAGE_ENTRY_MASK: usize = 0x1FF;
    const PAGE_NEGATIVE_MASK: u64 = 0xFFFF_0000_0000_0000;
    const ENTRY_ADDRESS_SIZE: u64 = 0x0000_0100_0000_0000;
    const ENTRY_ADDRESS_MASK: u64 = 0x0000_00FF_FFFF_FFFF;
    const ENTRY_FLAGS_MASK: u64 = 0xFFF0_0000_0000_0FFF;

    proof fn lemma_geometry() {
        lemma2_to64();
        lemma2_to64_rest();
        assert(0xFFFu64 & 0x0000_FFFF_FFFF_F000u64 == 0) by (bit_vector);
        assert(0xFFFu64 & 0xFFFF_0000_0000_0000u64 == 0) by (bit_vector);
        assert(0x0000_FFFF_FFFF_F000u64 & 0xFFFF_0000_0000_0000u64 == 0) by (bit_vector);
        assert(0xFFFu64 | 0x0000_FFFF_FFFF_F000u64 | 0xFFFF_0000_0000_0000u64 == 0xFFFF_FFFF_FFFF_FFFFu64) by (bit_vector);
        assert(!0x0000_FFFF_FFFF_FFFFu64 == 0xFFFF_0000_0000_0000u64) by (bit_vector);
        assert(0x0000_00FF_FFFF_FFFFu64 << 12usize == 0x000F_FFFF_FFFF_F000u64) by (bit_vector);
        assert(0xFFF0_0000_0000_0FFFu64 & 0x000F_FFFF_FFFF_F000u64 == 0) by (bit_vector);
        assert(0xFFF0_0000_0000_0FFFu64 | 0x000F_FFFF_FFFF_F000u64 == 0xFFFF_FFFF_FFFF_FFFFu64) by (bit_vector);
        assert((1u64 | 1u64 << 1u64 | 1u64 << 10u64 | 1u64 << 11u64) & !0xFFF0_0000_0000_0FFFu64 == 0) by (bit_vector);
        assert((1u64 | 1u64 << 1u64 | 1u64 << 10u64) & !0xFFF0_0000_0000_0FFFu64 == 0) by (bit_vector);
        assert(1u64 & !0xFFF0_0000_0000_0FFFu64 == 0) by (bit_vector);
        assert(1u64 << 7u64 & !0xFFF0_0000_0000_0FFFu64 == 0) by (bit_vector);
        assert(0u64 & !0xFFF0_0000_0000_0FFFu64 == 0) by (bit_vector);
        assert(1u64 << 6u64 & !0xFFF0_0000_0000_0FFFu64 == 0) by (bit_vector);
        assert(3u64 << 53u64 & !0xFFF0_0000_0000_0FFFu64 == 0) by (bit_vector);
        assert(1u64 << 11u64 & !0xFFF0_0000_0000_0FFFu64 == 0) by (bit_vector);
    }

    fn invalidate(address: VirtualAddress) -> (r: Vec<HwOp>)
        ensures
            r@ == seq![
                HwOp::StoreBarrier,
                HwOp::InvalidatePage(address.0 >> 12usize),
                HwOp::DataBarrier,
                HwOp::InstructionBarrier,
            ],
    {
        let page = address.data() >> Self::PAGE_SHIFT;
        let r = vec![HwOp::StoreBarrier, HwOp::InvalidatePage(page), HwOp::DataBarrier, HwOp::InstructionBarrier];
        assert(r@ =~= seq![HwOp::StoreBarrier, HwOp::InvalidatePage(page), HwOp::DataBarrier, HwOp::InstructionBarrier]);
        r
    }

    fn invalidate_all() -> (r: Vec<HwOp>)
        ensures
            r@ == seq![
                HwOp::StoreBarrier,
                HwOp::InvalidateAll,
                HwOp::DataBarrier,
                HwOp::InstructionBarrier,
            ],
    {
        let r = vec![HwOp::StoreBarrier, HwOp::InvalidateAll, HwOp::DataBarrier, HwOp::InstructionBarrier];
        assert(r@ =~= seq![HwOp::StoreBarrier, HwOp::InvalidateAll, HwOp::DataBarrier, HwOp::InstructionBarrier]);
        r
    }

    fn set_table(table_kind: TableKind, address: PhysicalAddress) -> (r: Vec<HwOp>) {
        let mut r = vec![HwOp::SetTable(table_kind, address)];
        let mut tail = Self::invalidate_all();
        r.append(&mut tail);
        assert(r@.subrange(1, 5) =~= seq![HwOp::StoreBarrier, HwOp::InvalidateAll, HwOp::DataBarrier, HwOp::InstructionBarrier]);
        r
    }

    /// Every address counts as valid: no finer check is made here.
    fn virt_is_valid(address: VirtualAddress) -> (r: bool)
        ensures
            r,
    {
        true
    }

    fn phys_to_virt(phys: PhysicalAddress) -> (r: VirtualAddress) {
        VirtualAddress::new(phys.data() + Self::PHYS_OFFSET as usize)
    }
}

} // verus!
