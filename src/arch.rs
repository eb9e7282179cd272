use vstd::prelude::*;
use vstd::arithmetic::power2::pow2;
use crate::address::{PhysicalAddress, VirtualAddress};

verus! {

/// Which of the two translation-table roots: the one for user space or the one for the kernel.
#[derive(Clone, Copy, Debug, PartialEq, Eq, Structural)]
pub enum TableKind {
    User,
    Kernel,
}

/// One step of a hardware sequence that maintains translation and cache state.
///
/// The architecture functions plan such sequences; a thin layer around the
/// library issues the matching instructions, one step after the other, in order.
#[derive(Clone, Copy, Debug, PartialEq, Eq, Structural)]
pub enum HwOp {
    /// Data synchronization barrier that waits for earlier stores to complete.
    StoreBarrier,
    /// Full data synchronization barrier.
    DataBarrier,
    /// Instruction synchronization barrier.
    InstructionBarrier,
    /// Invalidate the cached translations of one page, given by its page number.
    InvalidatePage(usize),
    /// Invalidate every cached translation.
    InvalidateAll,
    /// Load a translation-table root with a physical address.
    SetTable(TableKind, PhysicalAddress),
    /// Clean the data-cache line at an address to the point of unification.
    CleanDataLine(usize),
    /// Invalidate the instruction-cache line at an address to the point of unification.
    InvalidateInstructionLine(usize),
}

/// A data synchronization barrier of either strength.
pub open spec fn is_data_barrier(op: HwOp) -> bool {
    op is StoreBarrier || op is DataBarrier
}

/// A barrier, the given invalidation, a barrier and an instruction barrier, in that order.
pub open spec fn is_invalidation_sequence(ops: Seq<HwOp>, inv: HwOp) -> bool {
    &&& ops.len() == 4
    &&& is_data_barrier(ops[0])
    &&& ops[1] == inv
    &&& is_data_barrier(ops[2])
    &&& ops[3] == HwOp::InstructionBarrier
}

/// The page-table geometry, entry encoding and translation control of one
/// instruction-set family.
///
/// Addresses, sizes and counts are `usize`; a table entry is a 64-bit word, so
/// entry bits, and masks over the whole address space, are `u64`.
pub trait Arch {
    /// log2 of the page size.
    const PAGE_SHIFT: usize;
    /// log2 of the number of entries in one table.
    const PAGE_ENTRY_SHIFT: usize;
    /// Number of translation levels.
    const PAGE_LEVELS: usize;
    /// Width of the physical frame number field of an entry.
    const ENTRY_ADDRESS_WIDTH: usize;

    const ENTRY_FLAG_DEFAULT_PAGE: u64;
    const ENTRY_FLAG_DEFAULT_TABLE: u64;
    const ENTRY_FLAG_PRESENT: u64;
    const ENTRY_FLAG_READONLY: u64;
    const ENTRY_FLAG_READWRITE: u64;
    const ENTRY_FLAG_PAGE_USER: u64;
    const ENTRY_FLAG_NO_EXEC: u64;
    const ENTRY_FLAG_EXEC: u64;
    const ENTRY_FLAG_GLOBAL: u64;
    const ENTRY_FLAG_NO_GLOBAL: u64;
    const ENTRY_FLAG_WRITE_COMBINING: u64;

    /// Where physical memory is mapped, one to one, in the kernel's address space.
    const PHYS_OFFSET: u64;

    const PAGE_SIZE: usize;
    const PAGE_OFFSET_MASK: usize;
    const PAGE_ADDRESS_SHIFT: usize;
    const PAGE_ADDRESS_SIZE: u64;
    const PAGE_ADDRESS_MASK: u64;
    const PAGE_ENTRY_SIZE: usize;
    const PAGE_ENTRIES: usize;
    const PAGE_ENTRY_MASK: usize;
    const PAGE_NEGATIVE_MASK: u64;
    const ENTRY_ADDRESS_SIZE: u64;
    const ENTRY_ADDRESS_MASK: u64;
    const ENTRY_FLAGS_MASK: u64;

    /// The derived constants follow from the primary ones, and the masks split
    /// an address, and a table entry, into parts that share no bit and
    /// together cover every bit.
    proof fn lemma_geometry()
        ensures
            Self::PAGE_SIZE > 0,
            Self::PAGE_SIZE as nat == pow2(Self::PAGE_SHIFT as nat),
            Self::PAGE_OFFSET_MASK == Self::PAGE_SIZE - 1,
            Self::PAGE_ENTRIES as nat == pow2(Self::PAGE_ENTRY_SHIFT as nat),
            Self::PAGE_ENTRY_MASK == Self::PAGE_ENTRIES - 1,
            Self::PAGE_ENTRY_SIZE * Self::PAGE_ENTRIES == Self::PAGE_SIZE,
            Self::PAGE_ADDRESS_SHIFT == Self::PAGE_LEVELS * Self::PAGE_ENTRY_SHIFT
                + Self::PAGE_SHIFT,
            Self::PAGE_ADDRESS_SIZE as nat == pow2(Self::PAGE_ADDRESS_SHIFT as nat),
            Self::PAGE_ADDRESS_MASK == Self::PAGE_ADDRESS_SIZE - Self::PAGE_SIZE,
            Self::PAGE_NEGATIVE_MASK == !((Self::PAGE_ADDRESS_SIZE - 1) as u64),
            Self::PAGE_OFFSET_MASK as u64 & Self::PAGE_ADDRESS_MASK == 0,
            Self::PAGE_OFFSET_MASK as u64 & Self::PAGE_NEGATIVE_MASK == 0,
            Self::PAGE_ADDRESS_MASK & Self::PAGE_NEGATIVE_MASK == 0,
            Self::PAGE_OFFSET_MASK as u64 | Self::PAGE_ADDRESS_MASK | Self::PAGE_NEGATIVE_MASK
                == u64::MAX,
            Self::ENTRY_ADDRESS_SIZE as nat == pow2(Self::ENTRY_ADDRESS_WIDTH as nat),
            Self::ENTRY_ADDRESS_MASK == Self::ENTRY_ADDRESS_SIZE - 1,
            Self::ENTRY_ADDRESS_WIDTH + Self::PAGE_SHIFT <= 64,
            Self::ENTRY_FLAGS_MASK & (Self::ENTRY_ADDRESS_MASK << Self::PAGE_SHIFT) == 0,
            Self::ENTRY_FLAGS_MASK | (Self::ENTRY_ADDRESS_MASK << Self::PAGE_SHIFT) == u64::MAX,
            Self::ENTRY_FLAG_DEFAULT_PAGE & !Self::ENTRY_FLAGS_MASK == 0,
            Self::ENTRY_FLAG_DEFAULT_TABLE & !Self::ENTRY_FLAGS_MASK == 0,
            Self::ENTRY_FLAG_PRESENT & !Self::ENTRY_FLAGS_MASK == 0,
            Self::ENTRY_FLAG_READONLY & !Self::ENTRY_FLAGS_MASK == 0,
            Self::ENTRY_FLAG_READWRITE & !Self::ENTRY_FLAGS_MASK == 0,
            Self::ENTRY_FLAG_PAGE_USER & !Self::ENTRY_FLAGS_MASK == 0,
            Self::ENTRY_FLAG_NO_EXEC & !Self::ENTRY_FLAGS_MASK == 0,
            Self::ENTRY_FLAG_EXEC & !Self::ENTRY_FLAGS_MASK == 0,
            Self::ENTRY_FLAG_GLOBAL & !Self::ENTRY_FLAGS_MASK == 0,
            Self::ENTRY_FLAG_NO_GLOBAL & !Self::ENTRY_FLAGS_MASK == 0,
            Self::ENTRY_FLAG_WRITE_COMBINING & !Self::ENTRY_FLAGS_MASK == 0,
    ;

    /// The steps that drop the cached translation of one virtual address.
    fn invalidate(address: VirtualAddress) -> (r: Vec<HwOp>)
        ensures
            r@.len() == 4,
            is_invalidation_sequence(r@, r@[1]),
            r@[1] is InvalidatePage,
    ;

    /// The steps that drop every cached translation.
    fn invalidate_all() -> (r: Vec<HwOp>)
        ensures
            is_invalidation_sequence(r@, HwOp::InvalidateAll),
    ;

    /// The steps that load a table root and then drop every cached translation.
    fn set_table(table_kind: TableKind, address: PhysicalAddress) -> (r: Vec<HwOp>)
        ensures
            r@.len() == 5,
            r@[0] == HwOp::SetTable(table_kind, address),
            is_invalidation_sequence(r@.subrange(1, 5), HwOp::InvalidateAll),
    ;

    /// Whether the architecture can represent this virtual address.
    fn virt_is_valid(address: VirtualAddress) -> bool;

    /// The kernel's direct-mapped view of a physical address.
    fn phys_to_virt(phys: PhysicalAddress) -> (r: VirtualAddress)
        requires
            phys.0 + Self::PHYS_OFFSET <= usize::MAX,
        ensures
            r.0 == phys.0 + Self::PHYS_OFFSET,
    ;
}

} // verus!
