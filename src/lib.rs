//! Physical memory management for a kernel: the page-table geometry and
//! translation-cache control of each supported architecture, and a frame
//! allocator that hands out page frames from the usable memory areas.

mod address;
mod area;
mod arch;
mod aarch64;
mod bump;

pub use address::{FrameCount, FrameUsage, PhysicalAddress, VirtualAddress};
pub use area::{area_fits, areas_ordered, lemma_total_size_split, total_size, MemoryArea};
pub use arch::{is_data_barrier, is_invalidation_sequence, Arch, HwOp, TableKind};
pub use aarch64::{cache_lines, first_line, line_count, sync_icache_plan, AArch64Arch, CACHE_LINE};
pub use bump::{
    drop_count, lemma_allocate_moves_forward, lemma_allocate_uses_capacity, lemma_exhausted,
    lemma_single_allocation_usage, lemma_skip_total, lemma_successive_allocations_disjoint,
    remaining, skip_areas, BumpAllocator, FrameAllocator, FrameError,
};
