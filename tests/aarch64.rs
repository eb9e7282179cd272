use rmm::{AArch64Arch, Arch, HwOp, PhysicalAddress, TableKind, VirtualAddress};

#[test]
fn constants() {
    assert_eq!(AArch64Arch::PAGE_SIZE, 4096);
    assert_eq!(AArch64Arch::PAGE_OFFSET_MASK, 0xFFF);
    assert_eq!(AArch64Arch::PAGE_ADDRESS_SHIFT, 48);
    assert_eq!(AArch64Arch::PAGE_ADDRESS_SIZE, 0x0001_0000_0000_0000);
    assert_eq!(AArch64Arch::PAGE_ADDRESS_MASK, 0x0000_FFFF_FFFF_F000);
    assert_eq!(AArch64Arch::PAGE_ENTRY_SIZE, 8);
    assert_eq!(AArch64Arch::PAGE_ENTRIES, 512);
    assert_eq!(AArch64Arch::PAGE_ENTRY_MASK, 0x1FF);
    assert_eq!(AArch64Arch::PAGE_NEGATIVE_MASK, 0xFFFF_0000_0000_0000);

    assert_eq!(AArch64Arch::ENTRY_ADDRESS_SIZE, 0x0000_0100_0000_0000);
    assert_eq!(AArch64Arch::ENTRY_ADDRESS_MASK, 0x0000_00FF_FFFF_FFFF);
    assert_eq!(AArch64Arch::ENTRY_FLAGS_MASK, 0xFFF0_0000_0000_0FFF);

    assert_eq!(AArch64Arch::PHYS_OFFSET, 0xFFFF_8000_0000_0000);
}

#[test]
fn derived_constants_follow_primary() {
    assert_eq!(AArch64Arch::PAGE_SIZE, 1usize << AArch64Arch::PAGE_SHIFT);
    assert_eq!(AArch64Arch::PAGE_ENTRIES, 1usize << AArch64Arch::PAGE_ENTRY_SHIFT);
    assert_eq!(
        AArch64Arch::PAGE_ADDRESS_SHIFT,
        AArch64Arch::PAGE_LEVELS * AArch64Arch::PAGE_ENTRY_SHIFT + AArch64Arch::PAGE_SHIFT
    );
    assert_eq!(AArch64Arch::PAGE_ENTRY_SIZE * AArch64Arch::PAGE_ENTRIES, AArch64Arch::PAGE_SIZE);
    let offset = AArch64Arch::PAGE_OFFSET_MASK as u64;
    assert_eq!(offset & AArch64Arch::PAGE_ADDRESS_MASK, 0);
    assert_eq!(AArch64Arch::PAGE_ADDRESS_MASK & AArch64Arch::PAGE_NEGATIVE_MASK, 0);
    assert_eq!(offset | AArch64Arch::PAGE_ADDRESS_MASK | AArch64Arch::PAGE_NEGATIVE_MASK, u64::MAX);
    let address_bits = AArch64Arch::ENTRY_ADDRESS_MASK << AArch64Arch::PAGE_SHIFT;
    assert_eq!(AArch64Arch::ENTRY_FLAGS_MASK & address_bits, 0);
    assert_eq!(AArch64Arch::ENTRY_FLAGS_MASK | address_bits, u64::MAX);
}

#[test]
fn entry_flag_bits() {
    assert_eq!(AArch64Arch::ENTRY_FLAG_PRESENT, 1);
    assert_eq!(AArch64Arch::ENTRY_FLAG_READONLY, 1 << 7);
    assert_eq!(AArch64Arch::ENTRY_FLAG_PAGE_USER, 1 << 6);
    assert_eq!(AArch64Arch::ENTRY_FLAG_NO_EXEC, 0x0060_0000_0000_0000);
    assert_eq!(AArch64Arch::ENTRY_FLAG_NO_GLOBAL, 0x800);
    assert_eq!(AArch64Arch::ENTRY_FLAG_DEFAULT_PAGE, 0xC03);
    assert_eq!(AArch64Arch::ENTRY_FLAG_DEFAULT_TABLE, 0x403);
    assert_eq!(AArch64Arch::ENTRY_FLAG_READWRITE, 0);
    assert_eq!(AArch64Arch::ENTRY_FLAG_EXEC, 0);
    assert_eq!(AArch64Arch::ENTRY_FLAG_GLOBAL, 0);
    assert_eq!(AArch64Arch::ENTRY_FLAG_WRITE_COMBINING, 0);
}

#[test]
fn invalidate_all_order() {
    assert_eq!(
        AArch64Arch::invalidate_all(),
        vec![HwOp::StoreBarrier, HwOp::InvalidateAll, HwOp::DataBarrier, HwOp::InstructionBarrier]
    );
}

#[test]
fn invalidate_one_page() {
    assert_eq!(
        AArch64Arch::invalidate(VirtualAddress::new(0x1234_5678)),
        vec![
            HwOp::StoreBarrier,
            HwOp::InvalidatePage(0x12345),
            HwOp::DataBarrier,
            HwOp::InstructionBarrier
        ]
    );
}

#[test]
fn set_table_then_flush() {
    let root = PhysicalAddress::new(0x8000);
    assert_eq!(
        AArch64Arch::set_table(TableKind::Kernel, root),
        vec![
            HwOp::SetTable(TableKind::Kernel, root),
            HwOp::StoreBarrier,
            HwOp::InvalidateAll,
            HwOp::DataBarrier,
            HwOp::InstructionBarrier
        ]
    );
}

#[test]
fn sync_icache_unaligned_range() {
    let ops = AArch64Arch::sync_icache(VirtualAddress::new(0x1030), 0x60);
    assert_eq!(
        ops,
        vec![
            HwOp::CleanDataLine(0x1000),
            HwOp::CleanDataLine(0x1040),
            HwOp::CleanDataLine(0x1080),
            HwOp::DataBarrier,
            HwOp::InvalidateInstructionLine(0x1000),
            HwOp::InvalidateInstructionLine(0x1040),
            HwOp::InvalidateInstructionLine(0x1080),
            HwOp::DataBarrier,
            HwOp::InstructionBarrier
        ]
    );
}

#[test]
fn sync_icache_aligned_range() {
    let ops = AArch64Arch::sync_icache(VirtualAddress::new(0x2000), 0x40);
    assert_eq!(
        ops,
        vec![
            HwOp::CleanDataLine(0x2000),
            HwOp::DataBarrier,
            HwOp::InvalidateInstructionLine(0x2000),
            HwOp::DataBarrier,
            HwOp::InstructionBarrier
        ]
    );
}

#[test]
fn sync_icache_empty_range() {
    let ops = AArch64Arch::sync_icache(VirtualAddress::new(0x2000), 0);
    assert_eq!(ops, vec![HwOp::DataBarrier, HwOp::DataBarrier, HwOp::InstructionBarrier]);
}

#[test]
fn sync_icache_top_of_address_space() {
    let ops = AArch64Arch::sync_icache(VirtualAddress::new(usize::MAX - 0x3F), 0x3F);
    assert_eq!(ops.len(), 5);
    assert_eq!(ops[0], HwOp::CleanDataLine(usize::MAX - 0x3F));
}

#[test]
fn every_address_is_valid() {
    assert!(AArch64Arch::virt_is_valid(VirtualAddress::new(0)));
    assert!(AArch64Arch::virt_is_valid(VirtualAddress::new(usize::MAX)));
}

#[test]
fn direct_map() {
    let v = AArch64Arch::phys_to_virt(PhysicalAddress::new(0x1000));
    assert_eq!(v.data(), 0xFFFF_8000_0000_1000);
}
