use rmm::{
    AArch64Arch, BumpAllocator, FrameAllocator, FrameCount, FrameError, FrameUsage, MemoryArea,
    PhysicalAddress,
};

fn leak(areas: Vec<(usize, usize)>) -> &'static [MemoryArea] {
    let v: Vec<MemoryArea> = areas
        .into_iter()
        .map(|(base, size)| MemoryArea::new(PhysicalAddress::new(base), size))
        .collect();
    Box::leak(v.into_boxed_slice())
}

fn two_areas() -> &'static [MemoryArea] {
    leak(vec![(0x1000, 0x3000), (0x10000, 0x1000)])
}

fn frames(n: usize) -> FrameCount {
    FrameCount::new(n)
}

#[test]
fn skip_into_first_area() {
    let a = BumpAllocator::<AArch64Arch>::new(two_areas(), 0x2000);
    assert_eq!(a.areas().len(), 2);
    let (free, off) = a.free_areas();
    assert_eq!(free.len(), 2);
    assert_eq!(off, 0x2000);
    assert_eq!(a.abs_offset(), PhysicalAddress::new(0x3000));
}

#[test]
fn two_region_scenario_drop_then_fail() {
    let mut a = BumpAllocator::<AArch64Arch>::new(two_areas(), 0x2000);
    assert_eq!(a.allocate(frames(1)), Some(PhysicalAddress::new(0x3000)));
    // The first area is full and the second holds one frame only.
    assert_eq!(a.allocate(frames(2)), None);
    assert_eq!(a.free_areas().0.len(), 0);
    assert_eq!(a.allocate(frames(1)), None);
}

#[test]
fn two_region_scenario_advance() {
    let mut a = BumpAllocator::<AArch64Arch>::new(two_areas(), 0x2000);
    assert_eq!(a.allocate(frames(1)), Some(PhysicalAddress::new(0x3000)));
    assert_eq!(a.allocate(frames(1)), Some(PhysicalAddress::new(0x10000)));
    assert_eq!(a.allocate(frames(1)), None);
}

#[test]
fn skip_whole_areas() {
    let a = BumpAllocator::<AArch64Arch>::new(two_areas(), 0x3000);
    assert_eq!(a.areas().len(), 1);
    assert_eq!(a.free_areas().1, 0);
    assert_eq!(a.abs_offset(), PhysicalAddress::new(0x10000));
}

#[test]
fn skip_everything() {
    let mut a = BumpAllocator::<AArch64Arch>::new(two_areas(), 0x5000);
    assert_eq!(a.areas().len(), 0);
    assert_eq!(a.free_areas().1, 0x1000);
    assert_eq!(a.abs_offset(), PhysicalAddress::new(0));
    assert_eq!(a.allocate(frames(1)), None);
    let u = a.usage();
    assert_eq!(u.used(), frames(0));
    assert_eq!(u.total(), frames(0));
}

#[test]
fn empty_area_list() {
    let mut a = BumpAllocator::<AArch64Arch>::new(leak(vec![]), 0);
    assert_eq!(a.allocate(frames(1)), None);
    assert_eq!(a.usage().total(), frames(0));
}

#[test]
fn usage_after_single_allocation() {
    let mut a = BumpAllocator::<AArch64Arch>::new(two_areas(), 0);
    assert_eq!(a.allocate(frames(2)), Some(PhysicalAddress::new(0x1000)));
    let u = a.usage();
    assert_eq!(u.used(), frames(2));
    assert_eq!(u.total(), frames(4));
    assert_eq!(u.free(), frames(2));
    assert_eq!(a.offset(), 0x2000);
}

#[test]
fn usage_counts_abandoned_space() {
    let mut a = BumpAllocator::<AArch64Arch>::new(two_areas(), 0x1000);
    assert_eq!(a.usage().total(), frames(3));
    assert_eq!(a.usage().used(), frames(0));
    assert_eq!(a.allocate(frames(1)), Some(PhysicalAddress::new(0x2000)));
    // The tail of the first area is given up for the second.
    assert_eq!(a.allocate(frames(1)), Some(PhysicalAddress::new(0x3000)));
    assert_eq!(a.allocate(frames(1)), Some(PhysicalAddress::new(0x10000)));
    assert_eq!(a.usage().used(), frames(3));
    assert_eq!(a.offset(), 0x3000);
}

#[test]
fn addresses_increase_and_do_not_overlap() {
    let areas = leak(vec![(0x1000, 0x3000), (0x8000, 0x4000), (0x20000, 0x2000)]);
    let mut a = BumpAllocator::<AArch64Arch>::new(areas, 0);
    let mut spans: Vec<(usize, usize)> = Vec::new();
    for n in [1usize, 1, 2, 1, 2, 1] {
        if let Some(p) = a.allocate(frames(n)) {
            spans.push((p.data(), p.data() + n * 0x1000));
        }
    }
    let starts: Vec<usize> = spans.iter().map(|s| s.0).collect();
    assert_eq!(starts, vec![0x1000, 0x2000, 0x8000, 0xA000, 0x20000]);
    for w in spans.windows(2) {
        assert!(w[0].0 < w[1].0);
        assert!(w[0].1 <= w[1].0);
    }
}

#[test]
fn capacity_is_not_exceeded() {
    let mut a = BumpAllocator::<AArch64Arch>::new(two_areas(), 0x1000);
    let mut handed_out = 0usize;
    while let Some(_) = a.allocate(frames(1)) {
        handed_out += 0x1000;
    }
    assert_eq!(handed_out, 0x4000 - 0x1000);
    assert_eq!(a.allocate(frames(1)), None);
    assert_eq!(a.allocate(frames(0)), None);
}

#[test]
fn oversized_request_drops_every_area() {
    let mut a = BumpAllocator::<AArch64Arch>::new(two_areas(), 0);
    assert_eq!(a.allocate(frames(usize::MAX)), None);
    assert_eq!(a.free_areas().0.len(), 0);
    assert_eq!(a.allocate(frames(1)), None);
}

#[test]
fn zero_frames_do_not_advance() {
    let mut a = BumpAllocator::<AArch64Arch>::new(two_areas(), 0);
    assert_eq!(a.allocate(frames(0)), Some(PhysicalAddress::new(0x1000)));
    assert_eq!(a.allocate(frames(1)), Some(PhysicalAddress::new(0x1000)));
}

#[test]
fn free_is_refused() {
    let mut a = BumpAllocator::<AArch64Arch>::new(two_areas(), 0);
    let p = a.allocate(frames(1)).unwrap();
    assert_eq!(a.free(p, frames(1)), Err(FrameError::Unsupported));
    assert_eq!(a.allocate(frames(1)), Some(PhysicalAddress::new(0x2000)));
}

#[test]
fn frame_usage_values() {
    let u = FrameUsage::new(frames(3), frames(10));
    assert_eq!(u.used().data(), 3);
    assert_eq!(u.total().data(), 10);
    assert_eq!(u.free().data(), 7);
}

#[test]
fn address_arithmetic() {
    assert_eq!(PhysicalAddress::new(0x1000).add(0x234).data(), 0x1234);
    assert_eq!(rmm::VirtualAddress::new(0x10).add(0x10).data(), 0x20);
}
