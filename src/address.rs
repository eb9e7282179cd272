use vstd::prelude::*;

verus! {

/// A physical memory address.
#[derive(Clone, Copy, Debug, PartialEq, Eq, Structural, PartialOrd, Ord, Hash)]
pub struct PhysicalAddress(pub usize);

impl PhysicalAddress {
    pub fn new(address: usize) -> (r: Self)
        ensures
            r.0 == address,
    {
        PhysicalAddress(address)
    }

    pub fn data(&self) -> (r: usize)
        ensures
            r == self.0,
    {
        self.0
    }

    /// The address `offset` bytes further on.
    pub fn add(self, offset: usize) -> (r: Self)
        requires
            self.0 + offset <= usize::MAX,
        ensures
            r.0 == self.0 + offset,
    {
        PhysicalAddress(self.0 + offset)
    }
}

/// A virtual memory address.
#[derive(Clone, Copy, Debug, PartialEq, Eq, Structural, PartialOrd, Ord, Hash)]
pub struct VirtualAddress(pub usize);

impl VirtualAddress {
    pub fn new(address: usize) -> (r: Self)
        ensures
            r.0 == address,
    {
        VirtualAddress(address)
    }

    pub fn data(&self) -> (r: usize)
        ensures
            r == self.0,
    {
        self.0
    }

    /// The address `offset` bytes further on.
    pub fn add(self, offset: usize) -> (r: Self)
        requires
            self.0 + offset <= usize::MAX,
        ensures
            r.0 == self.0 + offset,
    {
        VirtualAddress(self.0 + offset)
    }
}

/// A number of whole page frames.
#[derive(Clone, Copy, Debug, PartialEq, Eq, Structural, PartialOrd, Ord, Hash)]
pub struct FrameCount(pub usize);

impl FrameCount {
    pub fn new(count: usize) -> (r: Self)
        ensures
            r.0 == count,
    {
        FrameCount(count)
    }

    pub fn data(&self) -> (r: usize)
        ensures
            r == self.0,
    {
        self.0
    }
}

/// How many frames of an allocator are in use, out of how many in all.
#[derive(Clone, Copy, Debug, PartialEq, Eq, Structural)]
pub struct FrameUsage {
    used: FrameCount,
    total: FrameCount,
}

impl FrameUsage {
    /// The frames in use (`used`) out of all frames (`total`).
    pub fn new(used: FrameCount, total: FrameCount) -> (r: Self)
        requires
            used.0 <= total.0,
        ensures
            r.used_spec() == used.0,
            r.total_spec() == total.0,
    {
        FrameUsage { used, total }
    }

    pub closed spec fn used_spec(&self) -> nat {
        self.used.0 as nat
    }

    pub closed spec fn total_spec(&self) -> nat {
        self.total.0 as nat
    }

    pub open spec fn wf(&self) -> bool {
        self.used_spec() <= self.total_spec()
    }

    pub fn used(&self) -> (r: FrameCount)
        ensures
            r.0 == self.used_spec(),
    {
        self.used
    }

    pub fn total(&self) -> (r: FrameCount)
        ensures
            r.0 == self.total_spec(),
    {
        self.total
    }

    /// The frames not in use.
    pub fn free(&self) -> (r: FrameCount)
        requires
            self.wf(),
        ensures
            r.0 == self.total_spec() - self.used_spec(),
    {
        FrameCount(self.total.0 - self.used.0)
    }
}

} // verus!
