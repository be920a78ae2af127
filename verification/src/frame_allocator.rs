//! A bump allocator of physical page frames.
use vstd::prelude::*;
use crate::address::PAGE_SIZE;

verus! {

/// The first physical address past the memory the kernel manages.
pub const MEMORY_END: usize = 0x8800_0000;

/// A physical frame handed out by the allocator.
#[derive(Clone, Copy, Debug, PartialEq, Eq, Structural)]
pub struct FrameTracker {
    ppn: usize,
}

/// `addr` rounded up to a multiple of `align` (a power of two).
pub open spec fn round_up_spec(addr: int, align: int) -> int {
    ((addr + align - 1) / align) * align
}

/// `addr` rounded down to a multiple of `align` (a power of two).
pub open spec fn round_down_spec(addr: int, align: int) -> int {
    (addr / align) * align
}

impl FrameTracker {
    pub closed spec fn ppn_spec(&self) -> usize {
        self.ppn
    }

    /// The page number of this frame.
    pub fn ppn(&self) -> (r: usize)
        ensures
            r == self.ppn_spec(),
    {
        self.ppn
    }

    /// The first physical address of this frame.
    pub fn start_pa(&self) -> (r: usize)
        requires
            self.ppn_spec() * PAGE_SIZE <= usize::MAX,
        ensures
            r == self.ppn_spec() * PAGE_SIZE,
    {
        self.ppn * PAGE_SIZE
    }
}

/// Hands out the frames `current, current + 1, ...` below `end`, and never takes one back.
pub struct StackFrameAllocator {
    current: usize,
    end: usize,
}

impl StackFrameAllocator {
    pub closed spec fn current_spec(&self) -> usize {
        self.current
    }

    pub closed spec fn end_spec(&self) -> usize {
        self.end
    }

    /// Frames the allocator can still hand out.
    pub open spec fn available_spec(&self) -> int {
        self.end_spec() - self.current_spec()
    }

    /// An allocator with no frames.
    pub fn new() -> (r: Self)
        ensures
            r.current_spec() == 0,
            r.end_spec() == 0,
    {
        Self { current: 0, end: 0 }
    }

    /// Manages the whole pages between `start_pa` and `end_pa`.
    pub fn init(&mut self, start_pa: usize, end_pa: usize)
        requires
            start_pa + PAGE_SIZE - 1 <= usize::MAX,
        ensures
            final(self).current_spec() == round_up_spec(start_pa as int, PAGE_SIZE as int) / (PAGE_SIZE as int),
            final(self).end_spec() == round_down_spec(end_pa as int, PAGE_SIZE as int) / (PAGE_SIZE as int),
    {
        let up = round_up(start_pa, PAGE_SIZE);
        let down = round_down(end_pa, PAGE_SIZE);
        self.current = up / PAGE_SIZE;
        self.end = down / PAGE_SIZE;
    }

    /// Takes the next frame, or `None` when the allocator is exhausted. The frame is one
    /// never handed out before; its bytes are memory, which the library does not model, so
    /// the kernel clears the 4096 bytes at its `start_pa` before use.
    pub fn allocate(&mut self) -> (r: Option<FrameTracker>)
        requires
            old(self).current_spec() != old(self).end_spec() ==> old(self).current_spec() < usize::MAX,
        ensures
            old(self).current_spec() == old(self).end_spec() ==> r is None && *final(self) == *old(self),
            old(self).current_spec() != old(self).end_spec() ==> {
                &&& r is Some && r->0.ppn_spec() == old(self).current_spec()
                &&& final(self).current_spec() == old(self).current_spec() + 1
                &&& final(self).end_spec() == old(self).end_spec()
            },
    {
        if self.current == self.end {
            None
        } else {
            let frame = FrameTracker { ppn: self.current };
            self.current = self.current + 1;
            Some(frame)
        }
    }

    /// The number of frames left.
    pub fn avaliable_frames(&self) -> (r: usize)
        requires
            self.current_spec() <= self.end_spec(),
        ensures
            r == self.available_spec(),
    {
        self.end - self.current
    }
}

/// `addr` rounded up to a multiple of the power of two `align`.
pub fn round_up(addr: usize, align: usize) -> (r: usize)
    requires
        align == PAGE_SIZE,
        addr + align - 1 <= usize::MAX,
    ensures
        r == round_up_spec(addr as int, align as int),
        r % align == 0,
{
    let r = (addr + (align - 1)) & !(align - 1);
    proof {
        let s = (addr + 4095) as usize;
        assert(s & !4095usize == s - s % 4096) by (bit_vector);
        assert(((s - s % 4096) / 4096) * 4096 == s - s % 4096) by (nonlinear_arith)
            requires s >= 0;
        assert((s as int / 4096) * 4096 == s - s % 4096) by (nonlinear_arith);
    }
    r
}

/// `addr` rounded down to a multiple of the power of two `align`.
pub fn round_down(addr: usize, align: usize) -> (r: usize)
    requires
        align == PAGE_SIZE,
    ensures
        r == round_down_spec(addr as int, align as int),
        r % align == 0,
        r <= addr,
{
    let r = addr & !(align - 1);
    proof {
        assert(addr & !4095usize == addr - addr % 4096) by (bit_vector);
        assert((addr as int / 4096) * 4096 == addr - addr % 4096) by (nonlinear_arith);
    }
    r
}

} // verus!
