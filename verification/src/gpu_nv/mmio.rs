//! Guest physical addresses for mappings of GPU memory.

use vstd::prelude::*;

verus! {

/// The next multiple of a page that is not below `v`.
pub open spec fn page_up(v: int) -> int {
    (v + 0xFFF) / 0x1000 * 0x1000
}

/// Hands out the addresses of a window in ascending order, and takes none back.
///
/// The window lies outside the guest's RAM.
#[derive(Clone, Copy, Debug)]
pub struct MmioAllocator {
    pub base: u64,
    /// No address from here on was handed out.
    pub next: u64,
    /// End of the window.
    pub limit: u64,
}

impl MmioAllocator {
    /// What was handed out lies in the window.
    pub open spec fn wf(self) -> bool {
        self.base <= self.next <= self.limit
    }

    /// The next page boundary is a machine number.
    pub open spec fn measurable(self) -> bool {
        self.next + 0xFFF <= u64::MAX
    }

    /// The window has room for `size` bytes from the next page boundary on.
    pub open spec fn has_room(self, size: u64) -> bool {
        page_up(self.next as int) + size <= self.limit
    }

    /// The address of a region of `size` bytes, if there is room.
    pub open spec fn granted(self, size: u64) -> Option<u64> {
        if self.has_room(size) {
            Some(page_up(self.next as int) as u64)
        } else {
            None
        }
    }

    /// The allocator after that.
    pub open spec fn after(self, size: u64) -> MmioAllocator {
        if self.has_room(size) {
            MmioAllocator { next: (page_up(self.next as int) + size) as u64, ..self }
        } else {
            self
        }
    }

    /// An allocator over `base..base + size`.
    pub fn new(base: u64, size: u64) -> (r: Self)
        requires
            base + size <= u64::MAX,
        ensures
            r.wf(),
            r == (MmioAllocator { base, next: base, limit: (base + size) as u64 }),
    {
        MmioAllocator { base, next: base, limit: base + size }
    }

    /// Whether [`MmioAllocator::allocate`] can look for the next page boundary.
    pub fn can_measure(&self) -> (r: bool)
        ensures
            r == self.measurable(),
    {
        self.next <= u64::MAX - 0xFFF
    }

    /// Whether the window has room for `size` bytes from the next page boundary on.
    pub fn fits(&self, size: u64) -> (r: bool)
        requires
            self.measurable(),
        ensures
            r == self.has_room(size),
    {
        match self.next_page().checked_add(size) {
            None => false,
            Some(end) => end <= self.limit,
        }
    }

    /// The next page boundary.
    fn next_page(&self) -> (r: u64)
        requires
            self.measurable(),
        ensures
            r == page_up(self.next as int),
    {
        let sum = self.next + 0xFFF;
        assert(sum & !0xFFFu64 == sum / 0x1000 * 0x1000) by (bit_vector);
        sum & !0xFFFu64
    }

    /// Hands out a region of `size` bytes that starts at a page boundary, or nothing where the
    /// window is exhausted.
    pub fn allocate(&mut self, size: u64) -> (r: Option<u64>)
        requires
            old(self).wf(),
            old(self).measurable(),
        ensures
            final(self).wf(),
            r == old(self).granted(size),
            *final(self) == old(self).after(size),
    {
        let aligned = self.next_page();
        match aligned.checked_add(size) {
            None => None,
            Some(end) => {
                if end > self.limit {
                    return None;
                }
                self.next = end;
                Some(aligned)
            },
        }
    }
}

/// A region that is handed out starts at a page boundary, lies in the window and after
/// everything that was handed out before.
pub proof fn region_is_new(mmio: MmioAllocator, size: u64)
    requires
        mmio.wf(),
        mmio.has_room(size),
    ensures
        ({
            let addr = mmio.granted(size)->0;
            &&& addr % 0x1000 == 0
            &&& mmio.base <= mmio.next <= addr
            &&& addr + size == mmio.after(size).next
            &&& addr + size <= mmio.limit
        }),
{
}

/// A request gets the first page boundary that is not below what was handed out, exactly if so many
/// bytes fit between there and the end of the window; what is handed out next comes right after.
pub proof fn requests_get_the_next_page(mmio: MmioAllocator, size: u64, page: int)
    requires
        mmio.wf(),
        mmio.measurable(),
        page % 4096 == 0,
        mmio.next <= page < mmio.next + 4096,
    ensures
        page + size <= mmio.limit ==> mmio.granted(size) == Some(page as u64) && mmio.after(size)
            == (MmioAllocator { base: mmio.base, next: (page + size) as u64, limit: mmio.limit }),
        page + size > mmio.limit ==> mmio.granted(size) is None && mmio.after(size) == mmio,
        mmio.measurable() <==> mmio.next <= u64::MAX - 4095,
{
}

} // verus!
