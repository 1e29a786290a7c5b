//! Choice of the memory region that the kernel heap is placed in.

use vstd::prelude::*;

verus! {

/// Physical addresses below this are left to the kernel image and the
/// firmware.
pub const LOW_MEMORY_END: u64 = 0x100_0000;

/// One entry of the boot-time memory map.
#[derive(Clone, Copy, Debug)]
pub struct MemoryRegion {
    /// Physical address of the first byte.
    pub base: u64,
    /// Length in bytes.
    pub length: u64,
    /// Whether the region is free for general use.
    pub usable: bool,
}

impl MemoryRegion {
    /// The region can hold a heap of `size` bytes: it is usable, starts at
    /// or above `LOW_MEMORY_END`, and is long enough.
    pub open spec fn suits(self, size: u64) -> bool {
        self.usable && self.base >= LOW_MEMORY_END && self.length >= size
    }

    /// Tests whether the region can hold a heap of `size` bytes.
    pub fn can_hold_heap(&self, size: u64) -> (r: bool)
        ensures
            r == self.suits(size),
    {
        self.usable && self.base >= LOW_MEMORY_END && self.length >= size
    }
}

/// Entry `i` is the first of the map that can hold a heap of `size` bytes.
pub open spec fn is_first_suitable(regions: Seq<MemoryRegion>, size: u64, i: int) -> bool {
    &&& 0 <= i < regions.len()
    &&& regions[i].suits(size)
    &&& forall|j: int| 0 <= j < i ==> !regions[j].suits(size)
}

/// Picks the first region of the map that can hold a heap of `size` bytes
/// and returns the virtual address of its base, `offset` bytes above the
/// physical one. `None` if no region can hold the heap, or if that address
/// does not fit in 64 bits.
pub fn find_heap_address(regions: &[MemoryRegion], offset: u64, size: u64) -> (r: Option<u64>)
    ensures
        match r {
            Some(addr) => exists|i: int|
                #[trigger] is_first_suitable(regions@, size, i) && addr == regions@[i].base
                    + offset,
            None => forall|i: int|
                #[trigger] is_first_suitable(regions@, size, i) ==> regions@[i].base + offset
                    > u64::MAX,
        },
{
    let n: usize = regions.len();
    let mut i: usize = 0;
    while i < n
        invariant
            i <= n,
            n == regions@.len(),
            forall|j: int| 0 <= j < i ==> !regions@[j].suits(size),
        decreases n - i,
    {
        if regions[i].can_hold_heap(size) {
            assert(is_first_suitable(regions@, size, i as int));
            return regions[i].base.checked_add(offset);
        }
        i = i + 1;
    }
    None
}

} // verus!
