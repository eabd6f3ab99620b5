//! The allocator that takes the module's memory from the host.
use vstd::prelude::*;

verus! {

/// `RedisAlloc` stands for the host's allocator. The host hands out blocks by
/// size alone, so a request is first widened to a whole number of alignment
/// units.
pub struct RedisAlloc;

impl RedisAlloc {
    /// The size to ask the host for: `size`, rounded up to the next multiple
    /// of `align`, which is a power of two. The result has none of the bits
    /// below `align` set.
    pub fn padded_size(size: usize, align: usize) -> (padded: usize)
        requires
            align > 0,
            align & ((align - 1) as usize) == 0,
            size + align - 1 <= usize::MAX,
        ensures
            size <= padded < size + align,
            padded & ((align - 1) as usize) == 0,
    {
        let mask: usize = align - 1;
        let top: usize = size + mask;
        let padded = top & !mask;
        assert(padded <= top && top - padded <= mask && padded & mask == 0) by (bit_vector)
            requires
                align > 0,
                align & mask == 0,
                mask == (align - 1) as usize,
                padded == top & !mask,
        ;
        padded
    }
}

} // verus!
