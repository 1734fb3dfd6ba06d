//! Per-block bookkeeping of town generation.
use vstd::prelude::*;

verus! {

/// The seed of the random stream of block `block_idx`: the town seed plus
/// the block index, wrapping around on overflow.
pub fn block_seed(seed: u64, block_idx: usize) -> (s: u64)
    ensures
        s as int == (seed as int + block_idx as int) % 0x1_0000_0000_0000_0000,
{
    let idx = block_idx as u64;
    let s = seed.wrapping_add(idx);
    proof {
        assert(idx as int == block_idx as int);
        if seed as int + idx as int > u64::MAX as int {
            assert((seed as int + idx as int) % 0x1_0000_0000_0000_0000 == seed as int + idx as int
                - 0x1_0000_0000_0000_0000);
        } else {
            assert((seed as int + idx as int) % 0x1_0000_0000_0000_0000 == seed as int + idx as int);
        }
    }
    s
}

/// The id a block is stored under: its index, truncated to 32 bits.
pub fn block_id(block_idx: usize) -> (id: u32)
    ensures
        id as int == block_idx as int % 0x1_0000_0000,
{
    let wide = block_idx as u64;
    let id = wide as u32;
    assert(id as u64 == wide % 0x1_0000_0000) by (bit_vector)
        requires
            id == wide as u32,
    ;
    assert(wide as int == block_idx as int);
    id
}

} // verus!
