//! Memory-map snapshot sizing and zero-initialized buffer allocation.
//!
//! The firmware's memory map can grow between the sizing query and the
//! snapshot taken at boot-services exit, so the snapshot buffer is sized to
//! at least 9/8 of the reported size (an extra eighth, rounded up).

use vstd::prelude::*;

verus! {

/// Size of the memory-map snapshot buffer for a reported map size:
/// the reported size plus one eighth of it, rounded up.
pub open spec fn snapshot_buf_size_spec(map_size: nat) -> nat {
    map_size + (map_size + 7) / 8
}

/// A zero-initialized byte buffer of exactly `vec_size` bytes.
pub fn create_vec_buf(vec_size: usize) -> (r: Vec<u8>)
    ensures
        r@.len() == vec_size,
        forall|i: int| 0 <= i < r@.len() ==> r@[i] == 0u8,
{
    let mut data: Vec<u8> = Vec::with_capacity(vec_size);
    let mut i: usize = 0;
    while i < vec_size
        invariant
            i <= vec_size,
            data@.len() == i,
            forall|j: int| 0 <= j < data@.len() ==> data@[j] == 0u8,
        decreases vec_size - i,
    {
        data.push(0u8);
        i = i + 1;
    }
    data
}

/// Number of bytes to allocate for the memory-map snapshot, given the
/// firmware-reported map size. The result holds at least 9/8 of the
/// reported size, so the map still fits after moderate growth.
pub fn snapshot_buf_size(map_size: usize) -> (r: usize)
    requires
        map_size + (map_size + 7) / 8 <= usize::MAX,
    ensures
        r == snapshot_buf_size_spec(map_size as nat),
        8 * r >= 9 * map_size,
{
    proof {
        assert(8 * ((map_size + 7) / 8) >= map_size) by {
            assert((map_size + 7) == 8 * ((map_size + 7) / 8) + (map_size + 7) % 8);
        };
    }
    map_size + (map_size + 7) / 8
}

/// The memory-map snapshot buffer: zero-initialized, and at least 9/8 of the
/// reported map size.
pub fn allocate_snapshot_buffer(map_size: usize) -> (r: Vec<u8>)
    requires
        map_size + (map_size + 7) / 8 <= usize::MAX,
    ensures
        r@.len() == snapshot_buf_size_spec(map_size as nat),
        8 * r@.len() >= 9 * map_size,
        forall|i: int| 0 <= i < r@.len() ==> r@[i] == 0u8,
{
    let size = snapshot_buf_size(map_size);
    create_vec_buf(size)
}

} // verus!
