//! Allocation of pixel buffers for a caller that cannot make its own.

use vstd::prelude::*;

verus! {

/// Allocates a buffer of `size` bytes, all zero.
pub fn create_buffer(size: usize) -> (buffer: Vec<u8>)
    ensures
        buffer@ == Seq::new(size as nat, |i: int| 0u8),
{
    let buffer = vec![0u8; size];
    buffer
}

} // verus!
