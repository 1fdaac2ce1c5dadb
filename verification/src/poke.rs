//! Scalar poke: decompose a 64-bit value into 1/2/4/8 little-endian bytes
//! and write them at the start of a region.
use vstd::prelude::*;

use crate::errors::MemError;

verus! {

/// The sizes a scalar poke accepts.
pub open spec fn valid_poke_size(size: usize) -> bool {
    size == 1 || size == 2 || size == 4 || size == 8
}

/// Byte `i` of `value` in little-endian order.
pub open spec fn le_byte(value: u64, i: int) -> u8 {
    ((value >> ((8 * i) as u64)) & 0xff) as u8
}

/// The first `size` little-endian bytes of `value`.
pub open spec fn le_bytes(value: u64, size: nat) -> Seq<u8> {
    Seq::new(size, |i: int| le_byte(value, i))
}

/// Write exactly `size` little-endian bytes of `value` at the start of the
/// region; any size outside {1, 2, 4, 8} is rejected and leaves the region
/// untouched.
pub fn mem_set(region: &mut Vec<u8>, size: usize, value: u64) -> (r: Result<(), MemError>)
    requires
        valid_poke_size(size) ==> old(region)@.len() >= size,
    ensures
        r is Ok <==> valid_poke_size(size),
        r is Ok ==> final(region)@ == le_bytes(value, size as nat)
            + old(region)@.skip(size as int),
        r is Err ==> r == Err::<(), MemError>(MemError::InvalidSize)
            && final(region)@ == old(region)@,
{
    proof {
        assert(value >> ((8 * 0) as u64) == value) by (bit_vector);
    }
    match size {
        1 => {
            region[0] = (value & 0xff) as u8;
        },
        2 => {
            region[0] = (value & 0xff) as u8;
            region[1] = ((value >> 8u64) & 0xff) as u8;
        },
        4 => {
            region[0] = (value & 0xff) as u8;
            region[1] = ((value >> 8u64) & 0xff) as u8;
            region[2] = ((value >> 16u64) & 0xff) as u8;
            region[3] = ((value >> 24u64) & 0xff) as u8;
        },
        8 => {
            region[0] = (value & 0xff) as u8;
            region[1] = ((value >> 8u64) & 0xff) as u8;
            region[2] = ((value >> 16u64) & 0xff) as u8;
            region[3] = ((value >> 24u64) & 0xff) as u8;
            region[4] = ((value >> 32u64) & 0xff) as u8;
            region[5] = ((value >> 40u64) & 0xff) as u8;
            region[6] = ((value >> 48u64) & 0xff) as u8;
            region[7] = ((value >> 56u64) & 0xff) as u8;
        },
        _ => {
            return Err(MemError::InvalidSize);
        },
    }
    proof {
        assert(region@ =~= le_bytes(value, size as nat) + old(region)@.skip(size as int));
    }
    Ok(())
}

} // verus!
