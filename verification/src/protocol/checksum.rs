use vstd::prelude::*;
use crate::protocol::crc::{calculate_crc32, crc32_of};

verus! {

/// CRC32 checksum of `data`.
pub fn calculate(data: &[u8]) -> (r: u32)
    ensures
        r == crc32_of(data@),
{
    calculate_crc32(data)
}

/// Whether `data` has the checksum `expected`.
pub fn verify(data: &[u8], expected: u32) -> (r: bool)
    ensures
        r == (crc32_of(data@) == expected),
{
    calculate(data) == expected
}

} // verus!
