use vstd::prelude::*;

verus! {

/// CRC32 of empty data.
pub const EMPTY: u32 = 0x00000000;
/// CRC32 of "123456789".
pub const TEST_STRING: u32 = 0xCBF43926;
/// CRC32 of a single null byte.
pub const NULL_BYTE: u32 = 0xD202EF8D;
/// Reference value kept for the "CNXN" command bytes.
pub const CNXN_COMMAND: u32 = 0x7C54F71A;
/// Reference value kept for "host:version".
pub const HOST_VERSION: u32 = 0x8B5C2F3E;

} // verus!
