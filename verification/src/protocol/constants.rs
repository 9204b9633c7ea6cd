use vstd::prelude::*;
use crate::wire::le32;

verus! {

/// Protocol version announced in CNXN messages.
pub const VERSION: u32 = 0x01000000;
/// Largest payload the server accepts (256 KiB).
pub const MAXDATA: usize = 262144;
/// TCP port the server listens on by default.
pub const DEFAULT_PORT: u16 = 5037;

pub const CNXN: u32 = 0x4e584e43;
pub const OPEN: u32 = 0x4e45504f;
pub const OKAY: u32 = 0x59414b4f;
pub const WRTE: u32 = 0x45545257;
pub const CLSE: u32 = 0x45534c43;
pub const AUTH: u32 = 0x48545541;
pub const PING: u32 = 0x474e4950;
pub const PONG: u32 = 0x474e4f50;

// Magic values: the bitwise complement of each command code.
pub const CNXN_MAGIC: u32 = 0xb1a7b1bc;
pub const OPEN_MAGIC: u32 = 0xb1baafb0;
pub const OKAY_MAGIC: u32 = 0xa6beb4b0;
pub const WRTE_MAGIC: u32 = 0xbaabada8;
pub const CLSE_MAGIC: u32 = 0xbaacb3bc;
pub const AUTH_MAGIC: u32 = 0xb7abaabe;
pub const PING_MAGIC: u32 = 0xb8b1b6af;
pub const PONG_MAGIC: u32 = 0xb8b1b0af;

/// Each magic constant is the complement of its command.
pub proof fn lemma_magic_constants()
    ensures
        CNXN_MAGIC == !CNXN,
        OPEN_MAGIC == !OPEN,
        OKAY_MAGIC == !OKAY,
        WRTE_MAGIC == !WRTE,
        CLSE_MAGIC == !CLSE,
        AUTH_MAGIC == !AUTH,
        PING_MAGIC == !PING,
        PONG_MAGIC == !PONG,
{
    assert(0xb1a7b1bcu32 == !0x4e584e43u32) by (bit_vector);
    assert(0xb1baafb0u32 == !0x4e45504fu32) by (bit_vector);
    assert(0xa6beb4b0u32 == !0x59414b4fu32) by (bit_vector);
    assert(0xbaabada8u32 == !0x45545257u32) by (bit_vector);
    assert(0xbaacb3bcu32 == !0x45534c43u32) by (bit_vector);
    assert(0xb7abaabeu32 == !0x48545541u32) by (bit_vector);
    assert(0xb8b1b6afu32 == !0x474e4950u32) by (bit_vector);
    assert(0xb8b1b0afu32 == !0x474e4f50u32) by (bit_vector);
}


/// On the wire each command reads as its four-letter name in ASCII.
pub proof fn lemma_command_names()
    ensures
        le32(CNXN) == seq![67u8, 78u8, 88u8, 78u8],
        le32(OPEN) == seq![79u8, 80u8, 69u8, 78u8],
        le32(OKAY) == seq![79u8, 75u8, 65u8, 89u8],
        le32(WRTE) == seq![87u8, 82u8, 84u8, 69u8],
        le32(CLSE) == seq![67u8, 76u8, 83u8, 69u8],
        le32(AUTH) == seq![65u8, 85u8, 84u8, 72u8],
        le32(PING) == seq![80u8, 73u8, 78u8, 71u8],
        le32(PONG) == seq![80u8, 79u8, 78u8, 71u8],
{
    assert((0x4e584e43u32 & 0xff) as u8 == 67u8 && ((0x4e584e43u32 >> 8u32) & 0xff) as u8 == 78u8
        && ((0x4e584e43u32 >> 16u32) & 0xff) as u8 == 88u8 && ((0x4e584e43u32 >> 24u32) & 0xff) as u8 == 78u8) by (bit_vector);
    assert(le32(CNXN) =~= seq![67u8, 78u8, 88u8, 78u8]);
    assert((0x4e45504fu32 & 0xff) as u8 == 79u8 && ((0x4e45504fu32 >> 8u32) & 0xff) as u8 == 80u8
        && ((0x4e45504fu32 >> 16u32) & 0xff) as u8 == 69u8 && ((0x4e45504fu32 >> 24u32) & 0xff) as u8 == 78u8) by (bit_vector);
    assert(le32(OPEN) =~= seq![79u8, 80u8, 69u8, 78u8]);
    assert((0x59414b4fu32 & 0xff) as u8 == 79u8 && ((0x59414b4fu32 >> 8u32) & 0xff) as u8 == 75u8
        && ((0x59414b4fu32 >> 16u32) & 0xff) as u8 == 65u8 && ((0x59414b4fu32 >> 24u32) & 0xff) as u8 == 89u8) by (bit_vector);
    assert(le32(OKAY) =~= seq![79u8, 75u8, 65u8, 89u8]);
    assert((0x45545257u32 & 0xff) as u8 == 87u8 && ((0x45545257u32 >> 8u32) & 0xff) as u8 == 82u8
        && ((0x45545257u32 >> 16u32) & 0xff) as u8 == 84u8 && ((0x45545257u32 >> 24u32) & 0xff) as u8 == 69u8) by (bit_vector);
    assert(le32(WRTE) =~= seq![87u8, 82u8, 84u8, 69u8]);
    assert((0x45534c43u32 & 0xff) as u8 == 67u8 && ((0x45534c43u32 >> 8u32) & 0xff) as u8 == 76u8
        && ((0x45534c43u32 >> 16u32) & 0xff) as u8 == 83u8 && ((0x45534c43u32 >> 24u32) & 0xff) as u8 == 69u8) by (bit_vector);
    assert(le32(CLSE) =~= seq![67u8, 76u8, 83u8, 69u8]);
    assert((0x48545541u32 & 0xff) as u8 == 65u8 && ((0x48545541u32 >> 8u32) & 0xff) as u8 == 85u8
        && ((0x48545541u32 >> 16u32) & 0xff) as u8 == 84u8 && ((0x48545541u32 >> 24u32) & 0xff) as u8 == 72u8) by (bit_vector);
    assert(le32(AUTH) =~= seq![65u8, 85u8, 84u8, 72u8]);
    assert((0x474e4950u32 & 0xff) as u8 == 80u8 && ((0x474e4950u32 >> 8u32) & 0xff) as u8 == 73u8
        && ((0x474e4950u32 >> 16u32) & 0xff) as u8 == 78u8 && ((0x474e4950u32 >> 24u32) & 0xff) as u8 == 71u8) by (bit_vector);
    assert(le32(PING) =~= seq![80u8, 73u8, 78u8, 71u8]);
    assert((0x474e4f50u32 & 0xff) as u8 == 80u8 && ((0x474e4f50u32 >> 8u32) & 0xff) as u8 == 79u8
        && ((0x474e4f50u32 >> 16u32) & 0xff) as u8 == 78u8 && ((0x474e4f50u32 >> 24u32) & 0xff) as u8 == 71u8) by (bit_vector);
    assert(le32(PONG) =~= seq![80u8, 79u8, 78u8, 71u8]);
}

} // verus!
