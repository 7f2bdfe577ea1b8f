//! The on-disk geometry of a block and little-endian field decoding.
//!
//! Blocks are read as they lie on disk on a little-endian host: every
//! multi-byte field has its least significant byte first.

use vstd::prelude::*;

verus! {

/// Size in bytes of one block of an index file: the capacity of a page.
pub const BLOCK_SIZE: usize = 8192;

/// Size in bytes of the fixed page header; the slot table starts here.
pub const PAGE_HEADER_SIZE: usize = 24;

/// Size in bytes of one entry of the slot table.
pub const ITEM_ID_SIZE: usize = 4;

/// Offset of the lower boundary (end of the slot table) in the header.
pub const PD_LOWER_OFFSET: usize = 12;

/// Offset of the upper boundary (start of the item data) in the header.
pub const PD_UPPER_OFFSET: usize = 14;

/// Offset of the special-region offset in the header.
pub const PD_SPECIAL_OFFSET: usize = 16;

/// Size in bytes of the trailing metadata of an index page.
pub const OPAQUE_SIZE: usize = 16;

/// Size in bytes of the fixed head of an index entry.
pub const INDEX_TUPLE_HEAD_SIZE: usize = 8;

/// The 16-bit little-endian number at `at` in `bytes`.
pub open spec fn u16_at(bytes: Seq<u8>, at: int) -> int
    recommends
        0 <= at,
        at + 2 <= bytes.len(),
{
    bytes[at] as int + 256 * (bytes[at + 1] as int)
}

/// The 32-bit little-endian number at `at` in `bytes`.
pub open spec fn u32_at(bytes: Seq<u8>, at: int) -> int
    recommends
        0 <= at,
        at + 4 <= bytes.len(),
{
    u16_at(bytes, at) + 65536 * u16_at(bytes, at + 2)
}

/// Reads the 16-bit little-endian number at `at`.
pub fn read_u16(bytes: &[u8], at: usize) -> (r: u16)
    requires
        at + 2 <= bytes.len(),
    ensures
        r as int == u16_at(bytes@, at as int),
{
    let lo: u16 = bytes[at] as u16;
    let hi: u16 = bytes[at + 1] as u16;
    hi * 256 + lo
}

/// Reads the 32-bit little-endian number at `at`.
pub fn read_u32(bytes: &[u8], at: usize) -> (r: u32)
    requires
        at + 4 <= bytes.len(),
    ensures
        r as int == u32_at(bytes@, at as int),
{
    let lo: u32 = read_u16(bytes, at) as u32;
    let hi: u32 = read_u16(bytes, at + 2) as u32;
    hi * 65536 + lo
}

} // verus!
