//! Little-endian integers in byte buffers, read with `byteorder`.

use byteorder::{ByteOrder, LittleEndian};
use vstd::prelude::*;

verus! {

/// The value of the little-endian 16-bit integer that starts at `off` in `b`.
pub open spec fn le_u16_at(b: Seq<u8>, off: int) -> int {
    b[off] + 256 * b[off + 1]
}

/// The value of the little-endian 32-bit integer that starts at `off` in `b`.
pub open spec fn le_u32_at(b: Seq<u8>, off: int) -> int {
    b[off] + 256 * b[off + 1] + 65536 * b[off + 2] + 16777216 * b[off + 3]
}

/// Calls `LittleEndian::read_u16`, which reads the first two bytes of `buf`,
/// low byte first, and panics when `buf` holds fewer than two.
#[verifier::external_body]
pub(crate) fn read_le_u16(buf: &[u8]) -> (v: u16)
    requires
        buf@.len() >= 2,
    ensures
        v == le_u16_at(buf@, 0),
{
    LittleEndian::read_u16(buf)
}

/// Calls `LittleEndian::read_u32`, which reads the first four bytes of `buf`,
/// lowest byte first, and panics when `buf` holds fewer than four.
#[verifier::external_body]
pub(crate) fn read_le_u32(buf: &[u8]) -> (v: u32)
    requires
        buf@.len() >= 4,
    ensures
        v == le_u32_at(buf@, 0),
{
    LittleEndian::read_u32(buf)
}

} // verus!
