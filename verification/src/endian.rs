//! Fixed-width integers in byte buffers, in both byte orders.

use byteorder::ByteOrder;
use vstd::prelude::*;

verus! {

/// The 16-bit number whose low byte is `lo` and whose high byte is `hi`.
pub open spec fn u16_of(lo: u8, hi: u8) -> int {
    lo as int + 256 * (hi as int)
}

/// The 32-bit number with bytes `b0` (lowest) to `b3` (highest).
pub open spec fn u32_of(b0: u8, b1: u8, b2: u8, b3: u8) -> int {
    b0 as int + 256 * (b1 as int) + 65536 * (b2 as int) + 16777216 * (b3 as int)
}

/// Calls `byteorder::LittleEndian::read_u16`, which reads the first two
/// bytes of the buffer as a number, lowest byte first, and panics on a
/// buffer of fewer than two bytes.
#[verifier::external_body]
pub(crate) fn read_u16_le(buf: &[u8]) -> (n: u16)
    requires
        buf@.len() >= 2,
    ensures
        n as int == u16_of(buf@[0], buf@[1]),
{
    byteorder::LittleEndian::read_u16(buf)
}

/// Calls `byteorder::LittleEndian::read_u32`, which reads the first four
/// bytes of the buffer as a number, lowest byte first, and panics on a
/// buffer of fewer than four bytes.
#[verifier::external_body]
pub(crate) fn read_u32_le(buf: &[u8]) -> (n: u32)
    requires
        buf@.len() >= 4,
    ensures
        n as int == u32_of(buf@[0], buf@[1], buf@[2], buf@[3]),
{
    byteorder::LittleEndian::read_u32(buf)
}

/// Calls `byteorder::BigEndian::read_u16`, which reads the first two bytes
/// of the buffer as a number, highest byte first, and panics on a buffer of
/// fewer than two bytes.
#[verifier::external_body]
pub(crate) fn read_u16_be(buf: &[u8]) -> (n: u16)
    requires
        buf@.len() >= 2,
    ensures
        n as int == u16_of(buf@[1], buf@[0]),
{
    byteorder::BigEndian::read_u16(buf)
}

/// Calls `byteorder::BigEndian::read_u32`, which reads the first four bytes
/// of the buffer as a number, highest byte first, and panics on a buffer of
/// fewer than four bytes.
#[verifier::external_body]
pub(crate) fn read_u32_be(buf: &[u8]) -> (n: u32)
    requires
        buf@.len() >= 4,
    ensures
        n as int == u32_of(buf@[3], buf@[2], buf@[1], buf@[0]),
{
    byteorder::BigEndian::read_u32(buf)
}

/// Calls `byteorder::LittleEndian::write_u16` on a buffer of two bytes,
/// which stores the number's low byte first and its high byte second.
#[verifier::external_body]
pub(crate) fn write_u16_le(n: u16) -> (out: [u8; 2])
    ensures
        out@.len() == 2,
        out@[0] as int == n as int % 256,
        out@[1] as int == n as int / 256,
{
    let mut out = [0u8; 2];
    byteorder::LittleEndian::write_u16(&mut out, n);
    out
}

} // verus!
