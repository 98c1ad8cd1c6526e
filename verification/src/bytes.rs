//! Fixed-width integers in byte strings.

use byteorder::{BigEndian, ByteOrder, LittleEndian};
use vstd::prelude::*;

verus! {

/// The 16-bit value encoded big-endian by the first two bytes of `s`.
pub open spec fn be_u16(s: Seq<u8>) -> u16 {
    ((s[0] as u16) << 8) | (s[1] as u16)
}

/// The 16-bit value encoded little-endian by the first two bytes of `s`.
pub open spec fn le_u16(s: Seq<u8>) -> u16 {
    ((s[1] as u16) << 8) | (s[0] as u16)
}

/// The 32-bit value encoded big-endian by the first four bytes of `s`.
pub open spec fn be_u32(s: Seq<u8>) -> u32 {
    ((s[0] as u32) << 24) | ((s[1] as u32) << 16) | ((s[2] as u32) << 8) | (s[3] as u32)
}

/// The 32-bit value encoded little-endian by the first four bytes of `s`.
pub open spec fn le_u32(s: Seq<u8>) -> u32 {
    ((s[3] as u32) << 24) | ((s[2] as u32) << 16) | ((s[1] as u32) << 8) | (s[0] as u32)
}

/// The four bytes that encode `n` little-endian.
pub open spec fn le_bytes(n: u32) -> Seq<u8> {
    seq![(n & 0xff) as u8, ((n >> 8) & 0xff) as u8, ((n >> 16) & 0xff) as u8, (n >> 24) as u8]
}

/// The big-endian 16-bit value at offset `pos` of `s`.
pub open spec fn be_u16_at(s: Seq<u8>, pos: int) -> u16 {
    be_u16(s.subrange(pos, pos + 2))
}

/// The big-endian 32-bit value at offset `pos` of `s`.
pub open spec fn be_u32_at(s: Seq<u8>, pos: int) -> u32 {
    be_u32(s.subrange(pos, pos + 4))
}

/// The little-endian 32-bit value at offset `pos` of `s`.
pub open spec fn le_u32_at(s: Seq<u8>, pos: int) -> u32 {
    le_u32(s.subrange(pos, pos + 4))
}

/// `s` with the four bytes from `pos` on replaced by the little-endian
/// encoding of `n`.
pub open spec fn put_le_u32(s: Seq<u8>, pos: int, n: u32) -> Seq<u8> {
    s.subrange(0, pos) + le_bytes(n) + s.subrange(pos + 4, s.len() as int)
}

/// Calls `byteorder::BigEndian::read_u16`, which decodes the first two bytes
/// of the buffer as a big-endian integer and panics on a shorter buffer.
#[verifier::external_body]
pub(crate) fn read_be_u16(buf: &[u8]) -> (r: u16)
    requires
        buf@.len() >= 2,
    ensures
        r == be_u16(buf@),
{
    BigEndian::read_u16(buf)
}

/// Calls `byteorder::BigEndian::read_u32`, which decodes the first four bytes
/// of the buffer as a big-endian integer and panics on a shorter buffer.
#[verifier::external_body]
pub(crate) fn read_be_u32(buf: &[u8]) -> (r: u32)
    requires
        buf@.len() >= 4,
    ensures
        r == be_u32(buf@),
{
    BigEndian::read_u32(buf)
}

/// Calls `byteorder::LittleEndian::read_u32`, which decodes the first four
/// bytes of the buffer as a little-endian integer and panics on a shorter
/// buffer.
#[verifier::external_body]
pub(crate) fn read_le_u32(buf: &[u8]) -> (r: u32)
    requires
        buf@.len() >= 4,
    ensures
        r == le_u32(buf@),
{
    LittleEndian::read_u32(buf)
}

/// Calls `byteorder::LittleEndian::write_u32` on the part of `buf` that
/// starts at `pos`: it overwrites four bytes with the little-endian encoding
/// of `n`, leaves the rest alone, and panics when fewer than four bytes are
/// left.
#[verifier::external_body]
pub(crate) fn write_le_u32(buf: &mut Vec<u8>, pos: usize, n: u32)
    requires
        pos + 4 <= old(buf)@.len(),
    ensures
        final(buf)@ == put_le_u32(old(buf)@, pos as int, n),
{
    LittleEndian::write_u32(&mut buf[pos..], n)
}

/// Reads the big-endian 16-bit value at `pos`.
pub fn get_be_u16(data: &[u8], pos: usize) -> (r: u16)
    requires
        pos + 2 <= data@.len(),
    ensures
        r == be_u16_at(data@, pos as int),
{
    // Calling `len` makes known that the length fits a `usize`.
    let _ = data.len();
    read_be_u16(vstd::slice::slice_subrange(data, pos, pos + 2))
}

/// Reads the big-endian 32-bit value at `pos`.
pub fn get_be_u32(data: &[u8], pos: usize) -> (r: u32)
    requires
        pos + 4 <= data@.len(),
    ensures
        r == be_u32_at(data@, pos as int),
{
    // Calling `len` makes known that the length fits a `usize`.
    let _ = data.len();
    read_be_u32(vstd::slice::slice_subrange(data, pos, pos + 4))
}

/// Reads the little-endian 32-bit value at `pos`.
pub fn get_le_u32(data: &[u8], pos: usize) -> (r: u32)
    requires
        pos + 4 <= data@.len(),
    ensures
        r == le_u32_at(data@, pos as int),
{
    // Calling `len` makes known that the length fits a `usize`.
    let _ = data.len();
    read_le_u32(vstd::slice::slice_subrange(data, pos, pos + 4))
}

} // verus!
