//! Bit fields of bytes and words, and numbers of fixed byte order.

use vstd::prelude::*;

verus! {

/// The bits `lo..hi` of a 32-bit word, bit 0 being the least significant.
pub open spec fn bits_u32(v: u32, lo: u32, hi: u32) -> u32 {
    if lo == hi {
        0
    } else {
        ((v << ((32 - hi) as u32)) >> ((32 - hi) as u32)) >> lo
    }
}

/// Whether bit `bit` of a 32-bit word is set.
pub open spec fn bit_u32(v: u32, bit: u32) -> bool {
    v & (1u32 << bit) != 0
}

/// The bits `lo..hi` of a byte, bit 0 being the least significant.
pub open spec fn bits_u8(v: u8, lo: u8, hi: u8) -> u8 {
    if lo == hi {
        0
    } else {
        ((v << ((8 - hi) as u8)) >> ((8 - hi) as u8)) >> lo
    }
}

/// Whether bit `bit` of a byte is set.
pub open spec fn bit_u8(v: u8, bit: u8) -> bool {
    v & (1u8 << bit) != 0
}

/// `bit_field::BitField::get_bit` on `u32`: masks the word with `1 << bit`
/// and tests the result against zero. The outside function panics for
/// `bit >= 32`.
#[verifier::external_body]
pub(crate) fn get_bit_u32(v: u32, bit: usize) -> (r: bool)
    requires
        bit < 32,
    ensures
        r == bit_u32(v, bit as u32),
{
    bit_field::BitField::get_bit(&v, bit)
}

/// `bit_field::BitField::get_bits` on `u32` with the range `lo..hi`: shifts
/// the bits above `hi` out to the left and back, then the bits below `lo`
/// out to the right; an empty range gives 0. The outside function panics
/// unless `lo < 32`, `hi <= 32` and `lo <= hi`.
#[verifier::external_body]
pub(crate) fn get_bits_u32(v: u32, lo: usize, hi: usize) -> (r: u32)
    requires
        lo <= hi <= 32,
        lo < 32,
    ensures
        r == bits_u32(v, lo as u32, hi as u32),
{
    bit_field::BitField::get_bits(&v, lo..hi)
}

/// `bit_field::BitField::get_bit` on `u8`, as `get_bit_u32` for a byte.
#[verifier::external_body]
pub(crate) fn get_bit_u8(v: u8, bit: usize) -> (r: bool)
    requires
        bit < 8,
    ensures
        r == bit_u8(v, bit as u8),
{
    bit_field::BitField::get_bit(&v, bit)
}

/// `bit_field::BitField::get_bits` on `u8`, as `get_bits_u32` for a byte.
#[verifier::external_body]
pub(crate) fn get_bits_u8(v: u8, lo: usize, hi: usize) -> (r: u8)
    requires
        lo <= hi <= 8,
        lo < 8,
    ensures
        r == bits_u8(v, lo as u8, hi as u8),
{
    bit_field::BitField::get_bits(&v, lo..hi)
}

/// `num::Integer::div_rem` on `usize`: the truncated quotient and the
/// remainder. The outside function panics for a zero divisor.
#[verifier::external_body]
pub(crate) fn div_rem(a: usize, b: usize) -> (r: (usize, usize))
    requires
        b != 0,
    ensures
        r.0 == a / b,
        r.1 == a % b,
{
    num::Integer::div_rem(&a, &b)
}

/// The first two bytes read as a big-endian number.
pub open spec fn spec_be_u16(b: Seq<u8>) -> u16 {
    (b[0] as int * 0x100 + b[1] as int) as u16
}

/// The first four bytes read as a big-endian number.
pub open spec fn spec_be_u32(b: Seq<u8>) -> u32 {
    (b[0] as int * 0x100_0000 + b[1] as int * 0x1_0000 + b[2] as int * 0x100 + b[3] as int) as u32
}

/// The first eight bytes read as a big-endian number.
pub open spec fn spec_be_u64(b: Seq<u8>) -> u64 {
    (spec_be_u32(b) as int * 0x1_0000_0000 + spec_be_u32(b.skip(4)) as int) as u64
}

/// The first four bytes read as a little-endian number.
pub open spec fn spec_le_u32(b: Seq<u8>) -> u32 {
    (b[3] as int * 0x100_0000 + b[2] as int * 0x1_0000 + b[1] as int * 0x100 + b[0] as int) as u32
}

/// `byteorder::BigEndian::read_u16`: the first two bytes as a big-endian
/// number. The outside function panics on fewer than two bytes.
#[verifier::external_body]
pub(crate) fn be_u16(buf: &[u8]) -> (r: u16)
    requires
        buf@.len() >= 2,
    ensures
        r == spec_be_u16(buf@),
{
    <byteorder::BigEndian as byteorder::ByteOrder>::read_u16(buf)
}

/// `byteorder::BigEndian::read_u32`: the first four bytes as a big-endian
/// number. The outside function panics on fewer than four bytes.
#[verifier::external_body]
pub(crate) fn be_u32(buf: &[u8]) -> (r: u32)
    requires
        buf@.len() >= 4,
    ensures
        r == spec_be_u32(buf@),
{
    <byteorder::BigEndian as byteorder::ByteOrder>::read_u32(buf)
}

/// `byteorder::BigEndian::read_u64`: the first eight bytes as a big-endian
/// number. The outside function panics on fewer than eight bytes.
#[verifier::external_body]
pub(crate) fn be_u64(buf: &[u8]) -> (r: u64)
    requires
        buf@.len() >= 8,
    ensures
        r == spec_be_u64(buf@),
{
    <byteorder::BigEndian as byteorder::ByteOrder>::read_u64(buf)
}

/// `byteorder::LittleEndian::read_u32`: the first four bytes as a
/// little-endian number. The outside function panics on fewer than four
/// bytes.
#[verifier::external_body]
pub(crate) fn le_u32(buf: &[u8]) -> (r: u32)
    requires
        buf@.len() >= 4,
    ensures
        r == spec_le_u32(buf@),
{
    <byteorder::LittleEndian as byteorder::ByteOrder>::read_u32(buf)
}

} // verus!
