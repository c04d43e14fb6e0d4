//! Synchsafe numbers: seven bits to the byte.

use vstd::prelude::*;

use crate::error::{Error, ErrorKind};
use crate::util::limited::{Cursor, Limited};

verus! {

/// Whether the first four bytes are a synchsafe number: none has its high
/// bit set.
pub open spec fn is_synchsafe(b: Seq<u8>) -> bool {
    b[0] < 0x80 && b[1] < 0x80 && b[2] < 0x80 && b[3] < 0x80
}

/// The number that four synchsafe bytes hold: seven bits from each, the
/// first byte on top.
pub open spec fn synchsafe_value(b: Seq<u8>) -> u32 {
    (b[0] as u32) << 21 | (b[1] as u32) << 14 | (b[2] as u32) << 7 | (b[3] as u32)
}

/// The same number by arithmetic.
pub open spec fn synchsafe_sum(b: Seq<u8>) -> int {
    b[0] as int * 0x20_0000 + b[1] as int * 0x4000 + b[2] as int * 0x80 + b[3] as int
}

/// On synchsafe bytes the shifted bytes do not overlap, so joining them
/// with `|` adds them up, and the number stays below `2^28`.
pub proof fn lemma_synchsafe_value(b: Seq<u8>)
    requires
        is_synchsafe(b),
    ensures
        synchsafe_value(b) == synchsafe_sum(b),
        synchsafe_value(b) < 0x1000_0000,
{
    let b0 = b[0] as u32;
    let b1 = b[1] as u32;
    let b2 = b[2] as u32;
    let b3 = b[3] as u32;
    assert((b0 << 21 | b1 << 14 | b2 << 7 | b3) == b0 * 0x20_0000 + b1 * 0x4000 + b2 * 0x80 + b3
        && (b0 << 21 | b1 << 14 | b2 << 7 | b3) < 0x1000_0000) by (bit_vector)
        requires
            b0 < 0x80,
            b1 < 0x80,
            b2 < 0x80,
            b3 < 0x80,
    ;
}

/// Decodes a synchsafe number from the first four bytes of `b`: `None`
/// where a byte has its high bit set.
pub fn decode_u32(b: &[u8]) -> (r: Option<u32>)
    requires
        b@.len() >= 4,
    ensures
        r is Some <==> is_synchsafe(b@),
        r matches Some(v) ==> v == synchsafe_value(b@),
{
    if b[0] < 0x80 && b[1] < 0x80 && b[2] < 0x80 && b[3] < 0x80 {
        Some((b[0] as u32) << 21 | (b[1] as u32) << 14 | (b[2] as u32) << 7 | (b[3] as u32))
    } else {
        None
    }
}

/// Reads four bytes and decodes a synchsafe number from them.
pub fn read_u32(rd: &mut Limited<Cursor<'_>>) -> (r: Result<Option<u32>, Error>)
    ensures
        r is Ok <==> 4 <= old(rd).window().len(),
        r matches Ok(v) ==> {
            &&& v is Some <==> is_synchsafe(old(rd).window())
            &&& v matches Some(n) ==> n == synchsafe_value(old(rd).window())
            &&& final(rd).advanced(old(rd), 4)
            &&& final(rd).window() == old(rd).window().skip(4)
        },
        r matches Err(e) ==> e.kind == ErrorKind::UnexpectedEof,
{
    match rd.take_exact(4) {
        Ok(b) => Ok(decode_u32(b)),
        Err(e) => Err(e),
    }
}

} // verus!
