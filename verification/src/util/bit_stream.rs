//! A reader of bit fields, and what its reads mean.

use vstd::arithmetic::power2::{
    lemma2_to64, lemma2_to64_rest, lemma_pow2_adds, lemma_pow2_pos, pow2,
};
use vstd::prelude::*;

use crate::error::{Error, ErrorKind};
use crate::util::bits::{bits_u8, div_rem, get_bits_u8};

verus! {

/// The bit at position `i` of a buffer, position 0 being the most
/// significant bit of the first byte.
pub open spec fn bit_at(data: Seq<u8>, i: int) -> nat {
    (data[i / 8] as nat / pow2((7 - i % 8) as nat)) % 2
}

/// The number that the `n` bits from position `pos` on spell, most
/// significant bit first.
pub open spec fn bits_value(data: Seq<u8>, pos: int, n: nat) -> nat
    decreases n,
{
    if n == 0 {
        0
    } else {
        2 * bits_value(data, pos, (n - 1) as nat) + bit_at(data, pos + n - 1)
    }
}

/// `n` bits spell a number below `2^n`.
pub proof fn lemma_bits_value_bound(data: Seq<u8>, pos: int, n: nat)
    ensures
        bits_value(data, pos, n) < pow2(n),
    decreases n,
{
    lemma2_to64();
    if n > 0 {
        lemma_bits_value_bound(data, pos, (n - 1) as nat);
        lemma_pow2_adds((n - 1) as nat, 1);
    }
}

/// Bit consumption is associative: a read of `n` bits followed by a read of
/// `m` bits gives the high and the low part of what one read of `n + m` bits
/// gives at the same position.
pub proof fn lemma_bits_value_split(data: Seq<u8>, pos: int, n: nat, m: nat)
    ensures
        bits_value(data, pos, n + m) == bits_value(data, pos, n) * pow2(m) + bits_value(
            data,
            pos + n,
            m,
        ),
    decreases m,
{
    lemma2_to64();
    if m == 0 {
        assert(bits_value(data, pos + n, 0) == 0);
        assert(bits_value(data, pos, n) * pow2(0) == bits_value(data, pos, n));
    } else {
        let m1 = (m - 1) as nat;
        lemma_bits_value_split(data, pos, n, m1);
        lemma_pow2_adds(m1, 1);
        let a = bits_value(data, pos, n) as int;
        let p = pow2(m1) as int;
        assert(pow2(m) == p * 2);
        assert(2 * (a * p) == a * (p * 2)) by (nonlinear_arith);
        assert(((n + m) - 1) as nat == n + m1);
        assert(bits_value(data, pos, n + m) == 2 * bits_value(data, pos, n + m1) + bit_at(
            data,
            pos + (n + m) - 1,
        ));
        assert(bits_value(data, pos + n, m) == 2 * bits_value(data, pos + n, m1) + bit_at(
            data,
            pos + n + m - 1,
        ));
    }
}

/// The bits of one byte: `n` bits that start `s` bits into byte `k` are
/// that byte without its `8 - s - n` low bits, modulo `2^n`.
pub proof fn lemma_bits_in_byte(data: Seq<u8>, k: int, s: nat, n: nat)
    requires
        s + n <= 8,
    ensures
        bits_value(data, 8 * k + s, n) == (data[k] as nat / pow2((8 - s - n) as nat)) % pow2(n),
    decreases n,
{
    lemma2_to64();
    let b = data[k] as nat;
    let e = (8 - s - n) as nat;
    if n > 0 {
        let n1 = (n - 1) as nat;
        lemma_bits_in_byte(data, k, s, n1);
        let i = 8 * k + s + n - 1;
        assert(i / 8 == k && i % 8 == s + n - 1);
        assert(bit_at(data, i) == (b / pow2(e)) % 2);
        assert(bits_value(data, 8 * k + s, n1) == (b / pow2(e + 1)) % pow2(n1));
        lemma_pow2_adds(e, 1);
        lemma_pow2_adds(n1, 1);
        lemma_pow2_pos(e);
        lemma_pow2_pos(n1);
        lemma_halving(b as int, pow2(e) as int, pow2(n1) as int);
    }
}

/// Dropping one more low bit and one high bit: for `q = b / d`,
/// `2 * ((q / 2) % m) + q % 2 == q % (2 * m)`.
proof fn lemma_halving(b: int, d: int, m: int)
    requires
        0 <= b,
        0 < d,
        0 < m,
    ensures
        2 * ((b / (d * 2)) % m) + (b / d) % 2 == (b / d) % (m * 2),
{
    let q = b / d;
    assert(b / (d * 2) == q / 2) by {
        vstd::arithmetic::div_mod::lemma_div_denominator(b, d, 2);
    }
    let h = q / 2;
    assert(q == 2 * h + q % 2);
    assert(h == m * (h / m) + h % m) by {
        vstd::arithmetic::div_mod::lemma_fundamental_div_mod(h, m);
    }
    assert(q == (m * 2) * (h / m) + (2 * (h % m) + q % 2)) by (nonlinear_arith)
        requires
            q == 2 * h + q % 2,
            h == m * (h / m) + h % m,
    ;
    assert(0 <= h % m < m);
    assert(0 <= 2 * (h % m) + q % 2 < m * 2);
    vstd::arithmetic::div_mod::lemma_fundamental_div_mod_converse(
        q,
        m * 2,
        h / m,
        2 * (h % m) + q % 2,
    );
}

/// What `bits_u8` computes with shifts is a division and a remainder.
pub proof fn lemma_bits_u8(b: u8, lo: u8, hi: u8)
    requires
        lo < hi <= 8,
    ensures
        bits_u8(b, lo, hi) == (b as nat / pow2(lo as nat)) % pow2((hi - lo) as nat),
{
    let w = b as u32;
    let l = lo as u32;
    let n = (hi - lo) as u32;
    assert((((b << ((8 - hi) as u8)) >> ((8 - hi) as u8)) >> lo) as u32 == (w >> l) % (1u32 << n))
        by (bit_vector)
        requires
            lo < hi <= 8,
            w == b as u32,
            l == lo as u32,
            n == (hi - lo) as u32,
    ;
    lemma2_to64();
    vstd::bits::lemma_u32_shr_is_div(w, l);
    vstd::bits::lemma_u32_shl_is_mul(1u32, n);
}

/// The first read of a run: the low `8 - s` bits of byte `k`.
proof fn lemma_first_bits(data: Seq<u8>, k: int, s: nat, x: u8)
    requires
        0 <= k < data.len(),
        s < 8,
        x == bits_u8(data[k], 0, (8 - s) as u8),
    ensures
        x == bits_value(data, 8 * k + s, (8 - s) as nat),
{
    lemma2_to64();
    lemma_bits_u8(data[k], 0, (8 - s) as u8);
    lemma_bits_in_byte(data, k, s, (8 - s) as nat);
    lemma_bits_value_bound(data, 8 * k + s, (8 - s) as nat);
}

/// A read inside one byte: `n` bits that start `s` bits into byte `k`.
proof fn lemma_inner_bits(data: Seq<u8>, k: int, s: nat, n: nat, x: u8)
    requires
        0 <= k < data.len(),
        0 < n,
        s + n <= 8,
        x == bits_u8(data[k], (8 - s - n) as u8, (8 - s) as u8),
    ensures
        x == bits_value(data, 8 * k + s, n),
{
    lemma_bits_u8(data[k], (8 - s - n) as u8, (8 - s) as u8);
    lemma_bits_in_byte(data, k, s, n);
}

/// Appending the whole byte `k` to `n` bits that end where it starts.
proof fn lemma_extend_byte(data: Seq<u8>, pos: int, n: nat, k: int, r: u64)
    requires
        0 <= k < data.len(),
        pos + n == 8 * k,
        n <= 56,
        r == bits_value(data, pos, n),
    ensures
        (r << 8 | data[k] as u64) == bits_value(data, pos, n + 8),
{
    let w = data[k] as u64;
    lemma2_to64();
    lemma2_to64_rest();
    lemma_bits_value_bound(data, pos, n);
    if n < 56 {
        vstd::arithmetic::power2::lemma_pow2_strictly_increases(n, 56);
    }
    assert((r << 8 | w) == r * 256 + w) by (bit_vector)
        requires
            r < 0x100_0000_0000_0000,
            w < 256,
    ;
    lemma_bits_value_split(data, pos, n, 8);
    lemma_bits_in_byte(data, k, 0, 8);
    assert(8 * k + 0nat == pos + n);
    assert(pow2(0) == 1 && pow2(8) == 256);
    assert(bits_value(data, 8 * k + 0nat, 8) == (data[k] as nat / pow2(0)) % pow2(8));
    assert(bits_value(data, pos + n, 8) == data[k] as nat);
    assert(r * pow2(8) == r * 256);
}

/// Appending the `m` high bits of byte `k` to `n` bits that end where it
/// starts.
proof fn lemma_extend_bits(data: Seq<u8>, pos: int, n: nat, m: nat, k: int, r: u64, x: u8)
    requires
        0 <= k < data.len(),
        pos + n == 8 * k,
        0 < m < 8,
        n + m <= 64,
        r == bits_value(data, pos, n),
        x == bits_u8(data[k], (8 - m) as u8, 8),
    ensures
        (r << (m as u64) | x as u64) == bits_value(data, pos, n + m),
{
    let w = x as u64;
    let sh = m as u64;
    lemma2_to64();
    lemma2_to64_rest();
    lemma_bits_u8(data[k], (8 - m) as u8, 8);
    lemma_bits_in_byte(data, k, 0, m);
    lemma_bits_value_bound(data, pos, n);
    lemma_bits_value_bound(data, pos + n, m);
    lemma_bits_value_split(data, pos, n, m);
    vstd::bits::lemma_u64_shl_is_mul(1u64, sh);
    vstd::bits::lemma_u64_shl_is_mul(1u64, (64 - m) as u64);
    if n < 64 - m {
        vstd::arithmetic::power2::lemma_pow2_strictly_increases(n, (64 - m) as nat);
    }
    assert(r < (1u64 << ((64 - sh) as u64)));
    assert(w < (1u64 << sh));
    assert((r << sh | w) == r * (1u64 << sh) + w) by (bit_vector)
        requires
            0 < sh < 8,
            w < (1u64 << sh),
            r < (1u64 << ((64 - sh) as u64)),
    ;
}

/// A reader of bit fields from a byte buffer: it holds the buffer and a
/// position counted in bits, each byte read from its most significant bit
/// down.
pub struct BitReader<'a> {
    inner: &'a [u8],
    pos: usize,
}

impl<'a> BitReader<'a> {
    /// The buffer.
    pub closed spec fn data(&self) -> Seq<u8> {
        self.inner@
    }

    /// The position, in bits from the start of the buffer.
    pub closed spec fn spec_pos(&self) -> usize {
        self.pos
    }

    /// Whether `n` bits can be read at the position: they lie inside the
    /// buffer, and the position after them can still be counted.
    pub open spec fn can_read(&self, n: nat) -> bool {
        self.spec_pos() + n <= 8 * self.data().len() && self.spec_pos() + n <= usize::MAX
    }

    /// What a read of `n` bits at the position gives.
    pub open spec fn peek(&self, n: nat) -> nat {
        bits_value(self.data(), self.spec_pos() as int, n)
    }

    pub fn new(inner: &'a [u8]) -> (r: Self)
        ensures
            r.data() == inner@,
            r.spec_pos() == 0,
    {
        BitReader { inner, pos: 0 }
    }

    #[verifier::when_used_as_spec(spec_pos)]
    pub fn pos(&self) -> (p: usize)
        ensures
            p == self.spec_pos(),
    {
        self.pos
    }

    /// Moves the position by `bit_count` bits, backwards for a negative
    /// count. It fails, and moves nothing, where the target lies before the
    /// start or cannot be counted.
    pub fn seek_relative(&mut self, bit_count: isize) -> (r: Result<usize, Error>)
        ensures
            final(self).data() == old(self).data(),
            r is Ok <==> 0 <= old(self).spec_pos() + bit_count <= usize::MAX,
            r matches Ok(p) ==> p == old(self).spec_pos() + bit_count && final(self).spec_pos()
                == p,
            r matches Err(e) ==> e.kind == ErrorKind::InvalidInput && final(self).spec_pos()
                == old(self).spec_pos(),
    {
        if bit_count < 0 {
            let back: usize = if bit_count == isize::MIN {
                (isize::MAX as usize) + 1
            } else {
                (-bit_count) as usize
            };
            if back > self.pos {
                return Err(Error::new(ErrorKind::InvalidInput, "can't seek beyond start"));
            }
            self.pos = self.pos - back;
        } else {
            let forth: usize = bit_count as usize;
            if forth > usize::MAX - self.pos {
                return Err(Error::new(ErrorKind::InvalidInput, "usize overflow"));
            }
            self.pos = self.pos + forth;
        }
        Ok(self.pos)
    }

    /// Reads `bit_count` bits as a number, most significant bit first. A
    /// read of no bits gives 0 wherever the position stands. A read that
    /// would pass the end of the buffer fails and leaves the position where
    /// it was.
    pub fn read_u64(&mut self, bit_count: usize) -> (r: Result<u64, Error>)
        requires
            bit_count <= 64,
        ensures
            final(self).data() == old(self).data(),
            r is Ok <==> bit_count == 0 || old(self).can_read(bit_count as nat),
            r matches Ok(v) ==> v == old(self).peek(bit_count as nat) && final(self).spec_pos()
                == old(self).spec_pos() + bit_count,
            r matches Err(e) ==> e.kind == ErrorKind::UnexpectedEof && final(self).spec_pos()
                == old(self).spec_pos(),
    {
        if bit_count == 0 {
            return Ok(0);
        }
        let buf: &'a [u8] = self.inner;
        let len: usize = buf.len();
        if bit_count > usize::MAX - self.pos {
            return Err(Error::new(ErrorKind::UnexpectedEof, "unexpected EOF"));
        }
        let pos: usize = self.pos;
        let next_pos: usize = pos + bit_count;
        let (next_pos_byte, next_pos_bit) = div_rem(next_pos, 8);
        if next_pos_byte > len || (next_pos_byte == len && next_pos_bit != 0) {
            return Err(Error::new(ErrorKind::UnexpectedEof, "unexpected EOF"));
        }
        let (pos_byte, pos_bit) = div_rem(pos, 8);
        self.pos = next_pos;

        let bit_start: usize = 8 - next_pos_bit;
        let bit_end: usize = 8 - pos_bit;
        let ghost data = buf@;
        if next_pos_byte > pos_byte {
            // Leftmost partial byte.
            let mut r: u64 = get_bits_u8(buf[pos_byte], 0, bit_end) as u64;
            proof {
                lemma_first_bits(data, pos_byte as int, pos_bit as nat, r as u8);
            }

            // Middle full bytes.
            let d: usize = next_pos_byte - pos_byte;
            let mut i: usize = 1;
            while i < d
                invariant
                    1 <= i <= d,
                    d == next_pos_byte - pos_byte,
                    next_pos_byte <= len,
                    len == buf@.len(),
                    data == buf@,
                    pos == 8 * pos_byte + pos_bit,
                    bit_end == 8 - pos_bit,
                    1 <= bit_end <= 8,
                    bit_end + 8 * (d - 1) <= 64,
                    r == bits_value(data, pos as int, (bit_end + 8 * (i - 1)) as nat),
                decreases d - i,
            {
                let b: u8 = buf[pos_byte + i];
                proof {
                    lemma_extend_byte(
                        data,
                        pos as int,
                        (bit_end + 8 * (i - 1)) as nat,
                        pos_byte + i,
                        r,
                    );
                }
                r = r << 8 | b as u64;
                i += 1;
            }

            // Rightmost partial byte.
            if bit_start < 8 {
                let x: u8 = get_bits_u8(buf[next_pos_byte], bit_start, 8);
                proof {
                    lemma_extend_bits(
                        data,
                        pos as int,
                        (bit_end + 8 * (d - 1)) as nat,
                        next_pos_bit as nat,
                        next_pos_byte as int,
                        r,
                        x,
                    );
                }
                r = r << next_pos_bit | x as u64;
            }
            Ok(r)
        } else {
            let x: u8 = get_bits_u8(buf[pos_byte], bit_start, bit_end);
            proof {
                lemma_inner_bits(data, pos_byte as int, pos_bit as nat, bit_count as nat, x);
            }
            Ok(x as u64)
        }
    }

    /// Reads up to 8 bits as a number.
    pub fn read_u8(&mut self, bit_count: usize) -> (r: Result<u8, Error>)
        requires
            bit_count <= 8,
        ensures
            final(self).data() == old(self).data(),
            r is Ok <==> bit_count == 0 || old(self).can_read(bit_count as nat),
            r matches Ok(v) ==> v == old(self).peek(bit_count as nat) && final(self).spec_pos()
                == old(self).spec_pos() + bit_count,
            r matches Err(e) ==> e.kind == ErrorKind::UnexpectedEof && final(self).spec_pos()
                == old(self).spec_pos(),
    {
        proof {
            lemma2_to64();
            lemma_bits_value_bound(self.data(), self.spec_pos() as int, bit_count as nat);
            if bit_count < 8 {
                vstd::arithmetic::power2::lemma_pow2_strictly_increases(bit_count as nat, 8);
            }
        }
        match self.read_u64(bit_count) {
            Ok(v) => Ok(v as u8),
            Err(e) => Err(e),
        }
    }

    /// Reads up to 16 bits as a number.
    pub fn read_u16(&mut self, bit_count: usize) -> (r: Result<u16, Error>)
        requires
            bit_count <= 16,
        ensures
            final(self).data() == old(self).data(),
            r is Ok <==> bit_count == 0 || old(self).can_read(bit_count as nat),
            r matches Ok(v) ==> v == old(self).peek(bit_count as nat) && final(self).spec_pos()
                == old(self).spec_pos() + bit_count,
            r matches Err(e) ==> e.kind == ErrorKind::UnexpectedEof && final(self).spec_pos()
                == old(self).spec_pos(),
    {
        proof {
            lemma2_to64();
            lemma_bits_value_bound(self.data(), self.spec_pos() as int, bit_count as nat);
            if bit_count < 16 {
                vstd::arithmetic::power2::lemma_pow2_strictly_increases(bit_count as nat, 16);
            }
        }
        match self.read_u64(bit_count) {
            Ok(v) => Ok(v as u16),
            Err(e) => Err(e),
        }
    }

    /// Reads up to 32 bits as a number.
    pub fn read_u32(&mut self, bit_count: usize) -> (r: Result<u32, Error>)
        requires
            bit_count <= 32,
        ensures
            final(self).data() == old(self).data(),
            r is Ok <==> bit_count == 0 || old(self).can_read(bit_count as nat),
            r matches Ok(v) ==> v == old(self).peek(bit_count as nat) && final(self).spec_pos()
                == old(self).spec_pos() + bit_count,
            r matches Err(e) ==> e.kind == ErrorKind::UnexpectedEof && final(self).spec_pos()
                == old(self).spec_pos(),
    {
        proof {
            lemma2_to64();
            lemma_bits_value_bound(self.data(), self.spec_pos() as int, bit_count as nat);
            if bit_count < 32 {
                vstd::arithmetic::power2::lemma_pow2_strictly_increases(bit_count as nat, 32);
            }
        }
        match self.read_u64(bit_count) {
            Ok(v) => Ok(v as u32),
            Err(e) => Err(e),
        }
    }

    /// Reads up to 32 bits and tells whether any of them is set.
    pub fn read_bool(&mut self, bit_count: usize) -> (r: Result<bool, Error>)
        requires
            bit_count <= 32,
        ensures
            final(self).data() == old(self).data(),
            r is Ok <==> bit_count == 0 || old(self).can_read(bit_count as nat),
            r matches Ok(v) ==> {
                &&& v == (old(self).peek(bit_count as nat) != 0)
                &&& final(self).spec_pos() == old(self).spec_pos() + bit_count
            },
            r matches Err(e) ==> e.kind == ErrorKind::UnexpectedEof && final(self).spec_pos()
                == old(self).spec_pos(),
    {
        match self.read_u32(bit_count) {
            Ok(v) => Ok(v != 0),
            Err(e) => Err(e),
        }
    }

    /// The whole bytes from the position to the end of the buffer that a
    /// read can reach while the position stays countable.
    pub open spec fn rest_bytes(&self) -> Seq<u8> {
        let first = self.spec_pos() as int / 8;
        if first <= self.data().len() {
            let all = self.data().skip(first);
            let countable = (usize::MAX - self.spec_pos()) / 8;
            if countable < all.len() {
                all.take(countable)
            } else {
                all
            }
        } else {
            Seq::empty()
        }
    }

    /// Copies whole bytes from a position on a byte boundary into the
    /// front of `buf`, as many as both allow. It never fails; the
    /// result is a `Result` as that of any read.
    pub fn read(&mut self, buf: &mut [u8]) -> (r: Result<usize, Error>)
        requires
            old(self).spec_pos() % 8 == 0,
        ensures
            final(self).data() == old(self).data(),
            r matches Ok(n) && {
                &&& n == if old(buf)@.len() <= old(self).rest_bytes().len() {
                    old(buf)@.len()
                } else {
                    old(self).rest_bytes().len()
                }
                &&& final(buf)@ == old(self).rest_bytes().take(n as int) + old(buf)@.skip(n as int)
                &&& final(self).spec_pos() == old(self).spec_pos() + 8 * n
            },
    {
        let src: &'a [u8] = self.inner;
        let len: usize = src.len();
        let (pos_byte, _pos_bit) = div_rem(self.pos, 8);
        let left: usize = if pos_byte <= len { len - pos_byte } else { 0 };
        let countable: usize = (usize::MAX - self.pos) / 8;
        let avail: usize = if countable < left { countable } else { left };
        let n: usize = if buf.len() <= avail { buf.len() } else { avail };
        let mut i: usize = 0;
        while i < n
            invariant
                i <= n,
                n <= buf@.len(),
                n <= old(self).rest_bytes().len(),
                buf@.len() == old(buf)@.len(),
                src@ == old(self).data(),
                len == src@.len(),
                pos_byte == old(self).spec_pos() as int / 8,
                n > 0 ==> pos_byte + n <= len,
                buf@ == old(self).rest_bytes().take(i as int) + old(buf)@.skip(i as int),
            decreases n - i,
        {
            buf[i] = src[pos_byte + i];
            i += 1;
        }
        self.pos = self.pos + 8 * n;
        Ok(n)
    }

    /// Fills `buf` with whole bytes from a position on a byte boundary, or
    /// fails where fewer are left.
    pub fn read_exact(&mut self, buf: &mut [u8]) -> (r: Result<(), Error>)
        requires
            old(self).spec_pos() % 8 == 0,
        ensures
            final(self).data() == old(self).data(),
            r is Ok <==> old(buf)@.len() <= old(self).rest_bytes().len(),
            r is Ok ==> {
                &&& final(buf)@ == old(self).rest_bytes().take(old(buf)@.len() as int)
                &&& final(self).spec_pos() == old(self).spec_pos() + 8 * old(buf)@.len()
            },
            r matches Err(e) ==> e.kind == ErrorKind::UnexpectedEof,
    {
        let len: usize = buf.len();
        match self.read(buf) {
            Ok(n) => {
                if n == len {
                    assert(buf@ =~= old(self).rest_bytes().take(len as int));
                    Ok(())
                } else {
                    Err(Error::new(ErrorKind::UnexpectedEof, "failed to fill whole buffer"))
                }
            },
            Err(e) => Err(e),
        }
    }
}

} // verus!