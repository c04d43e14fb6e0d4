//! A byte source in memory, and a reader that confines reads to a budget.

use vstd::prelude::*;

use crate::error::{Error, ErrorKind};
use crate::util::bits::{be_u16, be_u32, be_u64, spec_be_u16, spec_be_u32, spec_be_u64};
use vstd::slice::slice_subrange;

verus! {

/// A seekable byte source over a buffer held in memory.
#[derive(Clone, Copy, Debug)]
pub struct Cursor<'a> {
    data: &'a [u8],
    pos: u64,
}

impl<'a> Cursor<'a> {
    /// The whole buffer.
    pub closed spec fn data(&self) -> Seq<u8> {
        self.data@
    }

    /// The position of the next read. It may lie past the end of the buffer.
    pub closed spec fn spec_position(&self) -> u64 {
        self.pos
    }

    /// The bytes from the position to the end of the buffer.
    pub open spec fn remaining(&self) -> Seq<u8> {
        if self.spec_position() <= self.data().len() {
            self.data().skip(self.spec_position() as int)
        } else {
            Seq::empty()
        }
    }

    pub fn new(data: &'a [u8]) -> (c: Self)
        ensures
            c.data() == data@,
            c.spec_position() == 0,
    {
        Cursor { data, pos: 0 }
    }

    #[verifier::when_used_as_spec(spec_position)]
    pub fn position(&self) -> (p: u64)
        ensures
            p == self.spec_position(),
    {
        self.pos
    }

    pub fn set_position(&mut self, pos: u64)
        ensures
            final(self).data() == old(self).data(),
            final(self).spec_position() == pos,
    {
        self.pos = pos;
    }

    pub fn get_ref(&self) -> (d: &'a [u8])
        ensures
            d@ == self.data(),
    {
        self.data
    }

    /// The length of the buffer.
    pub fn len(&self) -> (n: usize)
        ensures
            n == self.data().len(),
    {
        self.data.len()
    }

    /// The number of bytes between the position and the end of the buffer.
    pub fn remaining_len(&self) -> (n: usize)
        ensures
            n == self.remaining().len(),
    {
        let len: usize = self.data.len();
        if self.pos <= len as u64 {
            len - self.pos as usize
        } else {
            0
        }
    }

    /// Hands out the next bytes of the buffer, as many as `n` and the source
    /// allow, and moves the position past them.
    pub fn take_up_to(&mut self, n: usize) -> (out: &'a [u8])
        ensures
            out@.len() == if n <= old(self).remaining().len() {
                n as nat
            } else {
                old(self).remaining().len()
            },
            out@ == old(self).remaining().take(out@.len() as int),
            final(self).data() == old(self).data(),
            final(self).spec_position() == old(self).spec_position() + out@.len(),
    {
        let avail: usize = self.remaining_len();
        let k: usize = if n <= avail { n } else { avail };
        let len: usize = self.data.len();
        if k == 0 {
            let out: &'a [u8] = slice_subrange(self.data, 0, 0);
            assert(out@ =~= old(self).remaining().take(0));
            out
        } else {
            let start: usize = self.pos as usize;
            let out: &'a [u8] = slice_subrange(self.data, start, start + k);
            assert(out@ =~= old(self).remaining().take(k as int));
            self.pos = self.pos + k as u64;
            out
        }
    }

    /// Hands out exactly the next `n` bytes of the buffer, or fails, and
    /// moves nothing, where fewer are left.
    pub fn take_exact(&mut self, n: usize) -> (r: Result<&'a [u8], Error>)
        ensures
            final(self).data() == old(self).data(),
            r is Ok <==> n <= old(self).remaining().len(),
            r matches Ok(out) ==> {
                &&& out@ == old(self).remaining().take(n as int)
                &&& final(self).spec_position() == old(self).spec_position() + n
            },
            r matches Err(e) ==> e.kind == ErrorKind::UnexpectedEof && *final(self) == *old(self),
    {
        if n <= self.remaining_len() {
            Ok(self.take_up_to(n))
        } else {
            Err(Error::new(ErrorKind::UnexpectedEof, "failed to fill whole buffer"))
        }
    }

    /// Copies bytes from the position into the front of `buf`, as many as
    /// both the buffer and the source allow, and moves the position past
    /// them.
    pub fn read(&mut self, buf: &mut [u8]) -> (n: usize)
        ensures
            n == if old(buf)@.len() <= old(self).remaining().len() {
                old(buf)@.len()
            } else {
                old(self).remaining().len()
            },
            final(self).data() == old(self).data(),
            final(self).spec_position() == old(self).spec_position() + n,
            final(buf)@ == old(self).remaining().take(n as int) + old(buf)@.skip(n as int),
    {
        let avail: usize = self.remaining_len();
        let n: usize = if buf.len() <= avail { buf.len() } else { avail };
        let len: usize = self.data.len();
        assert(n > 0 ==> self.pos <= len);
        let start: usize = if n == 0 { 0 } else { self.pos as usize };
        let mut i: usize = 0;
        while i < n
            invariant
                i <= n,
                n <= buf@.len(),
                buf@.len() == old(buf)@.len(),
                n <= old(self).remaining().len(),
                len == self.data@.len(),
                n > 0 ==> start == self.pos && start + n <= len,
                self.pos == old(self).pos,
                self.data == old(self).data,
                buf@ == old(self).remaining().take(i as int) + old(buf)@.skip(i as int),
            decreases n - i,
        {
            buf[i] = self.data[start + i];
            i += 1;
        }
        self.pos = self.pos + n as u64;
        n
    }
}

/// A reader confined to a budget of bytes: it owns a byte source, counts
/// what has been read through it, and never reads past its limit, even where
/// the source holds more.
#[derive(Debug)]
pub struct Limited<T> {
    inner: T,
    pos: u64,
    limit: u64,
}

impl<T> Limited<T> {
    #[verifier::type_invariant]
    spec fn within_limit(&self) -> bool {
        self.pos <= self.limit
    }

    /// The byte source.
    pub closed spec fn inner(&self) -> T {
        self.inner
    }

    /// The number of bytes consumed so far.
    pub closed spec fn spec_pos(&self) -> u64 {
        self.pos
    }

    /// The budget this reader was made with.
    pub closed spec fn spec_limit(&self) -> u64 {
        self.limit
    }

    /// What is left of the budget.
    pub open spec fn spec_max_available(&self) -> u64 {
        if self.spec_pos() <= self.spec_limit() {
            (self.spec_limit() - self.spec_pos()) as u64
        } else {
            0
        }
    }

    pub fn new(inner: T, limit: u64) -> (r: Limited<T>)
        ensures
            r.inner() == inner,
            r.spec_pos() == 0,
            r.spec_limit() == limit,
    {
        Limited { inner, pos: 0, limit }
    }

    #[verifier::when_used_as_spec(spec_pos)]
    pub fn pos(&self) -> (p: u64)
        ensures
            p == self.spec_pos(),
    {
        self.pos
    }

    #[verifier::when_used_as_spec(spec_limit)]
    pub fn limit(&self) -> (l: u64)
        ensures
            l == self.spec_limit(),
    {
        self.limit
    }

    #[verifier::when_used_as_spec(spec_max_available)]
    pub fn max_available(&self) -> (n: u64)
        ensures
            n == self.spec_max_available(),
            self.spec_pos() + n == self.spec_limit(),
    {
        proof {
            use_type_invariant(self);
        }
        self.limit - self.pos
    }

    pub fn get_ref(&self) -> (r: &T)
        ensures
            *r == self.inner(),
    {
        &self.inner
    }

    pub fn into_inner(self) -> (r: T)
        ensures
            r == self.inner(),
    {
        self.inner
    }
}

impl<'a> Limited<Cursor<'a>> {
    /// The bytes that can still be read: what is left of the source, cut
    /// off at the budget.
    pub open spec fn window(&self) -> Seq<u8> {
        let rem = self.inner().remaining();
        if self.spec_max_available() <= rem.len() {
            rem.take(self.spec_max_available() as int)
        } else {
            rem
        }
    }

    /// This reader is `from` after `n` more bytes were consumed.
    pub open spec fn advanced(&self, from: &Self, n: int) -> bool {
        &&& self.inner().data() == from.inner().data()
        &&& self.inner().spec_position() == from.inner().spec_position() + n
        &&& self.spec_pos() == from.spec_pos() + n
        &&& self.spec_limit() == from.spec_limit()
    }

    /// The budget is backed by data: the source holds at least as many
    /// bytes as the budget allows to read.
    pub open spec fn backed(&self) -> bool {
        self.spec_pos() <= self.spec_limit() && self.spec_max_available() == self.window().len()
    }

    /// Consuming `n` bytes of the window leaves the rest of the window.
    pub proof fn lemma_advanced_window(&self, from: &Self, n: int)
        requires
            self.advanced(from, n),
            0 <= n <= from.window().len(),
            from.spec_pos() <= from.spec_limit(),
        ensures
            self.window() == from.window().skip(n),
            from.backed() ==> self.backed(),
    {
        assert(self.window() =~= from.window().skip(n));
    }

    /// The number of bytes that can still be read.
    pub fn available(&self) -> (n: usize)
        ensures
            n == self.window().len(),
            self.spec_pos() <= self.spec_limit(),
    {
        proof {
            use_type_invariant(self);
        }
        let rem: usize = self.inner.remaining_len();
        let budget: u64 = self.limit - self.pos;
        if budget <= rem as u64 {
            budget as usize
        } else {
            rem
        }
    }

    /// Cuts the budget down to what the source holds. The window stays as
    /// it is, and from now on the budget is backed by data.
    pub fn limit_to_source(&mut self)
        ensures
            final(self).backed(),
            final(self).window() == old(self).window(),
            final(self).inner() == old(self).inner(),
            final(self).spec_pos() == old(self).spec_pos(),
            final(self).spec_limit() <= old(self).spec_limit(),
    {
        proof {
            use_type_invariant(&*self);
        }
        let avail: usize = self.available();
        self.limit = self.pos + avail as u64;
        assert(self.window() =~= old(self).window());
    }

    /// Hands out the next bytes of the window, as many as `n` and the
    /// window allow.
    pub fn take_up_to(&mut self, n: usize) -> (out: &'a [u8])
        ensures
            out@.len() == if n <= old(self).window().len() {
                n as nat
            } else {
                old(self).window().len()
            },
            out@ == old(self).window().take(out@.len() as int),
            final(self).advanced(old(self), out@.len() as int),
            final(self).window() == old(self).window().skip(out@.len() as int),
            old(self).spec_pos() <= old(self).spec_limit(),
    {
        proof {
            use_type_invariant(&*self);
        }
        let avail: usize = self.available();
        let k: usize = if n <= avail { n } else { avail };
        let mut inner: Cursor<'a> = self.inner;
        let out: &'a [u8] = inner.take_up_to(k);
        self.inner = inner;
        self.pos = self.pos + k as u64;
        proof {
            assert(out@ =~= old(self).window().take(k as int));
            self.lemma_advanced_window(old(self), k as int);
        }
        out
    }

    /// Hands out exactly the next `n` bytes of the window, or fails where
    /// the window holds fewer; the window is then used up.
    pub fn take_exact(&mut self, n: usize) -> (r: Result<&'a [u8], Error>)
        ensures
            r is Ok <==> n <= old(self).window().len(),
            r matches Ok(out) ==> {
                &&& out@ == old(self).window().take(n as int)
                &&& final(self).advanced(old(self), n as int)
                &&& final(self).window() == old(self).window().skip(n as int)
            },
            r matches Err(e) ==> {
                &&& e.kind == ErrorKind::UnexpectedEof
                &&& final(self).advanced(old(self), old(self).window().len() as int)
                &&& final(self).window().len() == 0
            },
            old(self).spec_pos() <= old(self).spec_limit(),
    {
        let out: &'a [u8] = self.take_up_to(n);
        if out.len() == n {
            Ok(out)
        } else {
            Err(Error::new(ErrorKind::UnexpectedEof, "failed to fill whole buffer"))
        }
    }

    /// Copies bytes of the window into the front of `buf`, as many as both
    /// allow. It never fails; the result is a `Result` as that of any read.
    pub fn read(&mut self, buf: &mut [u8]) -> (r: Result<usize, Error>)
        ensures
            r matches Ok(n) && {
                &&& n == if old(buf)@.len() <= old(self).window().len() {
                    old(buf)@.len()
                } else {
                    old(self).window().len()
                }
                &&& final(buf)@ == old(self).window().take(n as int) + old(buf)@.skip(n as int)
                &&& final(self).advanced(old(self), n as int)
                &&& final(self).window() == old(self).window().skip(n as int)
            },
    {
        let out: &'a [u8] = self.take_up_to(buf.len());
        let n: usize = out.len();
        let mut i: usize = 0;
        while i < n
            invariant
                i <= n,
                n == out@.len(),
                n <= buf@.len(),
                buf@.len() == old(buf)@.len(),
                buf@ == out@.take(i as int) + old(buf)@.skip(i as int),
            decreases n - i,
        {
            buf[i] = out[i];
            i += 1;
        }
        assert(out@.take(n as int) =~= out@);
        Ok(n)
    }

    /// Fills `buf` from the window, or fails where the window holds fewer
    /// bytes than `buf`; the window is then used up and `buf` holds what
    /// there was.
    pub fn read_exact(&mut self, buf: &mut [u8]) -> (r: Result<(), Error>)
        ensures
            r is Ok <==> old(buf)@.len() <= old(self).window().len(),
            r is Ok ==> {
                &&& final(buf)@ == old(self).window().take(old(buf)@.len() as int)
                &&& final(self).advanced(old(self), old(buf)@.len() as int)
                &&& final(self).window() == old(self).window().skip(old(buf)@.len() as int)
            },
            r matches Err(e) ==> {
                &&& e.kind == ErrorKind::UnexpectedEof
                &&& final(self).advanced(old(self), old(self).window().len() as int)
                &&& final(self).window().len() == 0
            },
    {
        let len: usize = buf.len();
        match self.read(buf) {
            Ok(n) => {
                if n == len {
                    assert(buf@ =~= old(self).window().take(len as int));
                    Ok(())
                } else {
                    Err(Error::new(ErrorKind::UnexpectedEof, "failed to fill whole buffer"))
                }
            },
            Err(e) => Err(e),
        }
    }

    /// Reads one byte.
    pub fn read_u8(&mut self) -> (r: Result<u8, Error>)
        ensures
            r is Ok <==> 1 <= old(self).window().len(),
            r matches Ok(v) ==> {
                &&& v == old(self).window()[0]
                &&& final(self).advanced(old(self), 1)
                &&& final(self).window() == old(self).window().skip(1)
            },
            r matches Err(e) ==> e.kind == ErrorKind::UnexpectedEof,
    {
        match self.take_exact(1) {
            Ok(b) => Ok(b[0]),
            Err(e) => Err(e),
        }
    }

    /// Reads a big-endian 16-bit number.
    pub fn read_u16_be(&mut self) -> (r: Result<u16, Error>)
        ensures
            r is Ok <==> 2 <= old(self).window().len(),
            r matches Ok(v) ==> {
                &&& v == spec_be_u16(old(self).window())
                &&& final(self).advanced(old(self), 2)
                &&& final(self).window() == old(self).window().skip(2)
            },
            r matches Err(e) ==> e.kind == ErrorKind::UnexpectedEof,
    {
        match self.take_exact(2) {
            Ok(b) => Ok(be_u16(b)),
            Err(e) => Err(e),
        }
    }

    /// Reads a big-endian 32-bit number.
    pub fn read_u32_be(&mut self) -> (r: Result<u32, Error>)
        ensures
            r is Ok <==> 4 <= old(self).window().len(),
            r matches Ok(v) ==> {
                &&& v == spec_be_u32(old(self).window())
                &&& final(self).advanced(old(self), 4)
                &&& final(self).window() == old(self).window().skip(4)
            },
            r matches Err(e) ==> e.kind == ErrorKind::UnexpectedEof,
    {
        match self.take_exact(4) {
            Ok(b) => Ok(be_u32(b)),
            Err(e) => Err(e),
        }
    }

    /// Reads a big-endian 64-bit number.
    pub fn read_u64_be(&mut self) -> (r: Result<u64, Error>)
        ensures
            r is Ok <==> 8 <= old(self).window().len(),
            r matches Ok(v) ==> {
                &&& v == spec_be_u64(old(self).window())
                &&& final(self).advanced(old(self), 8)
                &&& final(self).window() == old(self).window().skip(8)
            },
            r matches Err(e) ==> e.kind == ErrorKind::UnexpectedEof,
    {
        match self.take_exact(8) {
            Ok(b) => {
                assert(b@.skip(4) =~= old(self).window().skip(4).take(4));
                Ok(be_u64(b))
            },
            Err(e) => Err(e),
        }
    }

    /// Moves the position by `delta` bytes, backwards for a negative one.
    /// It fails, and moves nothing, where the target lies before the start,
    /// past the limit, or outside what the source can address.
    pub fn seek_relative(&mut self, delta: i64) -> (r: Result<u64, Error>)
        ensures
            r is Ok <==> {
                &&& 0 <= old(self).spec_pos() + delta <= old(self).spec_limit()
                &&& 0 <= old(self).inner().spec_position() + delta <= u64::MAX
            },
            r matches Ok(p) ==> {
                &&& p == old(self).spec_pos() + delta
                &&& final(self).advanced(old(self), delta as int)
            },
            r matches Err(e) ==> e.kind == ErrorKind::InvalidInput && *final(self) == *old(self),
    {
        proof {
            use_type_invariant(&*self);
        }
        let inner_pos: u64 = self.inner.position();
        if delta < 0 {
            let back: u64 = if delta == i64::MIN {
                0x8000_0000_0000_0000u64
            } else {
                (-delta) as u64
            };
            if back > self.pos {
                return Err(Error::new(ErrorKind::InvalidInput, "can't seek beyond start"));
            }
            if back > inner_pos {
                return Err(Error::new(ErrorKind::InvalidInput, "can't seek beyond start"));
            }
            let mut inner: Cursor<'a> = self.inner;
            inner.set_position(inner_pos - back);
            self.inner = inner;
            self.pos = self.pos - back;
        } else {
            let forth: u64 = delta as u64;
            if forth > self.limit - self.pos {
                return Err(Error::new(ErrorKind::InvalidInput, "can't seek past limit"));
            }
            if forth > u64::MAX - inner_pos {
                return Err(Error::new(ErrorKind::InvalidInput, "u64 overflow"));
            }
            let mut inner: Cursor<'a> = self.inner;
            inner.set_position(inner_pos + forth);
            self.inner = inner;
            self.pos = self.pos + forth;
        }
        Ok(self.pos)
    }
}

} // verus!
