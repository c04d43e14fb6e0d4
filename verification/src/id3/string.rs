//! The texts of frames: their encodings and their ways to end.

use vstd::prelude::*;
use vstd::slice::slice_subrange;
use vstd::utf8::{decode_utf8, encode_utf8, valid_utf8};

use crate::error::{Error, ErrorKind};
pub use crate::id3::frame::Encoding;
pub use crate::util::text::latin1_chars;

verus! {

/// What a strict UTF-16BE decoder makes of the bytes: `None` where they are
/// no well-formed UTF-16BE text.
pub uninterp spec fn utf16be_decoded(bytes: Seq<u8>) -> Option<Seq<char>>;

/// What a strict UTF-16LE decoder makes of the bytes: `None` where they are
/// no well-formed UTF-16LE text.
pub uninterp spec fn utf16le_decoded(bytes: Seq<u8>) -> Option<Seq<char>>;

pub open spec fn opt_str_view(s: Option<String>) -> Option<Seq<char>> {
    match s {
        Some(t) => Some(t@),
        None => None,
    }
}

/// `encoding::all::ISO_8859_1.decode` with `DecoderTrap::Strict`: every
/// byte is valid and becomes the character with its code point, so the call
/// always succeeds.
#[verifier::external_body]
pub(crate) fn latin1_decode(s: &[u8]) -> (r: Option<String>)
    ensures
        opt_str_view(r) == Some(latin1_chars(s@)),
{
    encoding::Encoding::decode(encoding::all::ISO_8859_1, s, encoding::DecoderTrap::Strict).ok()
}

/// `encoding::all::UTF_16BE.decode` with `DecoderTrap::Strict`: the decoded
/// text, or nothing where the decoder reports an error. The result depends
/// on the bytes alone and is named, not spelled out.
#[verifier::external_body]
fn utf16be_decode(s: &[u8]) -> (r: Option<String>)
    ensures
        opt_str_view(r) == utf16be_decoded(s@),
{
    encoding::Encoding::decode(encoding::all::UTF_16BE, s, encoding::DecoderTrap::Strict).ok()
}

/// `encoding::all::UTF_16LE.decode` with `DecoderTrap::Strict`, as
/// `utf16be_decode` for the other byte order.
#[verifier::external_body]
fn utf16le_decode(s: &[u8]) -> (r: Option<String>)
    ensures
        opt_str_view(r) == utf16le_decoded(s@),
{
    encoding::Encoding::decode(encoding::all::UTF_16LE, s, encoding::DecoderTrap::Strict).ok()
}

/// What the strict UTF-8 decoder of the `encoding` crate makes of the
/// bytes: `None` where it reports an error.
pub uninterp spec fn utf8_decoded(bytes: Seq<u8>) -> Option<Seq<char>>;

/// `encoding::all::UTF_8.decode` with `DecoderTrap::Strict`, as
/// `utf16be_decode` for UTF-8.
#[verifier::external_body]
pub(crate) fn utf8_decode_strict(s: &[u8]) -> (r: Option<String>)
    ensures
        opt_str_view(r) == utf8_decoded(s@),
{
    encoding::Encoding::decode(encoding::all::UTF_8, s, encoding::DecoderTrap::Strict).ok()
}

/// `std::str::from_utf8`: succeeds exactly on valid UTF-8, and the text it
/// gives has the input as its bytes.
#[verifier::external_body]
pub(crate) fn utf8_decode(s: &[u8]) -> (r: Option<String>)
    ensures
        r is Some <==> valid_utf8(s@),
        r matches Some(t) ==> encode_utf8(t@) == s@,
{
    std::str::from_utf8(s).ok().map(|t| t.to_owned())
}

/// Whether an encoding writes its characters, and its terminator, in units
/// of two bytes.
pub open spec fn is_wide(enc: Encoding) -> bool {
    enc == Encoding::Utf16 || enc == Encoding::Utf16BE
}

/// The length of the terminator of an encoding.
pub open spec fn spec_null_len(enc: Encoding) -> nat {
    if is_wide(enc) {
        2
    } else {
        1
    }
}

/// The text that `bytes` hold in the encoding, or the failure.
pub open spec fn spec_decode(enc: Encoding, bytes: Seq<u8>) -> Result<Seq<char>, ErrorKind> {
    match enc {
        Encoding::Latin1 => Ok(latin1_chars(bytes)),
        Encoding::Utf16 => {
            if bytes.len() < 2 {
                Err(ErrorKind::InvalidEncoding)
            } else if bytes[0] == 0xfe && bytes[1] == 0xff {
                or_invalid(utf16be_decoded(bytes.skip(2)))
            } else if bytes[0] == 0xff && bytes[1] == 0xfe {
                or_invalid(utf16le_decoded(bytes.skip(2)))
            } else {
                Err(ErrorKind::InvalidEncoding)
            }
        },
        Encoding::Utf16BE => or_invalid(utf16be_decoded(bytes)),
        Encoding::Utf8 => if valid_utf8(bytes) {
            Ok(decode_utf8(bytes))
        } else {
            Err(ErrorKind::InvalidEncoding)
        },
    }
}

pub open spec fn or_invalid(s: Option<Seq<char>>) -> Result<Seq<char>, ErrorKind> {
    match s {
        Some(t) => Ok(t),
        None => Err(ErrorKind::InvalidEncoding),
    }
}

/// Whether a terminator of the encoding stands at `i`: one zero byte, or
/// for the wide encodings two zero bytes at an even place.
pub open spec fn is_null_at(enc: Encoding, s: Seq<u8>, i: int) -> bool {
    if is_wide(enc) {
        0 <= i && i % 2 == 0 && i + 1 < s.len() && s[i] == 0 && s[i + 1] == 0
    } else {
        0 <= i < s.len() && s[i] == 0
    }
}

/// `i` is the place of the first terminator in `s`.
pub open spec fn is_first_null(enc: Encoding, s: Seq<u8>, i: int) -> bool {
    &&& is_null_at(enc, s, i)
    &&& forall|j: int| 0 <= j < i ==> !is_null_at(enc, s, j)
}

/// The place of the first terminator, if there is one.
pub open spec fn spec_find_null(enc: Encoding, s: Seq<u8>) -> Option<int> {
    if exists|i: int| is_first_null(enc, s, i) {
        Some(choose|i: int| is_first_null(enc, s, i))
    } else {
        None
    }
}

pub proof fn lemma_find_null(enc: Encoding, s: Seq<u8>, i: int)
    requires
        is_first_null(enc, s, i),
    ensures
        spec_find_null(enc, s) == Some(i),
{
    let j = choose|j: int| is_first_null(enc, s, j);
    assert(is_first_null(enc, s, j));
    if j < i {
        assert(!is_null_at(enc, s, j));
    }
    if i < j {
        assert(!is_null_at(enc, s, i));
    }
}

pub proof fn lemma_find_no_null(enc: Encoding, s: Seq<u8>)
    requires
        forall|j: int| 0 <= j < s.len() ==> !is_null_at(enc, s, j),
    ensures
        spec_find_null(enc, s) is None,
{
    if exists|i: int| is_first_null(enc, s, i) {
        let i = choose|i: int| is_first_null(enc, s, i);
        assert(!is_null_at(enc, s, i));
    }
}

/// `s` without the zero bytes at its end.
pub open spec fn without_zero_bytes(s: Seq<u8>) -> Seq<u8>
    decreases s.len(),
{
    if s.len() > 0 && s.last() == 0 {
        without_zero_bytes(s.drop_last())
    } else {
        s
    }
}

/// `s` without the pairs of zero bytes at its end.
pub open spec fn without_zero_pairs(s: Seq<u8>) -> Seq<u8>
    decreases s.len(),
{
    if s.len() >= 2 && s[s.len() - 1] == 0 && s[s.len() - 2] == 0 {
        without_zero_pairs(s.take(s.len() - 2))
    } else {
        s
    }
}

/// `s` without its trailing terminators: without the zero bytes at its
/// end, or for the wide encodings without the pairs of zero bytes at its
/// end. A text that holds nothing else becomes empty, but for the one byte
/// that may stand before the pairs.
pub open spec fn spec_strip_trailing_nulls(enc: Encoding, s: Seq<u8>) -> Seq<u8> {
    if is_wide(enc) {
        without_zero_pairs(s)
    } else {
        without_zero_bytes(s)
    }
}

/// Of a text of zero bytes only, stripping leaves nothing in an encoding
/// whose terminator is one byte.
pub proof fn lemma_strip_zeros(s: Seq<u8>)
    requires
        forall|i: int| 0 <= i < s.len() ==> s[i] == 0,
    ensures
        without_zero_bytes(s) == Seq::<u8>::empty(),
    decreases s.len(),
{
    if s.len() > 0 {
        lemma_strip_zeros(s.drop_last());
    } else {
        assert(s =~= Seq::<u8>::empty());
    }
}

/// The text up to the first terminator and the bytes behind it. Without a
/// terminator the whole of `s` is the text and nothing is behind it, unless
/// the terminator is `required`.
pub open spec fn spec_null_terminated(enc: Encoding, s: Seq<u8>, required: bool) -> Result<
    (Seq<char>, Seq<u8>),
    ErrorKind,
> {
    match spec_find_null(enc, s) {
        Some(i) => match spec_decode(enc, s.take(i)) {
            Ok(t) => Ok((t, s.skip(i + spec_null_len(enc)))),
            Err(e) => Err(e),
        },
        None => if required {
            Err(ErrorKind::InvalidData)
        } else {
            match spec_decode(enc, s) {
                Ok(t) => Ok((t, Seq::empty())),
                Err(e) => Err(e),
            }
        },
    }
}

/// The texts that terminators separate in `s`: always at least one.
pub open spec fn spec_split_decode(enc: Encoding, s: Seq<u8>) -> Result<Seq<Seq<char>>, ErrorKind>
    decreases s.len(),
{
    match spec_find_null(enc, s) {
        Some(i) => if 0 <= i && i + spec_null_len(enc) <= s.len() {
            match spec_decode(enc, s.take(i)) {
                Ok(t) => match spec_split_decode(enc, s.skip(i + spec_null_len(enc))) {
                    Ok(rest) => Ok(seq![t] + rest),
                    Err(e) => Err(e),
                },
                Err(e) => Err(e),
            }
        } else {
            Err(ErrorKind::InvalidData)
        },
        None => match spec_decode(enc, s) {
            Ok(t) => Ok(seq![t]),
            Err(e) => Err(e),
        },
    }
}

/// Splitting always gives at least one text.
pub proof fn lemma_split_decode_not_empty(enc: Encoding, s: Seq<u8>)
    ensures
        spec_split_decode(enc, s) matches Ok(v) ==> v.len() >= 1,
    decreases s.len(),
{
    match spec_find_null(enc, s) {
        Some(i) => {
            if 0 <= i && i + spec_null_len(enc) <= s.len() {
                lemma_split_decode_not_empty(enc, s.skip(i + spec_null_len(enc)));
            }
        },
        None => {},
    }
}

/// A Latin-1 buffer that is empty or holds zero bytes only gives one
/// text, the empty one.
pub proof fn lemma_null_delimited_of_zeros(s: Seq<u8>)
    requires
        forall|i: int| 0 <= i < s.len() ==> s[i] == 0,
    ensures
        spec_null_delimited(Encoding::Latin1, s) == Ok::<Seq<Seq<char>>, ErrorKind>(
            seq![Seq::<char>::empty()],
        ),
{
    let none = Seq::<u8>::empty();
    lemma_strip_zeros(s);
    lemma_find_no_null(Encoding::Latin1, none);
    assert(latin1_chars(none) =~= Seq::<char>::empty());
}

/// The texts that terminators separate in `s` once its trailing
/// terminators are stripped.
pub open spec fn spec_null_delimited(enc: Encoding, s: Seq<u8>) -> Result<
    Seq<Seq<char>>,
    ErrorKind,
> {
    spec_split_decode(enc, spec_strip_trailing_nulls(enc, s))
}

/// The views of a list of strings.
pub open spec fn strs(v: Seq<String>) -> Seq<Seq<char>> {
    Seq::new(v.len(), |i: int| v[i]@)
}

/// A decoder of the texts of a frame, for one encoding.
pub struct Decoder {
    encoding: Encoding,
}

impl Decoder {
    pub closed spec fn encoding(&self) -> Encoding {
        self.encoding
    }

    pub fn new(encoding: Encoding) -> (r: Decoder)
        ensures
            r.encoding() == encoding,
    {
        Decoder { encoding }
    }

    /// Decodes the whole of `s`, strictly.
    pub fn decode(&self, s: &[u8]) -> (r: Result<String, Error>)
        ensures
            match r {
                Ok(t) => spec_decode(self.encoding(), s@) == Ok::<Seq<char>, ErrorKind>(t@),
                Err(e) => spec_decode(self.encoding(), s@) == Err::<Seq<char>, ErrorKind>(e.kind),
            },
    {
        match self.encoding {
            Encoding::Latin1 => match latin1_decode(s) {
                Some(t) => Ok(t),
                None => Err(Error::new(ErrorKind::InvalidEncoding, "bad ISO-8859-1 string")),
            },
            Encoding::Utf16 => {
                if s.len() < 2 {
                    return Err(Error::new(ErrorKind::InvalidEncoding, "UTF16 BOM is truncated"));
                }
                if s[0] == 0xfe && s[1] == 0xff {
                    match utf16be_decode(slice_subrange(s, 2, s.len())) {
                        Some(t) => Ok(t),
                        None => Err(Error::new(ErrorKind::InvalidEncoding, "bad UTF-16BE string")),
                    }
                } else if s[0] == 0xff && s[1] == 0xfe {
                    match utf16le_decode(slice_subrange(s, 2, s.len())) {
                        Some(t) => Ok(t),
                        None => Err(Error::new(ErrorKind::InvalidEncoding, "bad UTF-16LE string")),
                    }
                } else {
                    Err(Error::new(ErrorKind::InvalidEncoding, "bad BOM"))
                }
            },
            Encoding::Utf16BE => match utf16be_decode(s) {
                Some(t) => Ok(t),
                None => Err(Error::new(ErrorKind::InvalidEncoding, "bad UTF-16BE string")),
            },
            Encoding::Utf8 => match utf8_decode(s) {
                Some(t) => {
                    proof {
                        vstd::utf8::encode_utf8_decode_utf8(t@);
                    }
                    Ok(t)
                },
                None => Err(Error::new(ErrorKind::InvalidEncoding, "bad UTF-8 string")),
            },
        }
    }

    /// Decodes `s` without its trailing terminators.
    pub fn decode_null_stripped(&self, s: &[u8]) -> (r: Result<String, Error>)
        ensures
            match r {
                Ok(t) => spec_decode(
                    self.encoding(),
                    spec_strip_trailing_nulls(self.encoding(), s@),
                )
                    == Ok::<Seq<char>, ErrorKind>(t@),
                Err(e) => spec_decode(
                    self.encoding(),
                    spec_strip_trailing_nulls(self.encoding(), s@),
                ) == Err::<Seq<char>, ErrorKind>(e.kind),
            },
    {
        let s: &[u8] = self.strip_trailing_nulls(s);
        self.decode(s)
    }

    /// Decodes the text up to the first terminator and hands back the
    /// bytes behind it. It fails where there is no terminator.
    pub fn decode_null_terminated<'a>(&self, buf: &'a [u8])
        -> (r: Result<(String, &'a [u8]), Error>)
        ensures
            match r {
                Ok((t, rest)) => spec_null_terminated(self.encoding(), buf@, true) == Ok::<
                    (Seq<char>, Seq<u8>),
                    ErrorKind,
                >((t@, rest@)),
                Err(e) => spec_null_terminated(self.encoding(), buf@, true) == Err::<
                    (Seq<char>, Seq<u8>),
                    ErrorKind,
                >(e.kind),
            },
    {
        self.decode_null_terminated0(buf, true)
    }

    /// Decodes the text up to the first terminator, or the whole of `buf`
    /// where there is none.
    pub fn decode_maybe_null_terminated(&self, buf: &[u8]) -> (r: Result<String, Error>)
        ensures
            match r {
                Ok(t) => spec_null_terminated(self.encoding(), buf@, false) matches Ok(p) && p.0
                    == t@,
                Err(e) => spec_null_terminated(self.encoding(), buf@, false) == Err::<
                    (Seq<char>, Seq<u8>),
                    ErrorKind,
                >(e.kind),
            },
    {
        match self.decode_null_terminated0(buf, false) {
            Ok((t, _)) => Ok(t),
            Err(e) => Err(e),
        }
    }

    fn decode_null_terminated0<'a>(&self, buf: &'a [u8], fail_if_no_null: bool) -> (r: Result<
        (String, &'a [u8]),
        Error,
    >)
        ensures
            match r {
                Ok((t, rest)) => spec_null_terminated(self.encoding(), buf@, fail_if_no_null)
                    == Ok::<(Seq<char>, Seq<u8>), ErrorKind>((t@, rest@)),
                Err(e) => spec_null_terminated(self.encoding(), buf@, fail_if_no_null) == Err::<
                    (Seq<char>, Seq<u8>),
                    ErrorKind,
                >(e.kind),
            },
    {
        let len: usize = buf.len();
        let (text, rest): (&'a [u8], &'a [u8]) = match self.find_null(buf) {
            Some(i) => {
                let text: &'a [u8] = slice_subrange(buf, 0, i);
                let rest: &'a [u8] = slice_subrange(buf, i + self.null_len(), len);
                assert(text@ =~= buf@.take(i as int));
                assert(rest@ =~= buf@.skip(i + spec_null_len(self.encoding())));
                (text, rest)
            },
            None => {
                if fail_if_no_null {
                    return Err(Error::new(ErrorKind::InvalidData, "bad null-terminated string"));
                }
                let rest: &'a [u8] = slice_subrange(buf, len, len);
                assert(rest@ =~= Seq::<u8>::empty());
                (buf, rest)
            },
        };
        match self.decode(text) {
            Ok(t) => Ok((t, rest)),
            Err(e) => Err(e),
        }
    }

    /// Decodes the texts that terminators separate in `buf`, once its
    /// trailing terminators are stripped: always at least one text.
    pub fn decode_null_delimited(&self, buf: &[u8]) -> (r: Result<Vec<String>, Error>)
        ensures
            match r {
                Ok(v) => spec_null_delimited(self.encoding(), buf@) == Ok::<
                    Seq<Seq<char>>,
                    ErrorKind,
                >(strs(v@)),
                Err(e) => spec_null_delimited(self.encoding(), buf@) == Err::<
                    Seq<Seq<char>>,
                    ErrorKind,
                >(e.kind),
            },
            r matches Ok(v) ==> v@.len() >= 1,
    {
        proof {
            lemma_split_decode_not_empty(
                self.encoding(),
                spec_strip_trailing_nulls(self.encoding(), buf@),
            );
        }
        let all: &[u8] = self.strip_trailing_nulls(buf);
        let ghost enc = self.encoding();
        let mut rest: &[u8] = all;
        let mut r: Vec<String> = Vec::new();
        assert(strs(r@) + seq![] =~= Seq::<Seq<char>>::empty());
        loop
            invariant
                enc == self.encoding(),
                all@ == spec_strip_trailing_nulls(enc, buf@),
                match spec_split_decode(enc, rest@) {
                    Ok(tail) => spec_split_decode(enc, all@) == Ok::<Seq<Seq<char>>, ErrorKind>(
                        strs(r@) + tail,
                    ),
                    Err(e) => spec_split_decode(enc, all@) == Err::<Seq<Seq<char>>, ErrorKind>(e),
                },
            decreases rest@.len(),
        {
            let rest_len: usize = rest.len();
            match self.find_null(rest) {
                Some(i) => {
                    let piece: &[u8] = slice_subrange(rest, 0, i);
                    assert(piece@ =~= rest@.take(i as int));
                    match self.decode(piece) {
                        Ok(t) => {
                            let ghost before = strs(r@);
                            r.push(t);
                            assert(strs(r@) =~= before + seq![t@]);
                            let next: &[u8] = slice_subrange(rest, i + self.null_len(), rest_len);
                            assert(next@ =~= rest@.skip(i + spec_null_len(enc)));
                            proof {
                                let tail = spec_split_decode(enc, next@);
                                if tail is Ok {
                                    assert(before + (seq![t@] + tail->Ok_0) =~= strs(r@)
                                        + tail->Ok_0);
                                }
                            }
                            rest = next;
                        },
                        Err(e) => {
                            return Err(e);
                        },
                    }
                },
                None => {
                    match self.decode(rest) {
                        Ok(t) => {
                            let ghost before = strs(r@);
                            r.push(t);
                            assert(strs(r@) =~= before + seq![t@]);
                            return Ok(r);
                        },
                        Err(e) => {
                            return Err(e);
                        },
                    }
                },
            }
        }
    }

    fn null_len(&self) -> (n: usize)
        ensures
            n == spec_null_len(self.encoding()),
    {
        match self.encoding {
            Encoding::Latin1 | Encoding::Utf8 => 1,
            Encoding::Utf16 | Encoding::Utf16BE => 2,
        }
    }

    fn is_wide(&self) -> (w: bool)
        ensures
            w == is_wide(self.encoding()),
    {
        match self.encoding {
            Encoding::Latin1 | Encoding::Utf8 => false,
            Encoding::Utf16 | Encoding::Utf16BE => true,
        }
    }

    fn strip_trailing_nulls<'a>(&self, s: &'a [u8]) -> (r: &'a [u8])
        ensures
            r@ == spec_strip_trailing_nulls(self.encoding(), s@),
    {
        let len: usize = s.len();
        let mut i: usize = len;
        assert(s@.take(len as int) =~= s@);
        if self.is_wide() {
            while i >= 2 && s[i - 1] == 0 && s[i - 2] == 0
                invariant
                    i <= len,
                    len == s@.len(),
                    without_zero_pairs(s@) == without_zero_pairs(s@.take(i as int)),
                decreases i,
            {
                assert(s@.take(i as int).take(i - 2) =~= s@.take(i - 2));
                i -= 2;
            }
        } else {
            while i >= 1 && s[i - 1] == 0
                invariant
                    i <= len,
                    len == s@.len(),
                    without_zero_bytes(s@) == without_zero_bytes(s@.take(i as int)),
                decreases i,
            {
                assert(s@.take(i as int).drop_last() =~= s@.take(i - 1));
                i -= 1;
            }
        }
        let r: &'a [u8] = slice_subrange(s, 0, i);
        assert(s@.take(len as int) =~= s@);
        assert(r@ =~= s@.take(i as int));
        r
    }

    fn find_null(&self, s: &[u8]) -> (r: Option<usize>)
        ensures
            match r {
                Some(i) => spec_find_null(self.encoding(), s@) == Some(i as int) && i
                    + spec_null_len(self.encoding()) <= s@.len(),
                None => spec_find_null(self.encoding(), s@) is None,
            },
    {
        let len: usize = s.len();
        let ghost enc = self.encoding();
        if self.is_wide() {
            let mut i: usize = 0;
            while i + 1 < len
                invariant
                    i % 2 == 0,
                    i <= len,
                    len == s@.len(),
                    is_wide(enc),
                    enc == self.encoding(),
                    forall|j: int| 0 <= j < i ==> !is_null_at(enc, s@, j),
                decreases len - i,
            {
                if s[i] == 0 && s[i + 1] == 0 {
                    proof {
                        lemma_find_null(enc, s@, i as int);
                    }
                    return Some(i);
                }
                i += 2;
            }
            proof {
                lemma_find_no_null(enc, s@);
            }
            None
        } else {
            let mut i: usize = 0;
            while i < len
                invariant
                    i <= len,
                    len == s@.len(),
                    !is_wide(enc),
                    enc == self.encoding(),
                    forall|j: int| 0 <= j < i ==> !is_null_at(enc, s@, j),
                decreases len - i,
            {
                if s[i] == 0 {
                    proof {
                        lemma_find_null(enc, s@, i as int);
                    }
                    return Some(i);
                }
                i += 1;
            }
            proof {
                lemma_find_no_null(enc, s@);
            }
            None
        }
    }
}

} // verus!