//! The frames of an ID3v2 tag, and the table that holds them.

pub mod body;
pub mod id;

use vstd::prelude::*;

use crate::error::{Error, ErrorKind};
use crate::id3::frame::body::{
    spec_decode_body, spec_merge, Body, BodyKind, BodyView, Text, TextView,
};
use crate::id3::unsynch::{decode_u32, is_synchsafe, synchsafe_value};
use crate::id3::Version;
use crate::util::bits::{be_u32, bit_u8, get_bit_u8, spec_be_u32};
use crate::util::limited::{Cursor, Limited};

pub use id::FrameId;

verus! {

/// A language code of three bytes, packed into one number with the first
/// byte on top.
#[derive(Clone, Copy, Debug, PartialEq, Eq, Structural)]
pub struct Language(u32);

impl Language {
    /// The three bytes of the code.
    pub closed spec fn bytes(&self) -> Seq<u8> {
        seq![
            (self.0 / 0x1_0000) as u8,
            ((self.0 / 0x100) % 0x100) as u8,
            (self.0 % 0x100) as u8,
        ]
    }

    /// The code with the given bytes.
    pub closed spec fn spec_new(b0: u8, b1: u8, b2: u8) -> Language {
        Language((b0 as int * 0x1_0000 + b1 as int * 0x100 + b2 as int) as u32)
    }

    pub fn new(v: [u8; 3]) -> (r: Language)
        ensures
            r == Self::spec_new(v[0], v[1], v[2]),
            r.bytes() == v@,
    {
        let b0: u32 = v[0] as u32;
        let b1: u32 = v[1] as u32;
        let b2: u32 = v[2] as u32;
        assert((b0 << 16 | b1 << 8 | b2) == b0 * 0x1_0000 + b1 * 0x100 + b2) by (bit_vector)
            requires
                b0 < 256,
                b1 < 256,
                b2 < 256,
        ;
        let r = Language(b0 << 16 | b1 << 8 | b2);
        assert(r.bytes() =~= v@);
        r
    }

    pub fn to_bytes(&self) -> (r: [u8; 3])
        ensures
            r@ == self.bytes(),
    {
        let v: u32 = self.0;
        assert((v >> 16) as u8 == (v / 0x1_0000) as u8
            && (v >> 8) as u8 == ((v / 0x100) % 0x100) as u8
            && v as u8 == (v % 0x100) as u8) by (bit_vector);
        let r: [u8; 3] = [(v >> 16) as u8, (v >> 8) as u8, v as u8];
        assert(r@ =~= self.bytes());
        r
    }
}

/// The encoding that a frame declares for its text.
#[derive(Clone, Copy, Debug, PartialEq, Eq, Structural, PartialOrd, Ord)]
pub enum Encoding {
    Latin1,
    Utf16,
    Utf16BE,
    Utf8,
}

impl Encoding {
    /// The wider of two encodings: Latin-1 is narrower than any other, and
    /// of two others the second wins.
    pub open spec fn spec_common(&self, o: Encoding) -> Encoding {
        if o == Encoding::Latin1 {
            *self
        } else {
            o
        }
    }

    #[verifier::when_used_as_spec(spec_common)]
    pub fn common(&self, o: Encoding) -> (r: Encoding)
        ensures
            r == self.spec_common(o),
    {
        if o == Encoding::Latin1 {
            *self
        } else {
            o
        }
    }

    /// The encoding that a frame's first byte declares.
    pub open spec fn spec_from_u8(v: u8) -> Option<Encoding> {
        if v == 0 {
            Some(Encoding::Latin1)
        } else if v == 1 {
            Some(Encoding::Utf16)
        } else if v == 2 {
            Some(Encoding::Utf16BE)
        } else if v == 3 {
            Some(Encoding::Utf8)
        } else {
            None
        }
    }

    pub fn from_u8(v: u8) -> (r: Result<Encoding, Error>)
        ensures
            match r {
                Ok(e) => Self::spec_from_u8(v) == Some(e),
                Err(e) => Self::spec_from_u8(v) is None && e.kind == ErrorKind::InvalidData,
            },
    {
        match v {
            0 => Ok(Encoding::Latin1),
            1 => Ok(Encoding::Utf16),
            2 => Ok(Encoding::Utf16BE),
            3 => Ok(Encoding::Utf8),
            _ => Err(Error::new(ErrorKind::InvalidData, "bad encoding type")),
        }
    }
}

/// A frame: its identifier and its decoded body.
#[derive(Clone, Debug, PartialEq, Eq)]
pub struct Frame {
    pub id: FrameId,
    pub body: Body,
}

pub struct FrameView {
    pub id: FrameId,
    pub body: BodyView,
}

impl View for Frame {
    type V = FrameView;

    open spec fn view(&self) -> FrameView {
        FrameView { id: self.id, body: self.body@ }
    }
}

/// The length of a frame header of version 2.3 or 2.4.
pub const HEADER_LEN: usize = 10;

/// The length of a frame header of version 2.2.
pub const HEADER_V2_2_LEN: usize = 6;

/// Whether the two flag bytes of a frame header set no bit that the
/// version leaves undefined.
pub open spec fn frame_flags_valid(minor: u8, flags1: u8, flags2: u8) -> bool {
    if minor == 3 {
        flags1 & 0b0001_1111 == 0 && flags2 & 0b0001_1111 == 0
    } else {
        flags1 & 0b1000_1111 == 0 && flags2 & 0b1011_0000 == 0
    }
}

/// Whether the second flag byte asks for a grouping identity,
/// compression, encryption or unsynchronisation of the frame, none of
/// which is decoded. The places of these bits differ by version.
pub open spec fn frame_flags_unsupported(minor: u8, flags2: u8) -> bool {
    if minor == 3 {
        bit_u8(flags2, 5) || bit_u8(flags2, 7) || bit_u8(flags2, 6) || bit_u8(flags2, 0)
    } else {
        bit_u8(flags2, 6) || bit_u8(flags2, 3) || bit_u8(flags2, 2) || bit_u8(flags2, 1)
    }
}

/// The body length that four bytes of a frame header declare: a
/// synchsafe number in version 2.4, a plain big-endian one in version 2.3.
pub open spec fn frame_body_len(minor: u8, b: Seq<u8>) -> Option<u32> {
    if minor == 4 {
        if is_synchsafe(b) {
            Some(synchsafe_value(b))
        } else {
            None
        }
    } else {
        Some(spec_be_u32(b))
    }
}

/// The frame that a header and the bytes behind it hold, with the number
/// of bytes that it takes.
pub open spec fn frame_at(w: Seq<u8>, id: FrameId, header_len: nat, len: u32) -> Result<
    Option<(FrameView, nat)>,
    ErrorKind,
> {
    if w.len() < header_len + len {
        Err(ErrorKind::UnexpectedEof)
    } else {
        match spec_decode_body(id, w.subrange(header_len as int, header_len + len)) {
            Ok(body) => Ok(Some((FrameView { id, body }, header_len + len as nat))),
            Err(e) => Err(e),
        }
    }
}

/// The next frame of a version 2.2 tag in `w`: three bytes of identifier
/// and three bytes of big-endian length, then the body. `Ok(None)` at the
/// end of the data or at padding, which a zero byte starts.
pub open spec fn spec_read_frame_v22(w: Seq<u8>) -> Result<Option<(FrameView, nat)>, ErrorKind> {
    if w.len() == 0 || w[0] == 0 {
        Ok(None)
    } else if w.len() < 6 {
        Err(ErrorKind::UnexpectedEof)
    } else {
        frame_at(
            w,
            FrameId::spec_new(w[0], w[1], w[2], 0),
            6,
            spec_be_u32(seq![0u8, w[3], w[4], w[5]]),
        )
    }
}

/// The next frame of a tag in `w`, with the number of bytes that it takes:
/// for versions 2.3 and 2.4 four bytes of identifier, four bytes of
/// length and two flag bytes, then the body. `Ok(None)` at the end of the
/// data or at padding, which a zero byte starts.
pub open spec fn spec_read_frame(w: Seq<u8>, version: Version) -> Result<
    Option<(FrameView, nat)>,
    ErrorKind,
> {
    if version.minor == 2 {
        spec_read_frame_v22(w)
    } else if w.len() == 0 || w[0] == 0 {
        Ok(None)
    } else if w.len() < 10 {
        Err(ErrorKind::UnexpectedEof)
    } else if !frame_flags_valid(version.minor, w[8], w[9]) {
        Err(ErrorKind::InvalidData)
    } else if frame_flags_unsupported(version.minor, w[9]) {
        Err(ErrorKind::Unsupported)
    } else {
        match frame_body_len(version.minor, w.subrange(4, 8)) {
            None => Err(ErrorKind::InvalidData),
            Some(len) => frame_at(w, FrameId::spec_new(w[0], w[1], w[2], w[3]), 10, len),
        }
    }
}

/// Checks the two flag bytes of a frame header of version 2.3 or 2.4: no
/// undefined bit may be set, and none that asks for what is not decoded.
fn check_frame_flags(minor: u8, flags1: u8, flags2: u8) -> (r: Result<(), Error>)
    requires
        minor == 3 || minor == 4,
    ensures
        match r {
            Ok(_) => frame_flags_valid(minor, flags1, flags2) && !frame_flags_unsupported(
                minor,
                flags2,
            ),
            Err(e) => if frame_flags_valid(minor, flags1, flags2) {
                frame_flags_unsupported(minor, flags2) && e.kind == ErrorKind::Unsupported
            } else {
                e.kind == ErrorKind::InvalidData
            },
        },
{
    // The places of the flags in the two bytes, by version: tag alter
    // preservation, file alter preservation, read only; grouping identity,
    // compression, encryption, unsynchronisation, data length indicator.
    let flags_map: [usize; 8] = if minor == 3 {
        if flags1 & 0b0001_1111 != 0 || flags2 & 0b0001_1111 != 0 {
            return Err(Error::new(ErrorKind::InvalidData, "bad flags for frame v2.3"));
        }
        [7, 6, 5, 5, 7, 6, 0, 0]
    } else {
        if flags1 & 0b1000_1111 != 0 || flags2 & 0b1011_0000 != 0 {
            return Err(Error::new(ErrorKind::InvalidData, "bad flags for frame v2.4"));
        }
        [6, 5, 4, 6, 3, 2, 1, 0]
    };

    let _tag_alter_preserve: bool = get_bit_u8(flags1, flags_map[0]);
    let _file_alter_preserve: bool = get_bit_u8(flags1, flags_map[1]);
    let _read_only: bool = get_bit_u8(flags1, flags_map[2]);
    let contains_group_id: bool = get_bit_u8(flags2, flags_map[3]);
    let compressed: bool = get_bit_u8(flags2, flags_map[4]);
    let encrypted: bool = get_bit_u8(flags2, flags_map[5]);
    let unsynched: bool = get_bit_u8(flags2, flags_map[6]);
    let _data_len_indicator: bool = get_bit_u8(flags2, flags_map[7]);

    if contains_group_id || compressed || encrypted || unsynched {
        return Err(
            Error::new(
                ErrorKind::Unsupported,
                "grouped, compressed, encrypted or unsynchronised frames are not supported",
            ),
        );
    }
    Ok(())
}

impl Frame {
    /// Reads the next frame of a tag of the given version: `Ok(None)` at
    /// the end of the data or at padding.
    #[verifier::rlimit(30)]
    fn read(rd: &mut Limited<Cursor<'_>>, version: Version) -> (r: Result<Option<Frame>, Error>)
        requires
            2 <= version.minor <= 4,
            old(rd).backed(),
        ensures
            match r {
                Ok(Some(f)) => spec_read_frame(old(rd).window(), version) matches Ok(Some(p))
                    && p.0 == f@ && final(rd).advanced(old(rd), p.1 as int) && final(rd).window()
                    == old(rd).window().skip(p.1 as int) && final(rd).backed(),
                Ok(None) => spec_read_frame(old(rd).window(), version) == Ok::<
                    Option<(FrameView, nat)>,
                    ErrorKind,
                >(None),
                Err(e) => spec_read_frame(old(rd).window(), version) == Err::<
                    Option<(FrameView, nat)>,
                    ErrorKind,
                >(e.kind),
            },
    {
        if version.minor == 2 {
            return Self::read_v2_2(rd);
        }
        let ghost w = rd.window();
        let header: &[u8] = rd.take_up_to(HEADER_LEN);
        if header.len() == 0 || header[0] == 0 {
            // End of data or padding reached.
            return Ok(None);
        }
        if header.len() < HEADER_LEN {
            return Err(Error::new(ErrorKind::UnexpectedEof, "frame header truncated"));
        }
        match check_frame_flags(version.minor, header[8], header[9]) {
            Ok(()) => {},
            Err(e) => {
                return Err(e);
            },
        }
        let id: FrameId = FrameId::new([header[0], header[1], header[2], header[3]]);
        let len_bytes: &[u8] = vstd::slice::slice_subrange(header, 4, 8);
        assert(len_bytes@ =~= w.subrange(4, 8));
        let len: u32 = if version.minor == 4 {
            match decode_u32(len_bytes) {
                Some(len) => len,
                None => {
                    return Err(Error::new(ErrorKind::InvalidData, "bad frame len"));
                },
            }
        } else {
            be_u32(len_bytes)
        };
        Self::read_body(rd, Ghost(w), id, HEADER_LEN, len)
    }

    fn read_v2_2(rd: &mut Limited<Cursor<'_>>) -> (r: Result<Option<Frame>, Error>)
        requires
            old(rd).backed(),
        ensures
            match r {
                Ok(Some(f)) => spec_read_frame_v22(old(rd).window()) matches Ok(Some(p)) && p.0
                    == f@ && final(rd).advanced(old(rd), p.1 as int)
                        && final(rd).window() == old(rd).window().skip(p.1 as int)
                        && final(rd).backed(),
                Ok(None) => spec_read_frame_v22(old(rd).window()) == Ok::<
                    Option<(FrameView, nat)>,
                    ErrorKind,
                >(None),
                Err(e) => spec_read_frame_v22(old(rd).window()) == Err::<
                    Option<(FrameView, nat)>,
                    ErrorKind,
                >(e.kind),
            },
    {
        let ghost w = rd.window();
        let header: &[u8] = rd.take_up_to(HEADER_V2_2_LEN);
        if header.len() == 0 || header[0] == 0 {
            // End of data or padding reached.
            return Ok(None);
        }
        if header.len() < HEADER_V2_2_LEN {
            return Err(Error::new(ErrorKind::UnexpectedEof, "frame header truncated"));
        }
        let id: FrameId = FrameId::new_v22([header[0], header[1], header[2]]);
        let len_bytes: [u8; 4] = [0, header[3], header[4], header[5]];
        assert(len_bytes@ =~= seq![0u8, w[3], w[4], w[5]]);
        let len: u32 = be_u32(len_bytes.as_slice());
        Self::read_body(rd, Ghost(w), id, HEADER_V2_2_LEN, len)
    }

    /// Reads the body behind a frame header of `header_len` bytes that has
    /// just been read from the window `w`.
    fn read_body(
        rd: &mut Limited<Cursor<'_>>,
        Ghost(w): Ghost<Seq<u8>>,
        id: FrameId,
        header_len: usize,
        len: u32,
    ) -> (r: Result<Option<Frame>, Error>)
        requires
            old(rd).backed(),
            header_len <= 10,
            header_len <= w.len(),
            old(rd).window() == w.skip(header_len as int),
        ensures
            match r {
                Ok(Some(f)) => frame_at(w, id, header_len as nat, len) matches Ok(Some(p)) && p.0
                    == f@ && final(rd).advanced(old(rd), p.1 - header_len) && final(rd).window()
                    == w.skip(p.1 as int) && final(rd).backed(),
                Ok(None) => false,
                Err(e) => frame_at(w, id, header_len as nat, len) == Err::<
                    Option<(FrameView, nat)>,
                    ErrorKind,
                >(e.kind),
            },
    {
        let ghost before = *rd;
        match Body::read(rd, id, len) {
            Ok(body) => {
                proof {
                    assert(w.skip(header_len as int).take(len as int) =~= w.subrange(
                        header_len as int,
                        header_len + len,
                    ));
                    assert(w.skip(header_len as int).skip(len as int) =~= w.skip(header_len + len));
                    rd.lemma_advanced_window(&before, len as int);
                }
                Ok(Some(Frame { id, body }))
            },
            Err(e) => {
                proof {
                    if len <= w.len() - header_len {
                        assert(w.skip(header_len as int).take(len as int) =~= w.subrange(
                            header_len as int,
                            header_len + len,
                        ));
                    }
                }
                Err(e)
            },
        }
    }
}

/// What tells two frames of a table apart: the identifier and the kind of
/// body, and with them the language and description of a comment, or the
/// description of a user-defined text, a user-defined link or a picture.
pub struct KeyView {
    pub id: FrameId,
    pub kind: BodyKind,
    pub lang: Option<Language>,
    pub description: Option<Seq<char>>,
}

pub open spec fn key_of(f: FrameView) -> KeyView {
    match f.body {
        BodyView::Comment(c) => KeyView {
            id: f.id,
            kind: BodyKind::Comment,
            lang: Some(c.lang),
            description: Some(c.description),
        },
        BodyView::UserText(t) => KeyView {
            id: f.id,
            kind: BodyKind::UserText,
            lang: None,
            description: Some(t.description),
        },
        BodyView::UserUrl(u) => KeyView {
            id: f.id,
            kind: BodyKind::UserUrl,
            lang: None,
            description: Some(u.description),
        },
        BodyView::Picture(p) => KeyView {
            id: f.id,
            kind: BodyKind::Picture,
            lang: None,
            description: Some(p.description),
        },
        _ => KeyView { id: f.id, kind: f.body.kind(), lang: None, description: None },
    }
}

/// No two frames of the table have the same key.
pub open spec fn distinct_keys(s: Seq<FrameView>) -> bool {
    forall|i: int, j: int| 0 <= i < j < s.len()
        ==> key_of(#[trigger] s[i]) != key_of(#[trigger] s[j])
}

/// `i` is the first place in `s` of a frame with the key `k`.
pub open spec fn is_first_key(s: Seq<FrameView>, k: KeyView, i: int) -> bool {
    &&& 0 <= i < s.len()
    &&& key_of(s[i]) == k
    &&& forall|j: int| 0 <= j < i ==> key_of(s[j]) != k
}

pub open spec fn spec_find_key(s: Seq<FrameView>, k: KeyView) -> Option<int> {
    if exists|i: int| is_first_key(s, k, i) {
        Some(choose|i: int| is_first_key(s, k, i))
    } else {
        None
    }
}

pub proof fn lemma_find_key(s: Seq<FrameView>, k: KeyView, i: int)
    requires
        is_first_key(s, k, i),
    ensures
        spec_find_key(s, k) == Some(i),
{
    let j = choose|j: int| is_first_key(s, k, j);
    assert(is_first_key(s, k, j));
    if j < i {
        assert(key_of(s[j]) != k);
    }
    if i < j {
        assert(key_of(s[i]) != k);
    }
}

pub proof fn lemma_find_no_key(s: Seq<FrameView>, k: KeyView)
    requires
        forall|j: int| 0 <= j < s.len() ==> key_of(s[j]) != k,
    ensures
        spec_find_key(s, k) is None,
{
    if exists|i: int| is_first_key(s, k, i) {
        let i = choose|i: int| is_first_key(s, k, i);
        assert(key_of(s[i]) != k);
    }
}

/// A found key stands in the table, and a key that is not found does
/// not.
pub proof fn lemma_find_key_sound(s: Seq<FrameView>, k: KeyView)
    ensures
        match spec_find_key(s, k) {
            Some(i) => is_first_key(s, k, i),
            None => forall|j: int| 0 <= j < s.len() ==> key_of(#[trigger] s[j]) != k,
        },
{
    if exists|i: int| is_first_key(s, k, i) {
        let i = choose|i: int| is_first_key(s, k, i);
        assert(is_first_key(s, k, i));
    } else {
        assert forall|j: int| 0 <= j < s.len() implies key_of(#[trigger] s[j]) != k by {
            if key_of(s[j]) == k {
                lemma_some_first(s, k, j);
            }
        }
    }
}

/// Where a key stands at `j`, it has a first place.
proof fn lemma_some_first(s: Seq<FrameView>, k: KeyView, j: int)
    requires
        0 <= j < s.len(),
        key_of(s[j]) == k,
    ensures
        exists|i: int| is_first_key(s, k, i),
    decreases j,
{
    if exists|m: int| 0 <= m < j && key_of(s[m]) == k {
        let m = choose|m: int| 0 <= m < j && key_of(s[m]) == k;
        lemma_some_first(s, k, m);
    } else {
        assert(is_first_key(s, k, j));
    }
}

/// `n` spaces.
pub open spec fn spaces(n: nat) -> Seq<char> {
    Seq::new(n, |i: int| ' ')
}

/// A picture frame with `n` spaces added to its description; any other
/// frame as it is.
pub open spec fn padded(f: FrameView, n: nat) -> FrameView {
    match f.body {
        BodyView::Picture(p) => FrameView {
            id: f.id,
            body: BodyView::Picture(
                crate::id3::frame::body::PictureView {
                    encoding: p.encoding,
                    content_type: p.content_type,
                    picture_kind: p.picture_kind,
                    description: p.description + spaces(n),
                    data: p.data,
                },
            ),
        },
        _ => f,
    }
}

/// `n` is the least number of spaces that gives the picture `f` a key
/// that the table does not hold yet.
pub open spec fn is_free_padding(s: Seq<FrameView>, f: FrameView, n: nat) -> bool {
    &&& spec_find_key(s, key_of(padded(f, n))) is None
    &&& forall|m: nat| m < n ==> spec_find_key(s, key_of(#[trigger] padded(f, m))) is Some
}

/// The least number of spaces that gives the picture `f` a key that the
/// table does not hold yet.
pub open spec fn free_padding(s: Seq<FrameView>, f: FrameView) -> nat {
    choose|n: nat| is_free_padding(s, f, n)
}

/// The table after a frame is inserted.
///
/// A picture is never merged: it is appended, with as many spaces added
/// to its description as it takes to tell it from the pictures that are
/// there. Any other frame is merged into the first frame with its key,
/// or appended where there is none.
pub open spec fn spec_insert(s: Seq<FrameView>, f: FrameView) -> Seq<FrameView> {
    if f.body is Picture {
        s.push(padded(f, free_padding(s, f)))
    } else {
        match spec_find_key(s, key_of(f)) {
            Some(i) => s.update(
                i,
                FrameView { id: s[i].id, body: spec_merge(s[i].body, f.body).0 },
            ),
            None => s.push(f),
        }
    }
}

/// A second frame with the key of the only frame of a table is merged
/// into it: the table still holds one frame, whose body is the merged
/// one. So two user-defined text frames with one description leave one
/// frame with the values of both, and two comments with one language and
/// description leave one comment with both texts.
pub proof fn lemma_insert_twice(a: FrameView, b: FrameView)
    requires
        key_of(a) == key_of(b),
        !(a.body is Picture),
    ensures
        spec_insert(spec_insert(Seq::empty(), a), b) == seq![
            FrameView { id: a.id, body: spec_merge(a.body, b.body).0 },
        ],
{
    let empty = Seq::<FrameView>::empty();
    lemma_find_no_key(empty, key_of(a));
    let one = spec_insert(empty, a);
    assert(one =~= seq![a]);
    assert(is_first_key(one, key_of(b), 0));
    lemma_find_key(one, key_of(b), 0);
    assert(spec_insert(one, b) =~= seq![
        FrameView { id: a.id, body: spec_merge(a.body, b.body).0 },
    ]);
}

/// There is one least padding at most.
pub proof fn lemma_free_padding_unique(s: Seq<FrameView>, f: FrameView, n: nat)
    requires
        is_free_padding(s, f, n),
    ensures
        free_padding(s, f) == n,
{
    let m = free_padding(s, f);
    assert(is_free_padding(s, f, m));
    if m < n {
        assert(spec_find_key(s, key_of(padded(f, m))) is Some);
    }
    if n < m {
        assert(spec_find_key(s, key_of(padded(f, n))) is Some);
    }
}

/// The length of the description in the key of a frame, 0 where it has
/// none.
pub open spec fn description_len(f: FrameView) -> nat {
    match key_of(f).description {
        Some(d) => d.len(),
        None => 0,
    }
}

/// The longest description in the keys of a table.
pub open spec fn max_description_len(s: Seq<FrameView>) -> nat
    decreases s.len(),
{
    if s.len() == 0 {
        0
    } else {
        let rest = max_description_len(s.drop_last());
        if description_len(s.last()) > rest {
            description_len(s.last())
        } else {
            rest
        }
    }
}

proof fn lemma_max_description_len(s: Seq<FrameView>, i: int)
    requires
        0 <= i < s.len(),
    ensures
        description_len(s[i]) <= max_description_len(s),
    decreases s.len(),
{
    if i < s.len() - 1 {
        lemma_max_description_len(s.drop_last(), i);
    }
}

/// The frames of a tag, in the order in which their keys first came.
#[derive(Clone, Debug, PartialEq, Eq)]
pub struct Frames {
    vec: Vec<Frame>,
}

impl View for Frames {
    type V = Seq<FrameView>;

    closed spec fn view(&self) -> Seq<FrameView> {
        Seq::new(self.vec@.len(), |i: int| self.vec@[i]@)
    }
}

/// The frames with the identifier `id`, in order.
pub open spec fn spec_get(s: Seq<FrameView>, id: FrameId) -> Seq<FrameView> {
    s.filter(|f: FrameView| f.id == id)
}

/// The first frame with the identifier `id`.
pub open spec fn spec_first(s: Seq<FrameView>, id: FrameId) -> Option<FrameView> {
    if spec_get(s, id).len() > 0 {
        Some(spec_get(s, id)[0])
    } else {
        None
    }
}

/// The text of the first frame with the identifier `id`, where that
/// frame is a text frame.
pub open spec fn spec_first_text(s: Seq<FrameView>, id: FrameId) -> Option<TextView> {
    match spec_first(s, id) {
        Some(f) => match f.body {
            BodyView::Text(t) => Some(t),
            _ => None,
        },
        None => None,
    }
}

/// The first string of that text, where it has one.
pub open spec fn spec_first_text_str(s: Seq<FrameView>, id: FrameId) -> Option<Seq<char>> {
    match spec_first_text(s, id) {
        Some(t) => if t.strings.len() > 0 {
            Some(t.strings[0])
        } else {
            None
        },
        None => None,
    }
}

pub open spec fn frame_views(v: Seq<&Frame>) -> Seq<FrameView> {
    Seq::new(v.len(), |i: int| v[i]@)
}

fn same_key(a: &Frame, b: &Frame) -> (r: bool)
    ensures
        r == (key_of(a@) == key_of(b@)),
{
    if a.id != b.id {
        return false;
    }
    match (&a.body, &b.body) {
        (Body::Comment(x), Body::Comment(y)) => x.lang == y.lang && x.description == y.description,
        (Body::UserText(x), Body::UserText(y)) => x.description == y.description,
        (Body::UserUrl(x), Body::UserUrl(y)) => x.description == y.description,
        (Body::Picture(x), Body::Picture(y)) => x.description == y.description,
        (Body::Bytes(_), Body::Bytes(_)) => true,
        (Body::Text(_), Body::Text(_)) => true,
        (Body::UniqueFileId(_), Body::UniqueFileId(_)) => true,
        (Body::Url(_), Body::Url(_)) => true,
        _ => false,
    }
}

impl Frames {
    pub fn new() -> (r: Frames)
        ensures
            r@ == Seq::<FrameView>::empty(),
    {
        let r = Frames { vec: Vec::new() };
        assert(r@ =~= Seq::<FrameView>::empty());
        r
    }

    /// The number of frames.
    pub fn len(&self) -> (n: usize)
        ensures
            n == self@.len(),
    {
        self.vec.len()
    }

    /// The frame at place `i`.
    pub fn at(&self, i: usize) -> (f: &Frame)
        requires
            i < self@.len(),
        ensures
            f@ == self@[i as int],
    {
        &self.vec[i]
    }

    /// The frames with the identifier `id`, in order.
    pub fn get(&self, id: FrameId) -> (r: Vec<&Frame>)
        ensures
            frame_views(r@) == spec_get(self@, id),
    {
        let mut r: Vec<&Frame> = Vec::new();
        let ghost pred = |f: FrameView| f.id == id;
        let mut i: usize = 0;
        assert(self@.take(0) =~= Seq::<FrameView>::empty());
        assert(frame_views(r@) =~= self@.take(0).filter(pred));
        while i < self.vec.len()
            invariant
                i <= self.vec@.len(),
                pred == (|f: FrameView| f.id == id),
                frame_views(r@) == self@.take(i as int).filter(pred),
            decreases self.vec@.len() - i,
        {
            let ghost before = frame_views(r@);
            proof {
                assert(self@.take(i + 1).drop_last() =~= self@.take(i as int));
                reveal(Seq::filter);
            }
            if self.vec[i].id == id {
                r.push(&self.vec[i]);
                assert(frame_views(r@) =~= before.push(self@[i as int]));
            }
            i += 1;
        }
        assert(self@.take(self@.len() as int) =~= self@);
        r
    }

    /// The first frame with the identifier `id`.
    pub fn first(&self, id: FrameId) -> (r: Option<&Frame>)
        ensures
            match r {
                Some(f) => spec_first(self@, id) == Some(f@),
                None => spec_first(self@, id) is None,
            },
    {
        let ghost pred = |f: FrameView| f.id == id;
        let mut i: usize = 0;
        assert(self@.take(0) =~= Seq::<FrameView>::empty());
        while i < self.vec.len()
            invariant
                i <= self.vec@.len(),
                pred == (|f: FrameView| f.id == id),
                self@.take(i as int).filter(pred).len() == 0,
            decreases self.vec@.len() - i,
        {
            proof {
                assert(self@.take(i + 1).drop_last() =~= self@.take(i as int));
                reveal(Seq::filter);
            }
            if self.vec[i].id == id {
                proof {
                    lemma_filter_prefix(self@, pred, i + 1);
                }
                return Some(&self.vec[i]);
            }
            i += 1;
        }
        assert(self@.take(self@.len() as int) =~= self@);
        None
    }

    /// The text of the first frame with the identifier `id`, where that
    /// frame is a text frame.
    pub fn first_text(&self, id: FrameId) -> (r: Option<&Text>)
        ensures
            match r {
                Some(t) => spec_first_text(self@, id) == Some(t@),
                None => spec_first_text(self@, id) is None,
            },
    {
        match self.first(id) {
            Some(f) => f.body.as_text(),
            None => None,
        }
    }

    /// The first string of that text, where it has one.
    pub fn first_text_str(&self, id: FrameId) -> (r: Option<&str>)
        ensures
            match r {
                Some(t) => spec_first_text_str(self@, id) == Some(t@),
                None => spec_first_text_str(self@, id) is None,
            },
    {
        match self.first_text(id) {
            Some(t) => if t.strings.len() > 0 {
                Some(t.strings[0].as_str())
            } else {
                None
            },
            None => None,
        }
    }

    fn position(&self, frame: &Frame) -> (r: Option<usize>)
        ensures
            match r {
                Some(i) => spec_find_key(self@, key_of(frame@)) == Some(i as int)
                    && i < self@.len(),
                None => spec_find_key(self@, key_of(frame@)) is None,
            },
    {
        let mut i: usize = 0;
        while i < self.vec.len()
            invariant
                i <= self.vec@.len(),
                forall|j: int| 0 <= j < i ==> key_of(self@[j]) != key_of(frame@),
            decreases self.vec@.len() - i,
        {
            if same_key(&self.vec[i], frame) {
                proof {
                    lemma_find_key(self@, key_of(frame@), i as int);
                }
                return Some(i);
            }
            i += 1;
        }
        proof {
            lemma_find_no_key(self@, key_of(frame@));
        }
        None
    }

    /// Inserts a frame: merges it into the frame with the same key, or
    /// appends it where the table holds none. A table without two frames
    /// of one key stays so.
    pub fn insert(&mut self, frame: Frame)
        ensures
            final(self)@ == spec_insert(old(self)@, frame@),
            distinct_keys(old(self)@) ==> distinct_keys(final(self)@),
    {
        let ghost orig = frame@;
        let ghost table = self@;
        let ghost mut n: nat = 0;
        let mut current: Frame = frame;
        proof {
            if orig.body is Picture {
                assert(orig.body->Picture_0.description + spaces(0)
                    =~= orig.body->Picture_0.description);
            }
        }
        loop
            invariant
                self@ == table,
                table == old(self)@,
                current@ == padded(orig, n),
                orig == frame@,
                n > 0 ==> orig.body is Picture,
                forall|m: nat| m < n ==> spec_find_key(table, key_of(#[trigger] padded(orig, m)))
                    is Some,
            decreases max_description_len(table) + 1 - description_len(current@),
        {
            match self.position(&current) {
                None => {
                    proof {
                        if orig.body is Picture {
                            lemma_free_padding_unique(table, orig, n);
                        }
                        lemma_find_key_sound(table, key_of(current@));
                    }
                    self.vec.push(current);
                    assert(self@ =~= table.push(padded(orig, n)));
                    assert(table.push(padded(orig, n)) == spec_insert(table, orig));
                    proof {
                        if distinct_keys(table) {
                            assert forall|i: int, j: int| 0 <= i < j < self@.len() implies key_of(
                                #[trigger] self@[i],
                            ) != key_of(#[trigger] self@[j]) by {
                                if j < table.len() {
                                    assert(key_of(table[i]) != key_of(table[j]));
                                } else {
                                    assert(self@[i] == table[i]);
                                }
                            }
                        }
                    }
                    return ;
                },
                Some(i) => {
                    proof {
                        lemma_find_key_sound(table, key_of(current@));
                        lemma_max_description_len(table, i as int);
                    }
                    let mut existing: Frame = self.vec.remove(i);
                    let Frame { id, body } = current;
                    let again: Option<Body> = existing.body.merge_from(body);
                    self.vec.insert(i, existing);
                    match again {
                        None => {
                            assert(!(orig.body is Picture));
                            assert(padded(orig, n) == orig);
                            assert(self@ =~= table.update(
                                i as int,
                                FrameView {
                                    id: table[i as int].id,
                                    body: spec_merge(table[i as int].body, orig.body).0,
                                },
                            ));
                            proof {
                                if distinct_keys(table) {
                                    assert(key_of(self@[i as int]) == key_of(table[i as int]));
                                    assert forall|a: int, b: int|
                                        0 <= a < b < self@.len() implies key_of(
                                        #[trigger] self@[a],
                                    ) != key_of(#[trigger] self@[b]) by {
                                        assert(key_of(table[a]) != key_of(table[b]));
                                        assert(key_of(self@[a]) == key_of(table[a]));
                                        assert(key_of(self@[b]) == key_of(table[b]));
                                    }
                                }
                            }
                            return ;
                        },
                        Some(b) => {
                            assert(self@ =~= table);
                            current = Frame { id, body: b };
                            proof {
                                let p = orig.body->Picture_0.description;
                                assert(p + spaces(n) + seq![' '] =~= p + spaces(n + 1));
                                assert((p + spaces(n)).push(' ') =~= p + spaces(n + 1));
                                n = n + 1;
                            }
                        },
                    }
                },
            }
        }
    }
}

/// The table that the frames of `w` make when they are inserted, one
/// after the other, into the table `acc`. The frames end at the end of
/// `w` or at padding.
pub open spec fn spec_read_frames(w: Seq<u8>, version: Version, acc: Seq<FrameView>) -> Result<
    Seq<FrameView>,
    ErrorKind,
>
    decreases w.len(),
{
    if w.len() == 0 {
        Ok(acc)
    } else {
        match spec_read_frame(w, version) {
            Ok(Some(p)) => if 0 < p.1 <= w.len() {
                spec_read_frames(w.skip(p.1 as int), version, spec_insert(acc, p.0))
            } else {
                Ok(acc)
            },
            Ok(None) => Ok(acc),
            Err(e) => Err(e),
        }
    }
}

/// What reading the frames of a region of `len` bytes gives: a failure
/// where the window is shorter than the region.
pub open spec fn spec_read_region(w: Seq<u8>, version: Version, len: u32) -> Result<
    Seq<FrameView>,
    ErrorKind,
> {
    if w.len() < len {
        Err(ErrorKind::UnexpectedEof)
    } else {
        spec_read_frames(w.take(len as int), version, Seq::empty())
    }
}

impl Frames {
    /// Reads the frames of a region of `len` bytes.
    pub fn read(rd: &mut Limited<Cursor<'_>>, version: Version, len: u32) -> (r: Result<
        Frames,
        Error,
    >)
        requires
            2 <= version.minor <= 4,
        ensures
            spec_read_region(old(rd).window(), version, len) == (match r {
                Ok(f) => Ok::<Seq<FrameView>, ErrorKind>(f@),
                Err(e) => Err::<Seq<FrameView>, ErrorKind>(e.kind),
            }),
            r is Ok ==> final(rd).advanced(old(rd), len as int)
                && final(rd).window() == old(rd).window().skip(len as int),
            r matches Ok(f) ==> distinct_keys(f@),
    {
        let region: &[u8] = match rd.take_exact(len as usize) {
            Ok(b) => b,
            Err(e) => {
                return Err(e);
            },
        };
        Self::read0(region, version)
    }

    fn read0(region: &[u8], version: Version) -> (r: Result<Frames, Error>)
        requires
            2 <= version.minor <= 4,
        ensures
            spec_read_frames(region@, version, Seq::empty()) == (match r {
                Ok(f) => Ok::<Seq<FrameView>, ErrorKind>(f@),
                Err(e) => Err::<Seq<FrameView>, ErrorKind>(e.kind),
            }),
            r matches Ok(f) ==> distinct_keys(f@),
    {
        let mut rd: Limited<Cursor<'_>> = Limited::new(Cursor::new(region), region.len() as u64);
        let mut r: Frames = Frames::new();
        assert(rd.window() =~= region@);
        while rd.max_available() > 0
            invariant
                2 <= version.minor <= 4,
                rd.backed(),
                distinct_keys(r@),
                spec_read_frames(region@, version, Seq::empty()) == spec_read_frames(
                    rd.window(),
                    version,
                    r@,
                ),
            decreases rd.window().len(),
        {
            match Frame::read(&mut rd, version) {
                Ok(Some(frame)) => r.insert(frame),
                Ok(None) => {
                    return Ok(r);
                },
                Err(e) => {
                    return Err(e);
                },
            }
        }
        Ok(r)
    }
}

/// A filter keeps of a prefix what it keeps first of the whole.
proof fn lemma_filter_prefix(s: Seq<FrameView>, pred: spec_fn(FrameView) -> bool, k: int)
    requires
        0 < k <= s.len(),
        pred(s[k - 1]),
        s.take(k - 1).filter(pred).len() == 0,
    ensures
        s.filter(pred).len() > 0,
        s.filter(pred)[0] == s[k - 1],
    decreases s.len() - k,
{
    reveal(Seq::filter);
    assert(s.take(k).drop_last() =~= s.take(k - 1));
    assert(s.take(k).filter(pred) =~= seq![s[k - 1]]);
    lemma_filter_extends(s, pred, k);
    assert(s.filter(pred).take(1)[0] == s.filter(pred)[0]);
}

/// The filter of a prefix is a prefix of the filter of the whole.
proof fn lemma_filter_extends(s: Seq<FrameView>, pred: spec_fn(FrameView) -> bool, k: int)
    requires
        0 <= k <= s.len(),
    ensures
        s.take(k).filter(pred).len() <= s.filter(pred).len(),
        s.take(k).filter(pred) == s.filter(pred).take(s.take(k).filter(pred).len() as int),
    decreases s.len() - k,
{
    reveal(Seq::filter);
    if k == s.len() {
        assert(s.take(k) =~= s);
        assert(s.filter(pred).take(s.filter(pred).len() as int) =~= s.filter(pred));
    } else {
        lemma_filter_extends(s, pred, k + 1);
        assert(s.take(k + 1).drop_last() =~= s.take(k));
        let longer = s.take(k + 1).filter(pred);
        let shorter = s.take(k).filter(pred);
        if pred(s[k]) {
            assert(longer =~= shorter.push(s[k]));
        }
        assert(shorter =~= s.filter(pred).take(shorter.len() as int));
    }
}

} // verus!
