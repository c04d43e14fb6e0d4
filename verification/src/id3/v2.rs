//! ID3v2 tags of the versions 2.2, 2.3 and 2.4.

use vstd::prelude::*;

use crate::error::{Error, ErrorKind};
use crate::id3::frame::{
    distinct_keys, spec_first_text_str, spec_read_region, FrameId, FrameView, Frames,
};
use crate::timestamp::{number, parse_number, spec_parse, Fields, Timestamp};
use crate::util::text::{chars_of, latin1_chars, latin1_to_chars};
use vstd::string::StringSliceAdditionalSpecFns;
use crate::id3::unsynch::{decode_u32, is_synchsafe, synchsafe_value};
use crate::id3::Version;
use crate::util::bits::{bit_u8, get_bit_u8, spec_be_u32};
use crate::util::limited::{Cursor, Limited};
use crate::util::read_vec_limited;

verus! {

/// The length of the header of a tag, and that of its footer.
pub const HEADER_LEN: usize = 10;

/// The header of a tag.
#[derive(Clone, Copy, Debug, PartialEq, Eq, Structural)]
pub struct Header {
    pub version: Version,
    pub unsynch: bool,
    pub extended: bool,
    pub experimental: bool,
    pub footer_present: bool,
}

/// Whether the flag byte of a tag header sets no bit that the version
/// leaves undefined.
pub open spec fn tag_flags_valid(minor: u8, flags: u8) -> bool {
    if minor == 2 {
        flags & 0b0011_1111 == 0
    } else if minor == 3 {
        flags & 0b0001_1111 == 0
    } else {
        flags & 0b0000_1111 == 0
    }
}

/// The header that the first ten bytes of a tag hold. Bit 6 of the flags
/// declares an extended header, but compression in version 2.2, which is
/// not decoded.
pub open spec fn spec_header(b: Seq<u8>) -> Result<Header, ErrorKind> {
    let minor = b[3];
    let flags = b[5];
    if minor < 2 || minor > 4 {
        Err(ErrorKind::InvalidData)
    } else if !tag_flags_valid(minor, flags) {
        Err(ErrorKind::InvalidData)
    } else if minor == 2 && bit_u8(flags, 6) {
        Err(ErrorKind::Unsupported)
    } else {
        Ok(
            Header {
                version: Version { major: 2, minor, rev: b[4] },
                unsynch: bit_u8(flags, 7),
                extended: minor != 2 && bit_u8(flags, 6),
                experimental: bit_u8(flags, 5),
                footer_present: bit_u8(flags, 4),
            },
        )
    }
}

/// The number of bytes that an extended header takes at the start of `w`,
/// in a tag that declares `len` bytes. Its first four bytes hold its
/// length: in version 2.4 a synchsafe number of at least 4 that counts
/// these four bytes, in version 2.3 a plain big-endian number that does
/// not. What follows them is skipped, and must be there; the whole may not
/// be longer than the tag.
pub open spec fn spec_ext_len(minor: u8, w: Seq<u8>, len: u32) -> Result<u32, ErrorKind> {
    if w.len() < 4 {
        Err(ErrorKind::UnexpectedEof)
    } else if minor == 4 && !is_synchsafe(w) {
        Err(ErrorKind::InvalidData)
    } else if minor == 4 && synchsafe_value(w) < 4 {
        Err(ErrorKind::InvalidData)
    } else {
        let total = if minor == 4 {
            synchsafe_value(w) as int
        } else {
            spec_be_u32(w) + 4
        };
        if total > len {
            Err(ErrorKind::InvalidData)
        } else if w.len() < total {
            Err(ErrorKind::UnexpectedEof)
        } else {
            Ok(total as u32)
        }
    }
}

/// What the header of a tag and the extended header behind it give: the
/// header, the length of the extended header (0 where there is none), and
/// the number of bytes up to the first frame.
pub open spec fn spec_read_header(w: Seq<u8>, len: u32) -> Result<(Header, u32, nat), ErrorKind> {
    match spec_header(w) {
        Err(e) => Err(e),
        Ok(h) => if h.extended {
            match spec_ext_len(h.version.minor, w.skip(10), len) {
                Err(e) => Err(e),
                Ok(ext_len) => Ok((h, ext_len, (10 + ext_len) as nat)),
            }
        } else {
            Ok((h, 0, 10))
        },
    }
}

/// The length of a whole tag: its header, the length that it declares,
/// and the footer where there is one.
pub open spec fn spec_tag_len(h: Header, len: u32) -> int {
    10 + len + if h.footer_present {
        10int
    } else {
        0int
    }
}

pub struct TagView {
    pub header: Header,
    pub frames: Seq<FrameView>,
}

/// Whether a tag starts in `w`: the bytes `ID3`, and behind them a
/// revision and a flag byte that are not `0xff`.
pub open spec fn has_magic(w: Seq<u8>) -> bool {
    w[0] == 0x49 && w[1] == 0x44 && w[2] == 0x33 && w[4] != 0xff && w[5] != 0xff
}

/// The tag at the start of `w`, its length, and the number of bytes that
/// reading it takes.
///
/// The header takes ten bytes: the magic, two bytes of version, the flag
/// byte and the synchsafe length of what follows. An extended header is
/// skipped. A tag that declares unsynchronisation is not decoded. The
/// frames fill the declared length less the extended header, and must all
/// be there.
#[verifier::opaque]
pub open spec fn spec_read_tag(w: Seq<u8>) -> Result<(TagView, u32, nat), ErrorKind> {
    if w.len() < 10 {
        Err(ErrorKind::UnexpectedEof)
    } else if !has_magic(w) {
        Err(ErrorKind::BadMagic)
    } else if !is_synchsafe(w.subrange(6, 10)) {
        Err(ErrorKind::InvalidData)
    } else {
        let len = synchsafe_value(w.subrange(6, 10));
        match spec_read_header(w, len) {
            Err(e) => Err(e),
            Ok((header, ext_len, start)) => if header.unsynch {
                Err(ErrorKind::Unsupported)
            } else {
                let frames_len = (len - ext_len) as u32;
                match spec_read_region(w.skip(start as int), header.version, frames_len) {
                    Err(e) => Err(e),
                    Ok(frames) => Ok(
                        (
                            TagView { header, frames },
                            spec_tag_len(header, len) as u32,
                            start + frames_len as nat,
                        ),
                    ),
                }
            },
        }
    }
}

/// A tag that is cut short is reported as truncated: where `w` holds a
/// tag that reading takes `used` bytes of, no shorter prefix of `w` holds
/// one, and the failure on it is `UnexpectedEof`.
pub proof fn lemma_truncated_tag(w: Seq<u8>, k: int)
    requires
        spec_read_tag(w) is Ok,
        0 <= k < spec_read_tag(w)->Ok_0.2,
    ensures
        spec_read_tag(w.take(k)) == Err::<(TagView, u32, nat), ErrorKind>(ErrorKind::UnexpectedEof),
{
    reveal(spec_read_tag);
    let v = w.take(k);
    if k >= 10 {
        assert(v.subrange(6, 10) =~= w.subrange(6, 10));
        let len = synchsafe_value(w.subrange(6, 10));
        assert(spec_header(v) == spec_header(w));
        let h = spec_header(w)->Ok_0;
        if h.extended {
            if k >= 14 {
                let a = w.skip(10);
                let b = v.skip(10);
                assert(b[0] == a[0] && b[1] == a[1] && b[2] == a[2] && b[3] == a[3]);
                assert(is_synchsafe(b) == is_synchsafe(a));
                assert(synchsafe_value(b) == synchsafe_value(a));
                assert(spec_be_u32(b) == spec_be_u32(a));
            }
        }
    }
}

/// A tag whose declared length exceeds the data is reported as truncated:
/// where the header of a tag is sound, and the tag declares more bytes of
/// frames than stand behind the header and the extended header, the
/// failure is `UnexpectedEof`.
pub proof fn lemma_declared_length_exceeds_data(w: Seq<u8>)
    requires
        w.len() >= 10,
        has_magic(w),
        is_synchsafe(w.subrange(6, 10)),
        spec_read_header(w, synchsafe_value(w.subrange(6, 10))) matches Ok(h) && !h.0.unsynch
            && w.len() - h.2 < synchsafe_value(w.subrange(6, 10)) - h.1,
    ensures
        spec_read_tag(w) == Err::<(TagView, u32, nat), ErrorKind>(ErrorKind::UnexpectedEof),
{
    reveal(spec_read_tag);
}

/// What a reader sees of a source from its position on, with or without
/// a limit.
pub open spec fn limited_window(c: Cursor<'_>, limit: Option<u64>) -> Seq<u8> {
    match limit {
        Some(l) => if l <= c.remaining().len() {
            c.remaining().take(l as int)
        } else {
            c.remaining()
        },
        None => c.remaining(),
    }
}

/// The identifier under which a tag of the given version holds a field:
/// the four-letter one from version 2.3 on, the three-letter one before.
pub open spec fn spec_fid(h: Header, post_v2_3: u32, pre_v2_3: u32) -> FrameId {
    if h.version.minor >= 3 {
        FrameId::of(post_v2_3)
    } else {
        FrameId::of(pre_v2_3)
    }
}

/// The first string of the text frame under which a tag holds a field.
pub open spec fn spec_field(t: TagView, post_v2_3: u32, pre_v2_3: u32) -> Option<Seq<char>> {
    spec_first_text_str(t.frames, spec_fid(t.header, post_v2_3, pre_v2_3))
}

/// The month and the day that a date frame of versions 2.2 and 2.3 holds
/// in its four bytes `MMDD`: nothing where the frame is missing, is not
/// four bytes long or holds no month, and a month alone where it holds no
/// day.
pub open spec fn spec_month_day(s: Option<Seq<char>>) -> (Option<u8>, Option<u8>) {
    match s {
        None => (None, None),
        Some(t) => {
            let b = vstd::utf8::encode_utf8(t);
            if b.len() != 4 {
                (None, None)
            } else {
                match parse_number(latin1_chars(b.take(2)), 0xff) {
                    None => (None, None),
                    Some(m) => (
                        Some(m as u8),
                        match parse_number(latin1_chars(b.skip(2)), 0xff) {
                            Some(d) => Some(d as u8),
                            None => None,
                        },
                    ),
                }
            }
        },
    }
}

/// The release date of a tag. Version 2.4 holds it as one timestamp;
/// versions 2.2 and 2.3 hold a year, and beside it a month and a day.
pub open spec fn spec_release_date(t: TagView) -> Option<Fields> {
    if t.header.version.minor == 4 {
        match spec_first_text_str(t.frames, FrameId::of(FrameId::RELEASE_TS)) {
            Some(s) => spec_parse(s),
            None => None,
        }
    } else {
        match spec_field(t, FrameId::V23_YEAR, FrameId::V22_YEAR) {
            None => None,
            Some(ys) => match parse_number(ys, 0xffff) {
                None => None,
                Some(y) => {
                    let md = spec_month_day(spec_field(t, FrameId::V23_DATE, FrameId::V22_DATE));
                    let f = Fields {
                        year: y as u16,
                        month: md.0,
                        day: md.1,
                        hour: None,
                        minute: None,
                        second: None,
                    };
                    if f.valid() {
                        Some(f)
                    } else {
                        None
                    }
                },
            },
        }
    }
}

pub open spec fn opt_str(s: Option<&str>) -> Option<Seq<char>> {
    match s {
        Some(t) => Some(t@),
        None => None,
    }
}

pub open spec fn opt_fields(t: Option<Timestamp>) -> Option<Fields> {
    match t {
        Some(t) => Some(t@),
        None => None,
    }
}

impl Header {
    /// Decodes the header of a tag from its ten bytes, and reads past the
    /// extended header behind them where one is declared. `len` is the
    /// length that the tag declares.
    fn read(rd: &mut Limited<Cursor<'_>>, bytes: &[u8], len: u32) -> (r: Result<
        (Header, u32, u32),
        Error,
    >)
        requires
            bytes@.len() == 10,
            len < 0x1000_0000,
        ensures
            match r {
                Ok((h, ext_len, tag_len)) => spec_read_header(
                    bytes@ + old(rd).window(),
                    len,
                ) matches Ok(p) && p.0 == h && p.1 == ext_len && tag_len == spec_tag_len(h, len)
                    && ext_len <= len && final(rd).advanced(old(rd), p.2 - 10) && final(rd).window()
                    == old(rd).window().skip(p.2 - 10),
                Err(e) => spec_read_header(bytes@ + old(rd).window(), len) == Err::<
                    (Header, u32, nat),
                    ErrorKind,
                >(e.kind),
            },
    {
        let ghost w = bytes@ + rd.window();
        assert(w.skip(10) =~= rd.window());
        let version: Version = Version::new(2, bytes[3], bytes[4]);
        if version.minor < 2 || version.minor > 4 {
            return Err(Error::new(ErrorKind::InvalidData, "bad version"));
        }
        let flags: u8 = bytes[5];
        if version.minor == 2 && flags & 0b0011_1111 != 0 {
            return Err(Error::new(ErrorKind::InvalidData, "invalid flags for v2.2"));
        }
        if version.minor == 3 && flags & 0b0001_1111 != 0 {
            return Err(Error::new(ErrorKind::InvalidData, "invalid flags for v2.3"));
        }
        if version.minor == 4 && flags & 0b0000_1111 != 0 {
            return Err(Error::new(ErrorKind::InvalidData, "invalid flags for v2.4"));
        }
        let unsynch: bool = get_bit_u8(flags, 7);
        let bit6: bool = get_bit_u8(flags, 6);
        // 2.2 uses this bit for compression flag.
        let (extended, compression): (bool, bool) = if version.minor == 2 {
            (false, bit6)
        } else {
            (bit6, false)
        };
        if compression {
            return Err(Error::new(ErrorKind::Unsupported, "v2.2 compression is not supported"));
        }
        let experimental: bool = get_bit_u8(flags, 5);
        let footer_present: bool = get_bit_u8(flags, 4);

        let ext_len: u32 = if extended {
            // The length of the whole extended header, and of what follows
            // its four bytes of length.
            let (ext_len, data_len): (u32, u32) = if version.minor >= 4 {
                let ext_len: u32 = match crate::id3::unsynch::read_u32(rd) {
                    Ok(Some(v)) => v,
                    Ok(None) => {
                        return Err(
                            Error::new(
                                ErrorKind::InvalidData,
                                "extended header size is not synch safe",
                            ),
                        );
                    },
                    Err(e) => {
                        return Err(e);
                    },
                };
                proof {
                    crate::id3::unsynch::lemma_synchsafe_value(w.skip(10));
                }
                if ext_len < 4 {
                    return Err(
                        Error::new(ErrorKind::InvalidData, "extended header size is too small"),
                    );
                }
                (ext_len, ext_len - 4)
            } else {
                let data_len: u32 = match rd.read_u32_be() {
                    Ok(v) => v,
                    Err(e) => {
                        return Err(e);
                    },
                };
                if data_len > len {
                    return Err(
                        Error::new(
                            ErrorKind::InvalidData,
                            "extended header is longer than the tag",
                        ),
                    );
                }
                (data_len + 4, data_len)
            };
            if ext_len > len {
                return Err(
                    Error::new(ErrorKind::InvalidData, "extended header is longer than the tag"),
                );
            }
            match rd.take_exact(data_len as usize) {
                Ok(_) => {},
                Err(_) => {
                    return Err(
                        Error::new(ErrorKind::UnexpectedEof, "extended header is truncated"),
                    );
                },
            }
            assert(rd.window() =~= w.skip(10).skip(ext_len as int));
            ext_len
        } else {
            0
        };

        let footer_len: u32 = if footer_present {
            HEADER_LEN as u32
        } else {
            0
        };
        let tag_len: u32 = HEADER_LEN as u32 + len + footer_len;

        let header = Header { version, unsynch, extended, experimental, footer_present };
        Ok((header, ext_len, tag_len))
    }
}

fn month_day(s: Option<&str>) -> (r: (Option<u8>, Option<u8>))
    ensures
        r == spec_month_day(opt_str(s)),
{
    let s: &str = match s {
        Some(s) => s,
        None => {
            return (None, None);
        },
    };
    let b: &[u8] = s.as_bytes();
    if b.len() != 4 {
        return (None, None);
    }
    let head: &[u8] = vstd::slice::slice_subrange(b, 0, 2);
    let tail: &[u8] = vstd::slice::slice_subrange(b, 2, 4);
    assert(head@ =~= b@.take(2));
    assert(tail@ =~= b@.skip(2));
    match number(&latin1_to_chars(head), 0xff) {
        None => (None, None),
        Some(m) => (
            Some(m as u8),
            match number(&latin1_to_chars(tail), 0xff) {
                Some(d) => Some(d as u8),
                None => None,
            },
        ),
    }
}

/// An ID3v2 tag: its header and its frames.
#[derive(Clone, Debug, PartialEq, Eq)]
pub struct Tag {
    header: Header,
    frames: Frames,
}

impl View for Tag {
    type V = TagView;

    closed spec fn view(&self) -> TagView {
        TagView { header: self.header, frames: self.frames@ }
    }
}

impl Tag {
    pub fn header(&self) -> (h: &Header)
        ensures
            *h == self@.header,
    {
        &self.header
    }

    pub fn frames(&self) -> (f: &Frames)
        ensures
            f@ == self@.frames,
    {
        &self.frames
    }

    pub fn album(&self) -> (r: Option<&str>)
        ensures
            opt_str(r) == spec_field(self@, FrameId::ALBUM, FrameId::V22_ALBUM),
    {
        self.frames.first_text_str(self.fid(FrameId::ALBUM, FrameId::V22_ALBUM))
    }

    pub fn artist(&self) -> (r: Option<&str>)
        ensures
            opt_str(r) == spec_field(self@, FrameId::ARTIST, FrameId::V22_ARTIST),
    {
        self.frames.first_text_str(self.fid(FrameId::ARTIST, FrameId::V22_ARTIST))
    }

    pub fn title(&self) -> (r: Option<&str>)
        ensures
            opt_str(r) == spec_field(self@, FrameId::TITLE, FrameId::V22_TITLE),
    {
        self.frames.first_text_str(self.fid(FrameId::TITLE, FrameId::V22_TITLE))
    }

    pub fn genre(&self) -> (r: Option<&str>)
        ensures
            opt_str(r) == spec_field(self@, FrameId::CONTENT_TYPE, FrameId::V22_CONTENT_TYPE),
    {
        self.frames.first_text_str(self.fid(FrameId::CONTENT_TYPE, FrameId::V22_CONTENT_TYPE))
    }

    pub fn release_date(&self) -> (r: Option<Timestamp>)
        ensures
            opt_fields(r) == spec_release_date(self@),
    {
        if self.header.version.minor == 4 {
            match self.frames.first_text_str(FrameId::from_u32(FrameId::RELEASE_TS)) {
                Some(s) => match Timestamp::parse(s) {
                    Ok(t) => Some(t),
                    Err(_) => None,
                },
                None => None,
            }
        } else {
            let year: u16 = match self.frames.first_text_str(
                self.fid(FrameId::V23_YEAR, FrameId::V22_YEAR),
            ) {
                Some(s) => match number(&chars_of(s), 0xffff) {
                    Some(y) => y as u16,
                    None => {
                        return None;
                    },
                },
                None => {
                    return None;
                },
            };
            let (month, day) = month_day(
                self.frames.first_text_str(self.fid(FrameId::V23_DATE, FrameId::V22_DATE)),
            );
            if month.is_none() && day.is_some() {
                return None;
            }
            Timestamp::new(year, month, day, None, None, None)
        }
    }

    fn fid(&self, post_v2_3: u32, pre_v2_3: u32) -> (r: FrameId)
        ensures
            r == spec_fid(self@.header, post_v2_3, pre_v2_3),
    {
        if self.header.version.minor >= 3 {
            FrameId::from_u32(post_v2_3)
        } else {
            FrameId::from_u32(pre_v2_3)
        }
    }

    /// Reads the tag that starts at the position of `rd`, from no more
    /// than `limit` bytes where a limit is given, and gives it with its
    /// length. After a tag was read the position stands behind its frames.
    pub fn read(rd: &mut Cursor<'_>, limit: Option<u64>) -> (r: Result<(Tag, u32), Error>)
        ensures
            final(rd).data() == old(rd).data(),
            match r {
                Ok((t, n)) => spec_read_tag(limited_window(*old(rd), limit)) matches Ok(p) && p.0
                    == t@ && p.1 == n && final(rd).spec_position() == old(rd).spec_position()
                    + p.2 && distinct_keys(t@.frames),
                Err(e) => spec_read_tag(limited_window(*old(rd), limit)) == Err::<
                    (TagView, u32, nat),
                    ErrorKind,
                >(e.kind) && *final(rd) == *old(rd),
            },
    {
        let source_len: usize = rd.remaining_len();
        let mut limited: Limited<Cursor<'_>> = Limited::new(
            *rd,
            match limit {
                Some(l) => l,
                None => u64::MAX,
            },
        );
        assert(limited.window() =~= limited_window(*rd, limit));
        match Self::read_limited(&mut limited) {
            Ok(p) => {
                *rd = limited.into_inner();
                Ok(p)
            },
            Err(e) => Err(e),
        }
    }

    #[verifier::rlimit(30)]
    fn read_limited(rd: &mut Limited<Cursor<'_>>) -> (r: Result<(Tag, u32), Error>)
        ensures
            match r {
                Ok((t, n)) => spec_read_tag(old(rd).window()) matches Ok(p) && p.0 == t@ && p.1
                    == n && final(rd).advanced(old(rd), p.2 as int) && distinct_keys(t@.frames),
                Err(e) => spec_read_tag(old(rd).window()) == Err::<
                    (TagView, u32, nat),
                    ErrorKind,
                >(e.kind),
            },
    {
        reveal(spec_read_tag);
        let ghost w = rd.window();
        let bytes: &[u8] = match rd.take_exact(HEADER_LEN) {
            Ok(b) => b,
            Err(e) => {
                return Err(e);
            },
        };
        let ghost after_header = rd.window();
        assert(after_header == w.skip(10));
        assert(bytes@ + after_header =~= w);
        if bytes[0] != 0x49 || bytes[1] != 0x44 || bytes[2] != 0x33 || bytes[4] == 0xff
            || bytes[5] == 0xff {
            return Err(Error::new(ErrorKind::BadMagic, "bad magic"));
        }
        let len_bytes: &[u8] = vstd::slice::slice_subrange(bytes, 6, 10);
        assert(len_bytes@ =~= w.subrange(6, 10));
        let len: u32 = match decode_u32(len_bytes) {
            Some(v) => v,
            None => {
                return Err(Error::new(ErrorKind::InvalidData, "bad tag len"));
            },
        };
        proof {
            crate::id3::unsynch::lemma_synchsafe_value(len_bytes@);
        }
        let (header, ext_len, tag_len) = match Header::read(rd, bytes, len) {
            Ok(p) => p,
            Err(e) => {
                return Err(e);
            },
        };
        let ghost start = spec_read_header(w, len)->Ok_0.2;
        assert(rd.window() =~= w.skip(start as int)) by {
            assert(w.skip(10).skip(start - 10) =~= w.skip(start as int));
        }
        if header.unsynch {
            return Err(Error::new(ErrorKind::Unsupported, "unsynchronisation is not supported"));
        }
        let frames_len: u32 = len - ext_len;
        let frames: Frames = match Frames::read(rd, header.version, frames_len) {
            Ok(f) => f,
            Err(e) => {
                return Err(e);
            },
        };
        Ok((Tag { header, frames }, tag_len))
    }
}

} // verus!
