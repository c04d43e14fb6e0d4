//! The bodies of frames: how they are decoded and how they merge.

use vstd::prelude::*;
use vstd::slice::{slice_subrange, slice_to_vec};
use vstd::string::StringExecFns;

use crate::error::{Error, ErrorKind};
use crate::id3::frame::id::FrameId;
use crate::id3::frame::{Encoding, Language};
use crate::util::limited::{Cursor, Limited};
use crate::util::text::{decimal, push_decimal};
use crate::util::read_vec_limited;
use crate::id3::string::{
    latin1_chars, spec_decode, spec_null_delimited, spec_null_terminated, spec_strip_trailing_nulls,
    strs, Decoder,
};

verus! {

/// The kinds of frame body.
#[derive(Clone, Copy, Debug, PartialEq, Eq, Structural)]
pub enum BodyKind {
    Bytes,
    Comment,
    Picture,
    Text,
    UniqueFileId,
    Url,
    UserText,
    UserUrl,
}

/// A text frame: one or more strings in one encoding.
#[derive(Clone, Debug, PartialEq, Eq)]
pub struct Text {
    pub encoding: Encoding,
    pub strings: Vec<String>,
}

pub struct TextView {
    pub encoding: Encoding,
    pub strings: Seq<Seq<char>>,
}

impl View for Text {
    type V = TextView;

    open spec fn view(&self) -> TextView {
        TextView { encoding: self.encoding, strings: strs(self.strings@) }
    }
}

/// A user-defined text frame: a description and its values.
#[derive(Clone, Debug, PartialEq, Eq)]
pub struct UserText {
    pub encoding: Encoding,
    pub description: String,
    pub values: Vec<String>,
}

pub struct UserTextView {
    pub encoding: Encoding,
    pub description: Seq<char>,
    pub values: Seq<Seq<char>>,
}

impl View for UserText {
    type V = UserTextView;

    open spec fn view(&self) -> UserTextView {
        UserTextView {
            encoding: self.encoding,
            description: self.description@,
            values: strs(self.values@),
        }
    }
}

/// A unique file identifier: who issued it, and the identifier.
#[derive(Clone, Debug, PartialEq, Eq)]
pub struct UniqueFileId {
    pub owner_id: String,
    pub id: Vec<u8>,
}

pub struct UniqueFileIdView {
    pub owner_id: Seq<char>,
    pub id: Seq<u8>,
}

impl View for UniqueFileId {
    type V = UniqueFileIdView;

    open spec fn view(&self) -> UniqueFileIdView {
        UniqueFileIdView { owner_id: self.owner_id@, id: self.id@ }
    }
}

/// A comment: its language, a description and the text.
#[derive(Clone, Debug, PartialEq, Eq)]
pub struct Comment {
    pub encoding: Encoding,
    pub lang: Language,
    pub description: String,
    pub text: String,
}

pub struct CommentView {
    pub encoding: Encoding,
    pub lang: Language,
    pub description: Seq<char>,
    pub text: Seq<char>,
}

impl View for Comment {
    type V = CommentView;

    open spec fn view(&self) -> CommentView {
        CommentView {
            encoding: self.encoding,
            lang: self.lang,
            description: self.description@,
            text: self.text@,
        }
    }
}

/// What an attached picture shows, as the byte that the frame holds. The
/// constants name the kinds that the standard defines.
#[derive(Clone, Copy, Debug, PartialEq, Eq, Structural)]
pub struct PictureKind(pub u8);

impl PictureKind {
    pub const OTHER: u8 = 0x00;

    /// 32x32 pixels 'file icon' (PNG only)
    pub const ICON: u8 = 0x01;

    /// Other file icon
    pub const OTHER_ICON: u8 = 0x02;

    /// Cover (front)
    pub const COVER_FRONT: u8 = 0x03;

    /// Cover (back)
    pub const COVER_BACK: u8 = 0x04;

    /// Leaflet page
    pub const LEAFLET: u8 = 0x05;

    /// Media (e.g. label side of CD)
    pub const MEDIA: u8 = 0x06;

    /// Lead artist/lead performer/soloist
    pub const LEAD_ARTIST: u8 = 0x07;

    /// Artist/performer
    pub const ARTIST: u8 = 0x08;

    /// Conductor
    pub const CONDUCTOR: u8 = 0x09;

    /// Band/Orchestra
    pub const BAND: u8 = 0x0A;

    /// Composer
    pub const COMPOSER: u8 = 0x0B;

    /// Lyricist/text writer
    pub const LYRICIST: u8 = 0x0C;

    /// Recording Location
    pub const RECORDING_LOCATION: u8 = 0x0D;

    /// During recording
    pub const DURING_RECORDING: u8 = 0x0E;

    /// During performance
    pub const DURING_PERFORMANCE: u8 = 0x0F;

    /// Movie/video screen capture
    pub const SCREEN_CAPTURE: u8 = 0x10;

    /// A bright coloured fish
    pub const BRIGHT_FISH: u8 = 0x11;

    /// Illustration
    pub const ILLUSTRATION: u8 = 0x12;

    /// Band/artist logotype
    pub const BAND_LOGO: u8 = 0x13;

    /// Publisher/Studio logotype
    pub const PUBLISHER_LOGOTYPE: u8 = 0x14;

    /// The name of a kind that the standard defines.
    pub open spec fn spec_name(kind: u8) -> Option<Seq<char>> {
        match kind {
            0 => Some("other"@),
            1 => Some("file icon"@),
            2 => Some("other file icon"@),
            3 => Some("cover (front)"@),
            4 => Some("cover (back)"@),
            5 => Some("leaflet page"@),
            6 => Some("media"@),
            7 => Some("lead artist/lead performer/soloist"@),
            8 => Some("artist/performer"@),
            9 => Some("conductor"@),
            10 => Some("band/orchestra"@),
            11 => Some("composer"@),
            12 => Some("lyricist/text writer"@),
            13 => Some("recording location"@),
            14 => Some("during recording"@),
            15 => Some("during performance"@),
            16 => Some("movie/video screen capture"@),
            17 => Some("a bright coloured fish"@),
            18 => Some("illustration"@),
            19 => Some("band/artist logotype"@),
            20 => Some("publisher/studio logotype"@),
            _ => None,
        }
    }

    /// The text of a kind: its name, or `unknown (N)` for a number that
    /// the standard does not define.
    pub open spec fn spec_text(kind: u8) -> Seq<char> {
        match Self::spec_name(kind) {
            Some(s) => s,
            None => "unknown ("@ + decimal(kind as nat) + ")"@,
        }
    }

    /// The name of a kind that the standard defines.
    pub fn name(&self) -> (r: Option<&'static str>)
        ensures
            (match r {
                Some(s) => Some(s@),
                None => None,
            }) == Self::spec_name(self.0),
            r is Some <==> self.0 <= Self::PUBLISHER_LOGOTYPE,
    {
        match self.0 {
            0 => Some("other"),
            1 => Some("file icon"),
            2 => Some("other file icon"),
            3 => Some("cover (front)"),
            4 => Some("cover (back)"),
            5 => Some("leaflet page"),
            6 => Some("media"),
            7 => Some("lead artist/lead performer/soloist"),
            8 => Some("artist/performer"),
            9 => Some("conductor"),
            10 => Some("band/orchestra"),
            11 => Some("composer"),
            12 => Some("lyricist/text writer"),
            13 => Some("recording location"),
            14 => Some("during recording"),
            15 => Some("during performance"),
            16 => Some("movie/video screen capture"),
            17 => Some("a bright coloured fish"),
            18 => Some("illustration"),
            19 => Some("band/artist logotype"),
            20 => Some("publisher/studio logotype"),
            _ => None,
        }
    }

    /// The text of the kind.
    pub fn to_string(&self) -> (r: String)
        ensures
            r@ == Self::spec_text(self.0),
    {
        match self.name() {
            Some(s) => String::from_str(s),
            None => {
                let mut r: String = String::from_str("unknown (");
                push_decimal(&mut r, self.0);
                r.append(")");
                r
            },
        }
    }
}

/// An attached picture.
#[derive(Clone, Debug, PartialEq, Eq)]
pub struct Picture {
    pub encoding: Encoding,
    pub content_type: String,
    pub picture_kind: PictureKind,
    pub description: String,
    pub data: Vec<u8>,
}

pub struct PictureView {
    pub encoding: Encoding,
    pub content_type: Seq<char>,
    pub picture_kind: PictureKind,
    pub description: Seq<char>,
    pub data: Seq<u8>,
}

impl View for Picture {
    type V = PictureView;

    open spec fn view(&self) -> PictureView {
        PictureView {
            encoding: self.encoding,
            content_type: self.content_type@,
            picture_kind: self.picture_kind,
            description: self.description@,
            data: self.data@,
        }
    }
}

/// A user-defined link frame: a description and the link.
#[derive(Clone, Debug, PartialEq, Eq)]
pub struct UserUrl {
    pub encoding: Encoding,
    pub description: String,
    pub url: String,
}

pub struct UserUrlView {
    pub encoding: Encoding,
    pub description: Seq<char>,
    pub url: Seq<char>,
}

impl View for UserUrl {
    type V = UserUrlView;

    open spec fn view(&self) -> UserUrlView {
        UserUrlView { encoding: self.encoding, description: self.description@, url: self.url@ }
    }
}

/// The body of a frame.
#[derive(Clone, Debug, PartialEq, Eq)]
pub enum Body {
    Bytes(Vec<u8>),
    Comment(Comment),
    Picture(Picture),
    Text(Text),
    UniqueFileId(UniqueFileId),
    Url(String),
    UserText(UserText),
    UserUrl(UserUrl),
}

pub enum BodyView {
    Bytes(Seq<u8>),
    Comment(CommentView),
    Picture(PictureView),
    Text(TextView),
    UniqueFileId(UniqueFileIdView),
    Url(Seq<char>),
    UserText(UserTextView),
    UserUrl(UserUrlView),
}

impl BodyView {
    pub open spec fn kind(self) -> BodyKind {
        match self {
            BodyView::Bytes(_) => BodyKind::Bytes,
            BodyView::Comment(_) => BodyKind::Comment,
            BodyView::Picture(_) => BodyKind::Picture,
            BodyView::Text(_) => BodyKind::Text,
            BodyView::UniqueFileId(_) => BodyKind::UniqueFileId,
            BodyView::Url(_) => BodyKind::Url,
            BodyView::UserText(_) => BodyKind::UserText,
            BodyView::UserUrl(_) => BodyKind::UserUrl,
        }
    }
}

impl View for Body {
    type V = BodyView;

    open spec fn view(&self) -> BodyView {
        match self {
            Body::Bytes(v) => BodyView::Bytes(v@),
            Body::Comment(v) => BodyView::Comment(v@),
            Body::Picture(v) => BodyView::Picture(v@),
            Body::Text(v) => BodyView::Text(v@),
            Body::UniqueFileId(v) => BodyView::UniqueFileId(v@),
            Body::Url(v) => BodyView::Url(v@),
            Body::UserText(v) => BodyView::UserText(v@),
            Body::UserUrl(v) => BodyView::UserUrl(v@),
        }
    }
}

/// A decoded value or the kind of failure, from the result of a part.
pub open spec fn and_then<A, B>(r: Result<A, ErrorKind>, f: spec_fn(A) -> Result<B, ErrorKind>)
    -> Result<B, ErrorKind> {
    match r {
        Ok(a) => f(a),
        Err(e) => Err(e),
    }
}

/// The encoding that the first byte of a frame declares.
pub open spec fn declared_encoding(buf: Seq<u8>) -> Result<Encoding, ErrorKind> {
    match Encoding::spec_from_u8(buf[0]) {
        Some(e) => Ok(e),
        None => Err(ErrorKind::InvalidData),
    }
}

/// A text frame: the encoding byte, then strings that terminators
/// separate.
pub open spec fn spec_decode_text(buf: Seq<u8>) -> Result<TextView, ErrorKind> {
    and_then(
        declared_encoding(buf),
        |enc: Encoding|
            and_then(
                spec_null_delimited(enc, buf.skip(1)),
                |strings: Seq<Seq<char>>| Ok(TextView { encoding: enc, strings }),
            ),
    )
}

/// A user-defined text frame: the encoding byte, a terminated
/// description, then values that terminators separate.
pub open spec fn spec_decode_user_text(buf: Seq<u8>) -> Result<UserTextView, ErrorKind> {
    and_then(
        declared_encoding(buf),
        |enc: Encoding|
            and_then(
                spec_null_terminated(enc, buf.skip(1), true),
                |p: (Seq<char>, Seq<u8>)|
                    and_then(
                        spec_null_delimited(enc, p.1),
                        |values: Seq<Seq<char>>|
                            Ok(UserTextView { encoding: enc, description: p.0, values }),
                    ),
            ),
    )
}

/// A user-defined link frame: the encoding byte, a terminated
/// description, then the link without trailing terminators.
pub open spec fn spec_decode_user_url(buf: Seq<u8>) -> Result<UserUrlView, ErrorKind> {
    and_then(
        declared_encoding(buf),
        |enc: Encoding|
            and_then(
                spec_null_terminated(enc, buf.skip(1), true),
                |p: (Seq<char>, Seq<u8>)|
                    and_then(
                        spec_decode(enc, spec_strip_trailing_nulls(enc, p.1)),
                        |url: Seq<char>| Ok(UserUrlView { encoding: enc, description: p.0, url }),
                    ),
            ),
    )
}

/// A comment: the encoding byte, three bytes of language, a terminated
/// description, then the text without trailing terminators. It takes at
/// least five bytes.
pub open spec fn spec_decode_comment(buf: Seq<u8>) -> Result<CommentView, ErrorKind> {
    if buf.len() < 5 {
        Err(ErrorKind::InvalidData)
    } else {
        and_then(
            declared_encoding(buf),
            |enc: Encoding|
                and_then(
                    spec_null_terminated(enc, buf.skip(4), true),
                    |p: (Seq<char>, Seq<u8>)|
                        and_then(
                            spec_decode(enc, spec_strip_trailing_nulls(enc, p.1)),
                            |text: Seq<char>|
                                Ok(
                                    CommentView {
                                        encoding: enc,
                                        lang: Language::spec_new(buf[1], buf[2], buf[3]),
                                        description: p.0,
                                        text,
                                    },
                                ),
                        ),
                ),
        )
    }
}

/// A link frame: one Latin-1 text, up to a terminator where there is
/// one.
pub open spec fn spec_decode_url(buf: Seq<u8>) -> Result<Seq<char>, ErrorKind> {
    and_then(
        spec_null_terminated(Encoding::Latin1, buf, false),
        |p: (Seq<char>, Seq<u8>)| Ok(p.0),
    )
}

/// An attached picture: the encoding byte, a terminated Latin-1 content
/// type, the kind byte, a terminated description, and the image in what
/// is left. It takes at least six bytes, two of them behind the content
/// type.
pub open spec fn spec_decode_picture(buf: Seq<u8>) -> Result<PictureView, ErrorKind> {
    if buf.len() < 6 {
        Err(ErrorKind::InvalidData)
    } else {
        and_then(
            declared_encoding(buf),
            |enc: Encoding|
                and_then(
                    spec_null_terminated(Encoding::Latin1, buf.skip(1), true),
                    |ct: (Seq<char>, Seq<u8>)|
                        if ct.1.len() < 2 {
                            Err(ErrorKind::InvalidData)
                        } else {
                            and_then(
                                spec_null_terminated(enc, ct.1.skip(1), true),
                                |d: (Seq<char>, Seq<u8>)|
                                    Ok(
                                        PictureView {
                                            encoding: enc,
                                            content_type: ct.0,
                                            picture_kind: PictureKind(ct.1[0]),
                                            description: d.0,
                                            data: d.1,
                                        },
                                    ),
                            )
                        },
                ),
        )
    }
}

/// An ASCII letter in lower case, any other byte as it is.
pub open spec fn spec_ascii_lower(b: u8) -> u8 {
    if 0x41 <= b <= 0x5a {
        (b + 0x20) as u8
    } else {
        b
    }
}

/// The content type that the three-letter format code of a version 2.2
/// picture stands for, whatever the case of its letters: a MIME type for
/// the known image formats, the link marker `-->` for itself, and for any
/// other code its lower-case letters as Latin-1 text.
pub open spec fn spec_v22_content_type(f0: u8, f1: u8, f2: u8) -> Seq<char> {
    let l0 = spec_ascii_lower(f0);
    let l1 = spec_ascii_lower(f1);
    let l2 = spec_ascii_lower(f2);
    if l0 == 0x62 && l1 == 0x6d && l2 == 0x70 {
        "image/bmp"@
    } else if l0 == 0x67 && l1 == 0x69 && l2 == 0x66 {
        "image/gif"@
    } else if l0 == 0x6a && l1 == 0x70 && l2 == 0x67 {
        "image/jpeg"@
    } else if l0 == 0x70 && l1 == 0x6e && l2 == 0x67 {
        "image/png"@
    } else if l0 == 0x74 && l1 == 0x69 && l2 == 0x66 {
        "image/tiff"@
    } else if l0 == 0x2d && l1 == 0x2d && l2 == 0x3e {
        "-->"@
    } else {
        latin1_chars(seq![l0, l1, l2])
    }
}

/// An attached picture of version 2.2: the encoding byte, three bytes of
/// format code, the kind byte, a terminated description, and the image in
/// what is left. It takes at least six bytes.
pub open spec fn spec_decode_picture_v22(buf: Seq<u8>) -> Result<PictureView, ErrorKind> {
    if buf.len() < 6 {
        Err(ErrorKind::InvalidData)
    } else {
        and_then(
            declared_encoding(buf),
            |enc: Encoding|
                and_then(
                    spec_null_terminated(enc, buf.skip(5), true),
                    |d: (Seq<char>, Seq<u8>)|
                        Ok(
                            PictureView {
                                encoding: enc,
                                content_type: spec_v22_content_type(buf[1], buf[2], buf[3]),
                                picture_kind: PictureKind(buf[4]),
                                description: d.0,
                                data: d.1,
                            },
                        ),
                ),
        )
    }
}

/// The body that the bytes of a frame hold, by the frame's identifier.
/// An empty frame is always a failure.
pub open spec fn spec_decode_body(id: FrameId, buf: Seq<u8>) -> Result<BodyView, ErrorKind> {
    let v = id.value();
    if buf.len() == 0 {
        Err(ErrorKind::InvalidData)
    } else if v == FrameId::ATTACHED_PICTURE {
        and_then(spec_decode_picture(buf), |p: PictureView| Ok(BodyView::Picture(p)))
    } else if v == FrameId::V22_ATTACHED_PICTURE {
        and_then(spec_decode_picture_v22(buf), |p: PictureView| Ok(BodyView::Picture(p)))
    } else if v == FrameId::COMMENT || v == FrameId::V22_COMMENT {
        and_then(spec_decode_comment(buf), |c: CommentView| Ok(BodyView::Comment(c)))
    } else if v == FrameId::USER_TEXT || v == FrameId::V22_USER_TEXT {
        and_then(spec_decode_user_text(buf), |t: UserTextView| Ok(BodyView::UserText(t)))
    } else if v == FrameId::USER_URL {
        and_then(spec_decode_user_url(buf), |u: UserUrlView| Ok(BodyView::UserUrl(u)))
    } else if id.spec_is_text() {
        and_then(spec_decode_text(buf), |t: TextView| Ok(BodyView::Text(t)))
    } else if id.spec_is_url() {
        and_then(spec_decode_url(buf), |u: Seq<char>| Ok(BodyView::Url(u)))
    } else {
        Ok(BodyView::Bytes(buf))
    }
}

impl Text {
    fn decode(buf: &[u8]) -> (r: Result<Text, Error>)
        requires
            buf@.len() > 0,
        ensures
            match r {
                Ok(t) => spec_decode_text(buf@) == Ok::<TextView, ErrorKind>(t@),
                Err(e) => spec_decode_text(buf@) == Err::<TextView, ErrorKind>(e.kind),
            },
    {
        let encoding: Encoding = match Encoding::from_u8(buf[0]) {
            Ok(e) => e,
            Err(e) => {
                return Err(e);
            },
        };
        let rest: &[u8] = slice_subrange(buf, 1, buf.len());
        assert(rest@ =~= buf@.skip(1));
        match Decoder::new(encoding).decode_null_delimited(rest) {
            Ok(strings) => Ok(Text { encoding, strings }),
            Err(e) => Err(e),
        }
    }
}

impl UserText {
    fn decode(buf: &[u8]) -> (r: Result<UserText, Error>)
        requires
            buf@.len() > 0,
        ensures
            match r {
                Ok(t) => spec_decode_user_text(buf@) == Ok::<UserTextView, ErrorKind>(t@),
                Err(e) => spec_decode_user_text(buf@) == Err::<UserTextView, ErrorKind>(e.kind),
            },
    {
        let encoding: Encoding = match Encoding::from_u8(buf[0]) {
            Ok(e) => e,
            Err(e) => {
                return Err(e);
            },
        };
        let decoder: Decoder = Decoder::new(encoding);
        let rest: &[u8] = slice_subrange(buf, 1, buf.len());
        assert(rest@ =~= buf@.skip(1));
        let (description, rest) = match decoder.decode_null_terminated(rest) {
            Ok(p) => p,
            Err(e) => {
                return Err(e);
            },
        };
        match decoder.decode_null_delimited(rest) {
            Ok(values) => Ok(UserText { encoding, description, values }),
            Err(e) => Err(e),
        }
    }
}

impl UserUrl {
    fn decode(buf: &[u8]) -> (r: Result<UserUrl, Error>)
        requires
            buf@.len() > 0,
        ensures
            match r {
                Ok(t) => spec_decode_user_url(buf@) == Ok::<UserUrlView, ErrorKind>(t@),
                Err(e) => spec_decode_user_url(buf@) == Err::<UserUrlView, ErrorKind>(e.kind),
            },
    {
        let encoding: Encoding = match Encoding::from_u8(buf[0]) {
            Ok(e) => e,
            Err(e) => {
                return Err(e);
            },
        };
        let decoder: Decoder = Decoder::new(encoding);
        let rest: &[u8] = slice_subrange(buf, 1, buf.len());
        assert(rest@ =~= buf@.skip(1));
        let (description, rest) = match decoder.decode_null_terminated(rest) {
            Ok(p) => p,
            Err(e) => {
                return Err(e);
            },
        };
        match decoder.decode_null_stripped(rest) {
            Ok(url) => Ok(UserUrl { encoding, description, url }),
            Err(e) => Err(e),
        }
    }
}

impl Comment {
    fn decode(buf: &[u8]) -> (r: Result<Comment, Error>)
        ensures
            match r {
                Ok(t) => spec_decode_comment(buf@) == Ok::<CommentView, ErrorKind>(t@),
                Err(e) => spec_decode_comment(buf@) == Err::<CommentView, ErrorKind>(e.kind),
            },
    {
        if buf.len() < 5 {
            return Err(Error::new(ErrorKind::InvalidData, "frame truncated"));
        }
        let encoding: Encoding = match Encoding::from_u8(buf[0]) {
            Ok(e) => e,
            Err(e) => {
                return Err(e);
            },
        };
        let decoder: Decoder = Decoder::new(encoding);
        let lang: Language = Language::new([buf[1], buf[2], buf[3]]);
        let rest: &[u8] = slice_subrange(buf, 4, buf.len());
        assert(rest@ =~= buf@.skip(4));
        let (description, rest) = match decoder.decode_null_terminated(rest) {
            Ok(p) => p,
            Err(e) => {
                return Err(e);
            },
        };
        match decoder.decode_null_stripped(rest) {
            Ok(text) => Ok(Comment { encoding, lang, description, text }),
            Err(e) => Err(e),
        }
    }
}

fn ascii_lower(b: u8) -> (r: u8)
    ensures
        r == spec_ascii_lower(b),
{
    if b >= 0x41 && b <= 0x5a {
        b + 0x20
    } else {
        b
    }
}

fn v22_content_type(f0: u8, f1: u8, f2: u8) -> (r: String)
    ensures
        r@ == spec_v22_content_type(f0, f1, f2),
{
    let l0: u8 = ascii_lower(f0);
    let l1: u8 = ascii_lower(f1);
    let l2: u8 = ascii_lower(f2);
    if l0 == 0x62 && l1 == 0x6d && l2 == 0x70 {
        String::from_str("image/bmp")
    } else if l0 == 0x67 && l1 == 0x69 && l2 == 0x66 {
        String::from_str("image/gif")
    } else if l0 == 0x6a && l1 == 0x70 && l2 == 0x67 {
        String::from_str("image/jpeg")
    } else if l0 == 0x70 && l1 == 0x6e && l2 == 0x67 {
        String::from_str("image/png")
    } else if l0 == 0x74 && l1 == 0x69 && l2 == 0x66 {
        String::from_str("image/tiff")
    } else if l0 == 0x2d && l1 == 0x2d && l2 == 0x3e {
        String::from_str("-->")
    } else {
        let format: [u8; 3] = [l0, l1, l2];
        assert(format@ =~= seq![l0, l1, l2]);
        match Decoder::new(Encoding::Latin1).decode(format.as_slice()) {
            Ok(t) => t,
            Err(_) => String::new(),
        }
    }
}

impl Picture {
    fn decode(buf: &[u8]) -> (r: Result<Picture, Error>)
        ensures
            match r {
                Ok(t) => spec_decode_picture(buf@) == Ok::<PictureView, ErrorKind>(t@),
                Err(e) => spec_decode_picture(buf@) == Err::<PictureView, ErrorKind>(e.kind),
            },
    {
        if buf.len() < 6 {
            return Err(Error::new(ErrorKind::InvalidData, "frame truncated"));
        }
        let encoding: Encoding = match Encoding::from_u8(buf[0]) {
            Ok(e) => e,
            Err(e) => {
                return Err(e);
            },
        };
        let decoder: Decoder = Decoder::new(encoding);
        let rest: &[u8] = slice_subrange(buf, 1, buf.len());
        assert(rest@ =~= buf@.skip(1));
        let (content_type, rest) = match Decoder::new(Encoding::Latin1).decode_null_terminated(
            rest,
        ) {
            Ok(p) => p,
            Err(e) => {
                return Err(e);
            },
        };
        if rest.len() < 2 {
            return Err(Error::new(ErrorKind::InvalidData, "frame truncated"));
        }
        let picture_kind: PictureKind = PictureKind(rest[0]);
        let rest2: &[u8] = slice_subrange(rest, 1, rest.len());
        assert(rest2@ =~= rest@.skip(1));
        let (description, data) = match decoder.decode_null_terminated(rest2) {
            Ok(p) => p,
            Err(e) => {
                return Err(e);
            },
        };
        Ok(Picture { encoding, content_type, picture_kind, description, data: slice_to_vec(data) })
    }

    fn decode_v22(buf: &[u8]) -> (r: Result<Picture, Error>)
        ensures
            match r {
                Ok(t) => spec_decode_picture_v22(buf@) == Ok::<PictureView, ErrorKind>(t@),
                Err(e) => spec_decode_picture_v22(buf@) == Err::<PictureView, ErrorKind>(e.kind),
            },
    {
        if buf.len() < 6 {
            return Err(Error::new(ErrorKind::InvalidData, "frame truncated"));
        }
        let encoding: Encoding = match Encoding::from_u8(buf[0]) {
            Ok(e) => e,
            Err(e) => {
                return Err(e);
            },
        };
        let decoder: Decoder = Decoder::new(encoding);
        let content_type: String = v22_content_type(buf[1], buf[2], buf[3]);
        let picture_kind: PictureKind = PictureKind(buf[4]);
        let rest: &[u8] = slice_subrange(buf, 5, buf.len());
        assert(rest@ =~= buf@.skip(5));
        let (description, data) = match decoder.decode_null_terminated(rest) {
            Ok(p) => p,
            Err(e) => {
                return Err(e);
            },
        };
        Ok(Picture { encoding, content_type, picture_kind, description, data: slice_to_vec(data) })
    }
}

/// What merging a second body of the same kind into a first makes of the
/// first, and the body that is to be stored anew beside it, if any.
///
/// Plain bytes, unique file identifiers, links and user-defined links are
/// replaced by the second. Comments join their texts with a line break,
/// unless the first text is empty; texts and user-defined texts append the
/// second list to the first; all three take the wider encoding. A picture
/// is left as it is, and the second picture is handed back with a space
/// added to its description.
pub open spec fn spec_merge(a: BodyView, b: BodyView) -> (BodyView, Option<BodyView>) {
    match (a, b) {
        (BodyView::Comment(x), BodyView::Comment(y)) => (
            BodyView::Comment(
                CommentView {
                    encoding: x.encoding.spec_common(y.encoding),
                    lang: x.lang,
                    description: x.description,
                    text: if x.text.len() > 0 {
                        x.text + seq!['\n'] + y.text
                    } else {
                        y.text
                    },
                },
            ),
            None,
        ),
        (BodyView::Picture(x), BodyView::Picture(y)) => (
            a,
            Some(
                BodyView::Picture(
                    PictureView {
                        encoding: y.encoding,
                        content_type: y.content_type,
                        picture_kind: y.picture_kind,
                        description: y.description.push(' '),
                        data: y.data,
                    },
                ),
            ),
        ),
        (BodyView::Text(x), BodyView::Text(y)) => (
            BodyView::Text(
                TextView {
                    encoding: x.encoding.spec_common(y.encoding),
                    strings: x.strings + y.strings,
                },
            ),
            None,
        ),
        (BodyView::UserText(x), BodyView::UserText(y)) => (
            BodyView::UserText(
                UserTextView {
                    encoding: x.encoding.spec_common(y.encoding),
                    description: x.description,
                    values: x.values + y.values,
                },
            ),
            None,
        ),
        _ => (b, None),
    }
}

pub open spec fn opt_body_view(o: Option<Body>) -> Option<BodyView> {
    match o {
        Some(b) => Some(b@),
        None => None,
    }
}

impl Body {
    pub fn kind(&self) -> (k: BodyKind)
        ensures
            k == self@.kind(),
    {
        match self {
            Body::Bytes(_) => BodyKind::Bytes,
            Body::Comment(_) => BodyKind::Comment,
            Body::Picture(_) => BodyKind::Picture,
            Body::Text(_) => BodyKind::Text,
            Body::UniqueFileId(_) => BodyKind::UniqueFileId,
            Body::Url(_) => BodyKind::Url,
            Body::UserText(_) => BodyKind::UserText,
            Body::UserUrl(_) => BodyKind::UserUrl,
        }
    }

    /// Merges a body of the same kind into this one. Where the result is
    /// `Some`, that body is to be stored as a frame of its own.
    #[must_use]
    pub fn merge_from(&mut self, o: Body) -> (r: Option<Body>)
        requires
            old(self)@.kind() == o@.kind(),
        ensures
            (final(self)@, opt_body_view(r)) == spec_merge(old(self)@, o@),
    {
        match self {
            Body::Comment(v) => {
                if let Body::Comment(o) = o {
                    if !v.text.as_str().is_empty() {
                        v.text.push('\n');
                    }
                    v.encoding = v.encoding.common(o.encoding);
                    v.text.append(o.text.as_str());
                    assert(v.text@ =~= if old(self)@->Comment_0.text.len() > 0 {
                        old(self)@->Comment_0.text + seq!['\n'] + o.text@
                    } else {
                        o.text@
                    });
                }
                None
            },
            Body::Picture(_) => {
                if let Body::Picture(mut o) = o {
                    o.description.push(' ');
                    Some(Body::Picture(o))
                } else {
                    None
                }
            },
            Body::Text(v) => {
                if let Body::Text(mut o) = o {
                    v.encoding = v.encoding.common(o.encoding);
                    let ghost before = strs(v.strings@);
                    let ghost added = strs(o.strings@);
                    v.strings.append(&mut o.strings);
                    assert(strs(v.strings@) =~= before + added);
                }
                None
            },
            Body::UserText(v) => {
                if let Body::UserText(mut o) = o {
                    v.encoding = v.encoding.common(o.encoding);
                    let ghost before = strs(v.values@);
                    let ghost added = strs(o.values@);
                    v.values.append(&mut o.values);
                    assert(strs(v.values@) =~= before + added);
                }
                None
            },
            _ => {
                *self = o;
                None
            },
        }
    }

    /// Reads `len` bytes, as far as the source holds them, and decodes the
    /// body of a frame from them. It fails before reading where the budget
    /// of the reader is below `len`.
    pub fn read(rd: &mut Limited<Cursor<'_>>, frame_id: FrameId, len: u32) -> (r: Result<
        Body,
        Error,
    >)
        ensures
            spec_read_body(old(rd).spec_max_available(), old(rd).window(), frame_id, len) == (
                match r {
                    Ok(b) => Ok::<BodyView, ErrorKind>(b@),
                    Err(e) => Err::<BodyView, ErrorKind>(e.kind),
                }
            ),
            r is Ok ==> final(rd).advanced(old(rd), body_len(old(rd).window(), len) as int)
                && final(rd).window() == old(rd).window().skip(
                body_len(old(rd).window(), len) as int,
            ),
    {
        let bytes: Vec<u8> = match read_vec_limited(rd, len as usize, "frame truncated") {
            Ok(b) => b,
            Err(e) => {
                return Err(e);
            },
        };
        Self::decode(frame_id, bytes)
    }

    /// Decodes the body of a frame from its bytes, by the frame's
    /// identifier.
    pub fn decode(frame_id: FrameId, buf: Vec<u8>) -> (r: Result<Body, Error>)
        ensures
            spec_decode_body(frame_id, buf@) == (match r {
                Ok(b) => Ok::<BodyView, ErrorKind>(b@),
                Err(e) => Err::<BodyView, ErrorKind>(e.kind),
            }),
    {
        if buf.len() == 0 {
            return Err(Error::new(ErrorKind::InvalidData, "frame body is empty"));
        }
        let v: u32 = frame_id.to_u32();
        if v == FrameId::ATTACHED_PICTURE {
            match Picture::decode(buf.as_slice()) {
                Ok(p) => Ok(Body::Picture(p)),
                Err(e) => Err(e),
            }
        } else if v == FrameId::V22_ATTACHED_PICTURE {
            match Picture::decode_v22(buf.as_slice()) {
                Ok(p) => Ok(Body::Picture(p)),
                Err(e) => Err(e),
            }
        } else if v == FrameId::COMMENT || v == FrameId::V22_COMMENT {
            match Comment::decode(buf.as_slice()) {
                Ok(c) => Ok(Body::Comment(c)),
                Err(e) => Err(e),
            }
        } else if v == FrameId::USER_TEXT || v == FrameId::V22_USER_TEXT {
            match UserText::decode(buf.as_slice()) {
                Ok(t) => Ok(Body::UserText(t)),
                Err(e) => Err(e),
            }
        } else if v == FrameId::USER_URL {
            match UserUrl::decode(buf.as_slice()) {
                Ok(u) => Ok(Body::UserUrl(u)),
                Err(e) => Err(e),
            }
        } else if frame_id.is_text() {
            match Text::decode(buf.as_slice()) {
                Ok(t) => Ok(Body::Text(t)),
                Err(e) => Err(e),
            }
        } else if frame_id.is_url() {
            match Self::decode_url(buf.as_slice()) {
                Ok(u) => Ok(Body::Url(u)),
                Err(e) => Err(e),
            }
        } else {
            Ok(Body::Bytes(buf))
        }
    }

    fn decode_url(buf: &[u8]) -> (r: Result<String, Error>)
        ensures
            spec_decode_url(buf@) == (match r {
                Ok(u) => Ok::<Seq<char>, ErrorKind>(u@),
                Err(e) => Err::<Seq<char>, ErrorKind>(e.kind),
            }),
    {
        Decoder::new(Encoding::Latin1).decode_maybe_null_terminated(buf)
    }

    pub fn as_text(&self) -> (r: Option<&Text>)
        ensures
            match r {
                Some(t) => self@ == BodyView::Text(t@),
                None => !(self@ is Text),
            },
    {
        match self {
            Body::Text(t) => Some(t),
            _ => None,
        }
    }

    pub fn as_comment(&self) -> (r: Option<&Comment>)
        ensures
            match r {
                Some(t) => self@ == BodyView::Comment(t@),
                None => !(self@ is Comment),
            },
    {
        match self {
            Body::Comment(t) => Some(t),
            _ => None,
        }
    }

    pub fn as_picture(&self) -> (r: Option<&Picture>)
        ensures
            match r {
                Some(t) => self@ == BodyView::Picture(t@),
                None => !(self@ is Picture),
            },
    {
        match self {
            Body::Picture(t) => Some(t),
            _ => None,
        }
    }

    pub fn as_user_text(&self) -> (r: Option<&UserText>)
        ensures
            match r {
                Some(t) => self@ == BodyView::UserText(t@),
                None => !(self@ is UserText),
            },
    {
        match self {
            Body::UserText(t) => Some(t),
            _ => None,
        }
    }

    pub fn as_user_url(&self) -> (r: Option<&UserUrl>)
        ensures
            match r {
                Some(t) => self@ == BodyView::UserUrl(t@),
                None => !(self@ is UserUrl),
            },
    {
        match self {
            Body::UserUrl(t) => Some(t),
            _ => None,
        }
    }

    pub fn as_url(&self) -> (r: Option<&String>)
        ensures
            match r {
                Some(t) => self@ == BodyView::Url(t@),
                None => !(self@ is Url),
            },
    {
        match self {
            Body::Url(t) => Some(t),
            _ => None,
        }
    }

    pub fn as_bytes(&self) -> (r: Option<&Vec<u8>>)
        ensures
            match r {
                Some(t) => self@ == BodyView::Bytes(t@),
                None => !(self@ is Bytes),
            },
    {
        match self {
            Body::Bytes(t) => Some(t),
            _ => None,
        }
    }
}

/// The number of bytes that a read of a body of the declared length takes
/// from the window: the declared length, or the whole window where it is
/// shorter.
pub open spec fn body_len(window: Seq<u8>, len: u32) -> nat {
    if len <= window.len() {
        len as nat
    } else {
        window.len()
    }
}

/// What a read of a body of the declared length gives, for a reader with
/// the given budget and window.
pub open spec fn spec_read_body(budget: u64, window: Seq<u8>, id: FrameId, len: u32) -> Result<
    BodyView,
    ErrorKind,
> {
    if budget < len {
        Err(ErrorKind::UnexpectedEof)
    } else {
        spec_decode_body(id, window.take(body_len(window, len) as int))
    }
}

} // verus!
