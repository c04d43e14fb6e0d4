use tagen::error::ErrorKind;
use tagen::id3::frame::body::{Body, BodyKind, Comment, Picture, PictureKind, Text, UserText, UserUrl};
use tagen::id3::frame::{Encoding, Frame, FrameId, Frames, Language};
use tagen::id3::string::Decoder;
use tagen::id3::unsynch;
use tagen::id3::v2::Tag;
use tagen::id3::Version;
use tagen::timestamp::Timestamp;
use tagen::util::limited::{Cursor, Limited};

fn synchsafe(n: u32) -> [u8; 4] {
    [((n >> 21) & 0x7f) as u8, ((n >> 14) & 0x7f) as u8, ((n >> 7) & 0x7f) as u8, (n & 0x7f) as u8]
}

fn frame_v23(id: &[u8; 4], body: &[u8]) -> Vec<u8> {
    let mut v = id.to_vec();
    v.extend_from_slice(&(body.len() as u32).to_be_bytes());
    v.extend_from_slice(&[0, 0]);
    v.extend_from_slice(body);
    v
}

fn frame_v24(id: &[u8; 4], body: &[u8]) -> Vec<u8> {
    let mut v = id.to_vec();
    v.extend_from_slice(&synchsafe(body.len() as u32));
    v.extend_from_slice(&[0, 0]);
    v.extend_from_slice(body);
    v
}

fn frame_v22(id: &[u8; 3], body: &[u8]) -> Vec<u8> {
    let mut v = id.to_vec();
    let len = (body.len() as u32).to_be_bytes();
    v.extend_from_slice(&len[1..]);
    v.extend_from_slice(body);
    v
}

fn tag(minor: u8, flags: u8, frames: &[u8]) -> Vec<u8> {
    let mut v = b"ID3".to_vec();
    v.extend_from_slice(&[minor, 0, flags]);
    v.extend_from_slice(&synchsafe(frames.len() as u32));
    v.extend_from_slice(frames);
    v
}

fn latin1_text(s: &str) -> Vec<u8> {
    let mut v = vec![0u8];
    v.extend_from_slice(s.as_bytes());
    v
}

fn read_tag(data: &[u8]) -> Result<(Tag, u32), tagen::error::Error> {
    let mut rd = Cursor::new(data);
    Tag::read(&mut rd, Some(data.len() as u64))
}

#[test]
fn synchsafe_decodes_seven_bits_per_byte() {
    assert_eq!(unsynch::decode_u32(&[0, 0, 0, 0]), Some(0));
    assert_eq!(unsynch::decode_u32(&[0, 0, 0, 0x7f]), Some(0x7f));
    assert_eq!(unsynch::decode_u32(&[0, 0, 1, 0]), Some(0x80));
    assert_eq!(unsynch::decode_u32(&[0x7f, 0x7f, 0x7f, 0x7f]), Some(0x0fff_ffff));
    assert_eq!(unsynch::decode_u32(&[0x01, 0x02, 0x03, 0x04]), Some(1 << 21 | 2 << 14 | 3 << 7 | 4));
    for bad in 0..4 {
        let mut b = [1u8, 2, 3, 4];
        b[bad] = 0x80;
        assert_eq!(unsynch::decode_u32(&b), None);
        b[bad] = 0xff;
        assert_eq!(unsynch::decode_u32(&b), None);
    }
}

#[test]
fn synchsafe_read_takes_four_bytes() {
    let data = [0u8, 0, 2, 1, 9];
    let mut rd = Limited::new(Cursor::new(&data), 5);
    assert_eq!(unsynch::read_u32(&mut rd).unwrap(), Some(257));
    assert_eq!(rd.pos(), 4);
    assert_eq!(unsynch::read_u32(&mut rd).unwrap_err().kind(), ErrorKind::UnexpectedEof);
}

#[test]
fn frame_id_packs_its_bytes() {
    let id = FrameId::new(*b"TIT2");
    assert_eq!(id.to_u32(), FrameId::TITLE);
    assert_eq!(id.to_bytes(), *b"TIT2");
    assert_eq!(id, FrameId::from_u32(0x5449_5432));
    assert!(!id.is_v22());
    assert!(id.is_text());
    assert!(!id.is_url());
    assert!(id.is_prefixed(b'T'));
    let short = FrameId::new_v22(*b"TT2");
    assert_eq!(short.to_u32(), FrameId::V22_TITLE);
    assert_eq!(short.to_bytes(), [b'T', b'T', b'2', 0]);
    assert!(short.is_v22());
    assert!(!FrameId::from_u32(FrameId::USER_TEXT).is_text());
    assert!(FrameId::from_u32(FrameId::ARTIST_URL).is_url());
    assert!(!FrameId::from_u32(FrameId::USER_URL).is_url());
    assert_eq!(FrameId::text(*b"ALB"), FrameId::from_u32(FrameId::ALBUM));
    assert_eq!(FrameId::url(*b"OAR"), FrameId::from_u32(FrameId::ARTIST_URL));
}

#[test]
fn language_keeps_its_bytes() {
    assert_eq!(Language::new(*b"eng").to_bytes(), *b"eng");
    assert_ne!(Language::new(*b"eng"), Language::new(*b"deu"));
}

#[test]
fn encoding_from_byte_and_widening() {
    assert_eq!(Encoding::from_u8(0).unwrap(), Encoding::Latin1);
    assert_eq!(Encoding::from_u8(1).unwrap(), Encoding::Utf16);
    assert_eq!(Encoding::from_u8(2).unwrap(), Encoding::Utf16BE);
    assert_eq!(Encoding::from_u8(3).unwrap(), Encoding::Utf8);
    assert_eq!(Encoding::from_u8(4).unwrap_err().kind(), ErrorKind::InvalidData);
    assert_eq!(Encoding::Latin1.common(Encoding::Utf8), Encoding::Utf8);
    assert_eq!(Encoding::Utf16.common(Encoding::Latin1), Encoding::Utf16);
    assert_eq!(Encoding::Utf16.common(Encoding::Utf8), Encoding::Utf8);
    assert_eq!(Encoding::Latin1.common(Encoding::Latin1), Encoding::Latin1);
}

#[test]
fn decoder_decodes_each_encoding() {
    assert_eq!(Decoder::new(Encoding::Latin1).decode(&[0x41, 0xe9, 0xff]).unwrap(), "A\u{e9}\u{ff}");
    assert_eq!(Decoder::new(Encoding::Utf8).decode("h\u{e9}llo".as_bytes()).unwrap(), "h\u{e9}llo");
    assert_eq!(
        Decoder::new(Encoding::Utf8).decode(&[0xff, 0x41]).unwrap_err().kind(),
        ErrorKind::InvalidEncoding
    );
    assert_eq!(Decoder::new(Encoding::Utf16BE).decode(&[0x00, 0x41, 0x04, 0x16]).unwrap(), "A\u{416}");
    assert_eq!(
        Decoder::new(Encoding::Utf16).decode(&[0xfe, 0xff, 0x00, 0x41, 0x04, 0x16]).unwrap(),
        "A\u{416}"
    );
    assert_eq!(
        Decoder::new(Encoding::Utf16).decode(&[0xff, 0xfe, 0x41, 0x00, 0x16, 0x04]).unwrap(),
        "A\u{416}"
    );
    assert_eq!(
        Decoder::new(Encoding::Utf16).decode(&[0xd8, 0x3d, 0xde, 0x00]).unwrap_err().kind(),
        ErrorKind::InvalidEncoding
    );
    assert_eq!(
        Decoder::new(Encoding::Utf16).decode(&[0xfe]).unwrap_err().kind(),
        ErrorKind::InvalidEncoding
    );
    assert_eq!(
        Decoder::new(Encoding::Utf16BE).decode(&[0xd8, 0x00]).unwrap_err().kind(),
        ErrorKind::InvalidEncoding
    );
    assert_eq!(
        Decoder::new(Encoding::Utf16BE).decode(&[0xd8, 0x3d, 0xde, 0x00]).unwrap(),
        "\u{1f600}"
    );
    assert_eq!(
        Decoder::new(Encoding::Utf16).decode(&[0xff, 0xfe, 0x00]).unwrap_err().kind(),
        ErrorKind::InvalidEncoding
    );
}

#[test]
fn decoder_null_conventions() {
    let latin = Decoder::new(Encoding::Latin1);
    let (s, rest) = latin.decode_null_terminated(b"ab\0cd").unwrap();
    assert_eq!(s, "ab");
    assert_eq!(rest, b"cd");
    assert_eq!(latin.decode_null_terminated(b"abcd").unwrap_err().kind(), ErrorKind::InvalidData);
    assert_eq!(latin.decode_maybe_null_terminated(b"abcd").unwrap(), "abcd");
    assert_eq!(latin.decode_maybe_null_terminated(b"ab\0cd").unwrap(), "ab");
    assert_eq!(latin.decode_null_stripped(b"ab\0\0").unwrap(), "ab");
    assert_eq!(latin.decode_null_stripped(b"ab").unwrap(), "ab");
    assert_eq!(latin.decode_null_stripped(b"a\0b\0").unwrap(), "a\0b");
    assert_eq!(latin.decode_null_stripped(b"\0\0").unwrap(), "");
    assert_eq!(latin.decode_null_stripped(b"\0").unwrap(), "");
    assert_eq!(latin.decode_null_stripped(b"").unwrap(), "");
    assert_eq!(latin.decode_null_delimited(b"a\0bc\0\0").unwrap(), vec!["a", "bc"]);
    assert_eq!(latin.decode_null_delimited(b"a\0b\0\0").unwrap(), vec!["a", "b"]);
    assert_eq!(latin.decode_null_delimited(b"").unwrap(), vec![""]);
    assert_eq!(latin.decode_null_delimited(b"\0").unwrap(), vec![""]);
    assert_eq!(latin.decode_null_delimited(b"\0\0\0").unwrap(), vec![""]);
    assert_eq!(latin.decode_null_delimited(b"a\0\0b").unwrap(), vec!["a", "", "b"]);
    let utf8 = Decoder::new(Encoding::Utf8);
    assert_eq!(utf8.decode_null_stripped(b"\0\0").unwrap(), "");
    assert_eq!(utf8.decode_null_delimited(b"\0").unwrap(), vec![""]);

    let wide = Decoder::new(Encoding::Utf16BE);
    let (s, rest) = wide.decode_null_terminated(&[0x00, 0x41, 0x00, 0x00, 0x07]).unwrap();
    assert_eq!(s, "A");
    assert_eq!(rest, &[0x07]);
    // The zero bytes of 0x4100 0x0041 do not stand at an even place.
    let (s, rest) = wide.decode_null_terminated(&[0x41, 0x00, 0x00, 0x41, 0x00, 0x00]).unwrap();
    assert_eq!(s, "\u{4100}A");
    assert_eq!(rest, &[] as &[u8]);
    assert_eq!(
        wide.decode_null_delimited(&[0x00, 0x41, 0x00, 0x00, 0x00, 0x42, 0x00, 0x00]).unwrap(),
        vec!["A", "B"]
    );
    assert_eq!(wide.decode_null_stripped(&[0x00, 0x41, 0x00, 0x00, 0x00, 0x00]).unwrap(), "A");
    assert_eq!(wide.decode_null_stripped(&[0x00, 0x00, 0x00, 0x00]).unwrap(), "");
    assert_eq!(wide.decode_null_stripped(&[0x00, 0x00]).unwrap(), "");
    assert_eq!(wide.decode_null_delimited(&[0x00, 0x00]).unwrap(), vec![""]);
    assert_eq!(wide.decode_null_delimited(&[]).unwrap(), vec![""]);
    // One byte before the pairs of zero bytes is left, and is no text.
    assert_eq!(
        wide.decode_null_stripped(&[0x00, 0x00, 0x00]).unwrap_err().kind(),
        ErrorKind::InvalidEncoding
    );
}

#[test]
fn body_decoding_goes_by_the_frame_id() {
    let text = Body::decode(FrameId::new(*b"TIT2"), b"\0Title\0Other\0".to_vec()).unwrap();
    assert_eq!(text.kind(), BodyKind::Text);
    assert_eq!(
        text,
        Body::Text(Text { encoding: Encoding::Latin1, strings: vec!["Title".into(), "Other".into()] })
    );

    let comment = Body::decode(FrameId::new(*b"COMM"), b"\x03engdescr\0text\0".to_vec()).unwrap();
    assert_eq!(
        comment,
        Body::Comment(Comment {
            encoding: Encoding::Utf8,
            lang: Language::new(*b"eng"),
            description: "descr".into(),
            text: "text".into(),
        })
    );
    assert_eq!(
        Body::decode(FrameId::new_v22(*b"COM"), b"\0eng\0x".to_vec()).unwrap().kind(),
        BodyKind::Comment
    );
    assert_eq!(
        Body::decode(FrameId::new(*b"COMM"), b"\0eng".to_vec()).unwrap_err().kind(),
        ErrorKind::InvalidData
    );

    let user = Body::decode(FrameId::new(*b"TXXX"), b"\0key\0a\0b".to_vec()).unwrap();
    assert_eq!(
        user,
        Body::UserText(UserText {
            encoding: Encoding::Latin1,
            description: "key".into(),
            values: vec!["a".into(), "b".into()],
        })
    );
    assert_eq!(
        Body::decode(FrameId::new_v22(*b"TXX"), b"\0key\0a".to_vec()).unwrap().kind(),
        BodyKind::UserText
    );

    let user_url = Body::decode(FrameId::new(*b"WXXX"), b"\0home\0http://x\0".to_vec()).unwrap();
    assert_eq!(
        user_url,
        Body::UserUrl(UserUrl {
            encoding: Encoding::Latin1,
            description: "home".into(),
            url: "http://x".into(),
        })
    );

    assert_eq!(
        Body::decode(FrameId::new(*b"WOAR"), b"http://a\0junk".to_vec()).unwrap(),
        Body::Url("http://a".into())
    );
    assert_eq!(
        Body::decode(FrameId::new(*b"WOAR"), b"http://a".to_vec()).unwrap(),
        Body::Url("http://a".into())
    );
    assert_eq!(
        Body::decode(FrameId::new(*b"PRIV"), vec![1, 2, 3]).unwrap(),
        Body::Bytes(vec![1, 2, 3])
    );
    assert_eq!(
        Body::decode(FrameId::new(*b"PRIV"), vec![]).unwrap_err().kind(),
        ErrorKind::InvalidData
    );
    assert_eq!(
        Body::decode(FrameId::new(*b"TIT2"), vec![9, b'x']).unwrap_err().kind(),
        ErrorKind::InvalidData
    );
    assert_eq!(
        Body::decode(FrameId::new(*b"TIT2"), vec![3, 0xff]).unwrap_err().kind(),
        ErrorKind::InvalidEncoding
    );
}

#[test]
fn picture_decoding() {
    let apic = Body::decode(
        FrameId::new(*b"APIC"),
        b"\0image/png\0\x03cover\0\x89PNG".to_vec(),
    )
    .unwrap();
    assert_eq!(
        apic,
        Body::Picture(Picture {
            encoding: Encoding::Latin1,
            content_type: "image/png".into(),
            picture_kind: PictureKind(PictureKind::COVER_FRONT),
            description: "cover".into(),
            data: b"\x89PNG".to_vec(),
        })
    );
    assert_eq!(PictureKind(3).name(), Some("cover (front)"));
    assert_eq!(PictureKind(0x15).name(), None);
    assert_eq!(PictureKind(0x14).to_string(), "publisher/studio logotype");
    assert_eq!(PictureKind(0x15).to_string(), "unknown (21)");
    assert_eq!(PictureKind(7).to_string(), "lead artist/lead performer/soloist");

    let pic = |format: &[u8; 3]| {
        let mut body = vec![0u8];
        body.extend_from_slice(format);
        body.extend_from_slice(b"\x04d\0DATA");
        match Body::decode(FrameId::new_v22(*b"PIC"), body).unwrap() {
            Body::Picture(p) => p,
            other => panic!("not a picture: {:?}", other),
        }
    };
    assert_eq!(pic(b"PNG").content_type, "image/png");
    assert_eq!(pic(b"jpg").content_type, "image/jpeg");
    assert_eq!(pic(b"Bmp").content_type, "image/bmp");
    assert_eq!(pic(b"gif").content_type, "image/gif");
    assert_eq!(pic(b"TIF").content_type, "image/tiff");
    assert_eq!(pic(b"-->").content_type, "-->");
    assert_eq!(pic(b"XyZ").content_type, "xyz");
    let p = pic(b"png");
    assert_eq!(p.picture_kind, PictureKind(PictureKind::COVER_BACK));
    assert_eq!(p.description, "d");
    assert_eq!(p.data, b"DATA");

    assert_eq!(
        Body::decode(FrameId::new(*b"APIC"), b"\0a\0\x03".to_vec()).unwrap_err().kind(),
        ErrorKind::InvalidData
    );
}

fn user_text(description: &str, values: &[&str]) -> Frame {
    Frame {
        id: FrameId::from_u32(FrameId::USER_TEXT),
        body: Body::UserText(UserText {
            encoding: Encoding::Latin1,
            description: description.into(),
            values: values.iter().map(|v| v.to_string()).collect(),
        }),
    }
}

fn comment(encoding: Encoding, lang: &[u8; 3], description: &str, text: &str) -> Frame {
    Frame {
        id: FrameId::from_u32(FrameId::COMMENT),
        body: Body::Comment(Comment {
            encoding,
            lang: Language::new(*lang),
            description: description.into(),
            text: text.into(),
        }),
    }
}

#[test]
fn inserting_frames_of_one_key_merges_them() {
    let mut frames = Frames::new();
    frames.insert(user_text("X", &["a"]));
    frames.insert(user_text("X", &["b"]));
    assert_eq!(frames.len(), 1);
    assert_eq!(frames.at(0), &user_text("X", &["a", "b"]));

    frames.insert(user_text("Y", &["c"]));
    assert_eq!(frames.len(), 2);

    let mut frames = Frames::new();
    frames.insert(comment(Encoding::Latin1, b"eng", "d", "foo"));
    frames.insert(comment(Encoding::Utf8, b"eng", "d", "bar"));
    assert_eq!(frames.len(), 1);
    assert_eq!(frames.at(0), &comment(Encoding::Utf8, b"eng", "d", "foo\nbar"));
    frames.insert(comment(Encoding::Latin1, b"deu", "d", "baz"));
    frames.insert(comment(Encoding::Latin1, b"eng", "e", "qux"));
    assert_eq!(frames.len(), 3);
    assert_eq!(frames.at(0), &comment(Encoding::Utf8, b"eng", "d", "foo\nbar"));
}

#[test]
fn merging_into_an_empty_comment_adds_no_line_break() {
    let mut frames = Frames::new();
    frames.insert(comment(Encoding::Latin1, b"eng", "d", ""));
    frames.insert(comment(Encoding::Latin1, b"eng", "d", "bar"));
    assert_eq!(frames.at(0), &comment(Encoding::Latin1, b"eng", "d", "bar"));
}

#[test]
fn text_frames_append_and_others_are_replaced() {
    let text = |strings: &[&str], encoding| Frame {
        id: FrameId::from_u32(FrameId::TITLE),
        body: Body::Text(Text { encoding, strings: strings.iter().map(|v| v.to_string()).collect() }),
    };
    let mut frames = Frames::new();
    frames.insert(text(&["a"], Encoding::Utf16));
    frames.insert(text(&["b", "c"], Encoding::Latin1));
    assert_eq!(frames.len(), 1);
    assert_eq!(frames.at(0), &text(&["a", "b", "c"], Encoding::Utf16));
    assert_eq!(frames.first_text_str(FrameId::from_u32(FrameId::TITLE)), Some("a"));

    let bytes = |v: &[u8]| Frame { id: FrameId::new(*b"PRIV"), body: Body::Bytes(v.to_vec()) };
    frames.insert(bytes(&[1]));
    frames.insert(bytes(&[2, 3]));
    assert_eq!(frames.len(), 2);
    assert_eq!(frames.at(1), &bytes(&[2, 3]));

    let url = |v: &str| Frame { id: FrameId::new(*b"WOAR"), body: Body::Url(v.into()) };
    frames.insert(url("http://a"));
    frames.insert(url("http://b"));
    assert_eq!(frames.len(), 3);
    assert_eq!(frames.at(2), &url("http://b"));

    let user_url = |d: &str, v: &str| Frame {
        id: FrameId::from_u32(FrameId::USER_URL),
        body: Body::UserUrl(UserUrl { encoding: Encoding::Latin1, description: d.into(), url: v.into() }),
    };
    frames.insert(user_url("d", "http://a"));
    frames.insert(user_url("d", "http://b"));
    frames.insert(user_url("e", "http://c"));
    assert_eq!(frames.len(), 5);
    assert_eq!(frames.at(3), &user_url("d", "http://b"));
    assert_eq!(frames.get(FrameId::from_u32(FrameId::USER_URL)).len(), 2);
    assert!(frames.first(FrameId::new(*b"XXXX")).is_none());
    assert!(frames.first_text(FrameId::new(*b"PRIV")).is_none());
}

#[test]
fn pictures_of_one_description_are_kept_apart() {
    let picture = |description: &str, data: &[u8]| Frame {
        id: FrameId::from_u32(FrameId::ATTACHED_PICTURE),
        body: Body::Picture(Picture {
            encoding: Encoding::Latin1,
            content_type: "image/png".into(),
            picture_kind: PictureKind(3),
            description: description.into(),
            data: data.to_vec(),
        }),
    };
    let mut frames = Frames::new();
    frames.insert(picture("a ", &[0]));
    frames.insert(picture("a", &[1]));
    frames.insert(picture("a", &[2]));
    frames.insert(picture("a", &[3]));
    assert_eq!(frames.len(), 4);
    assert_eq!(frames.at(0), &picture("a ", &[0]));
    assert_eq!(frames.at(1), &picture("a", &[1]));
    assert_eq!(frames.at(2), &picture("a  ", &[2]));
    assert_eq!(frames.at(3), &picture("a   ", &[3]));
}

#[test]
fn merge_from_speaks_for_each_kind() {
    let mut a = Body::Bytes(vec![1]);
    assert_eq!(a.merge_from(Body::Bytes(vec![2])), None);
    assert_eq!(a, Body::Bytes(vec![2]));
    let picture = |description: &str| {
        Body::Picture(Picture {
            encoding: Encoding::Latin1,
            content_type: "x".into(),
            picture_kind: PictureKind(0),
            description: description.into(),
            data: vec![],
        })
    };
    let mut p = picture("d");
    assert_eq!(p.merge_from(picture("d")), Some(picture("d ")));
    assert_eq!(p, picture("d"));
}

#[test]
fn end_to_end_v23() {
    let mut frames = frame_v23(b"TIT2", &latin1_text("Title"));
    frames.extend_from_slice(&frame_v23(b"TPE1", &latin1_text("Artist")));
    let data = tag(3, 0, &frames);
    let (t, len) = read_tag(&data).unwrap();
    assert_eq!(t.title(), Some("Title"));
    assert_eq!(t.artist(), Some("Artist"));
    assert_eq!(t.album(), None);
    assert_eq!(t.genre(), None);
    assert_eq!(len as usize, data.len());
    assert_eq!(t.header().version, Version::new(2, 3, 0));
    assert!(!t.header().unsynch && !t.header().extended && !t.header().footer_present);
    assert_eq!(t.frames().len(), 2);
}

#[test]
fn end_to_end_v22_and_v24() {
    let mut frames = frame_v22(b"TT2", &latin1_text("Title"));
    frames.extend_from_slice(&frame_v22(b"TP1", &latin1_text("Artist")));
    frames.extend_from_slice(&frame_v22(b"TAL", &latin1_text("Album")));
    frames.extend_from_slice(&frame_v22(b"TCO", &latin1_text("Rock")));
    frames.extend_from_slice(&frame_v22(b"TYE", &latin1_text("1999")));
    frames.extend_from_slice(&frame_v22(b"TDA", &latin1_text("1231")));
    let (t, _) = read_tag(&tag(2, 0, &frames)).unwrap();
    assert_eq!(t.title(), Some("Title"));
    assert_eq!(t.artist(), Some("Artist"));
    assert_eq!(t.album(), Some("Album"));
    assert_eq!(t.genre(), Some("Rock"));
    assert_eq!(t.release_date(), Timestamp::new_ymd(1999, 12, 31));

    let mut frames = frame_v24(b"TIT2", &latin1_text("Title"));
    frames.extend_from_slice(&frame_v24(b"TDRC", &latin1_text("2019-06-20T11:06")));
    frames.extend_from_slice(&[0; 16]);
    let (t, len) = read_tag(&tag(4, 0, &frames)).unwrap();
    assert_eq!(t.title(), Some("Title"));
    assert_eq!(t.release_date(), Timestamp::new_ymdhm(2019, 6, 20, 11, 6));
    assert_eq!(len as usize, 10 + frames.len());
    assert_eq!(t.frames().len(), 2);
}

#[test]
fn release_date_of_older_versions() {
    let date = |year: &str, md: Option<&str>| {
        let mut frames = frame_v23(b"TYER", &latin1_text(year));
        if let Some(md) = md {
            frames.extend_from_slice(&frame_v23(b"TDAT", &latin1_text(md)));
        }
        read_tag(&tag(3, 0, &frames)).unwrap().0.release_date()
    };
    assert_eq!(date("2019", None), Timestamp::new_y(2019));
    assert_eq!(date("2019", Some("0620")), Timestamp::new_ymd(2019, 6, 20));
    assert_eq!(date("2019", Some("06xx")), Timestamp::new_ym(2019, 6));
    assert_eq!(date("2019", Some("xx20")), Timestamp::new_y(2019));
    assert_eq!(date("2019", Some("062")), Timestamp::new_y(2019));
    assert_eq!(date("2019", Some("1320")), None);
    assert_eq!(date("2019", Some("0632")), None);
    assert_eq!(date("year", Some("0620")), None);
    assert_eq!(date("10000", None), None);
}

#[test]
fn tag_header_failures() {
    assert_eq!(read_tag(b"ID3").unwrap_err().kind(), ErrorKind::UnexpectedEof);
    assert_eq!(read_tag(b"XD3\x03\0\0\0\0\0\0").unwrap_err().kind(), ErrorKind::BadMagic);
    assert_eq!(read_tag(b"ID3\x03\xff\0\0\0\0\0").unwrap_err().kind(), ErrorKind::BadMagic);
    assert_eq!(read_tag(b"ID3\x03\0\xff\0\0\0\0").unwrap_err().kind(), ErrorKind::BadMagic);
    assert_eq!(read_tag(b"ID3\x03\0\0\x80\0\0\0").unwrap_err().kind(), ErrorKind::InvalidData);
    assert_eq!(read_tag(&tag(1, 0, &[])).unwrap_err().kind(), ErrorKind::InvalidData);
    assert_eq!(read_tag(&tag(5, 0, &[])).unwrap_err().kind(), ErrorKind::InvalidData);
    assert_eq!(read_tag(&tag(2, 0x20, &[])).unwrap_err().kind(), ErrorKind::InvalidData);
    assert_eq!(read_tag(&tag(3, 0x10, &[])).unwrap_err().kind(), ErrorKind::InvalidData);
    assert_eq!(read_tag(&tag(4, 0x08, &[])).unwrap_err().kind(), ErrorKind::InvalidData);
    assert_eq!(read_tag(&tag(2, 0x40, &[])).unwrap_err().kind(), ErrorKind::Unsupported);
    assert_eq!(read_tag(&tag(3, 0x80, &[])).unwrap_err().kind(), ErrorKind::Unsupported);
    let (t, len) = read_tag(&tag(4, 0x30, &[])).unwrap();
    assert!(t.header().experimental && t.header().footer_present);
    assert_eq!(len, 20);
}

#[test]
fn extended_header_is_skipped() {
    // Version 2.3: a plain length of 6, then six bytes.
    let mut body = vec![0, 0, 0, 6, 1, 2, 3, 4, 5, 6];
    body.extend_from_slice(&frame_v23(b"TIT2", &latin1_text("Title")));
    let data = tag(3, 0x40, &body);
    let (t, len) = read_tag(&data).unwrap();
    assert!(t.header().extended);
    assert_eq!(t.title(), Some("Title"));
    assert_eq!(len as usize, data.len());

    // Version 2.4: a synchsafe length of 6 that counts its own four bytes.
    let mut body = vec![0, 0, 0, 6, 1, 2];
    body.extend_from_slice(&frame_v24(b"TIT2", &latin1_text("Title")));
    let data = tag(4, 0x40, &body);
    let (t, len) = read_tag(&data).unwrap();
    assert_eq!(t.title(), Some("Title"));
    assert_eq!(len as usize, data.len());

    // Version 2.4: a synchsafe length of at least 4.
    let data = tag(4, 0x40, &[0, 0, 0, 3, 0, 0, 0]);
    assert_eq!(read_tag(&data).unwrap_err().kind(), ErrorKind::InvalidData);
    let data = tag(4, 0x40, &[0, 0, 0, 0x80, 0, 0, 0]);
    assert_eq!(read_tag(&data).unwrap_err().kind(), ErrorKind::InvalidData);
    let data = tag(3, 0x40, &[0, 0, 0, 200, 0, 0, 0]);
    assert_eq!(read_tag(&data).unwrap_err().kind(), ErrorKind::InvalidData);
    let data = tag(3, 0x40, &[0, 0, 0, 4, 0, 0, 0]);
    assert_eq!(read_tag(&data).unwrap_err().kind(), ErrorKind::InvalidData);
    let data = tag(3, 0x40, &[0, 0]);
    assert_eq!(read_tag(&data).unwrap_err().kind(), ErrorKind::UnexpectedEof);
    let mut data = tag(3, 0x40, &[0, 0, 0, 9, 1, 2, 3, 4, 5, 6, 7, 8, 9, 0]);
    data.truncate(18);
    assert_eq!(read_tag(&data).unwrap_err().kind(), ErrorKind::UnexpectedEof);
}

#[test]
fn truncated_tag_is_reported() {
    let mut frames = frame_v23(b"TIT2", &latin1_text("Title"));
    frames.extend_from_slice(&frame_v23(b"TPE1", &latin1_text("Artist")));
    let data = tag(3, 0, &frames);
    assert!(read_tag(&data).is_ok());
    for cut in 0..data.len() {
        assert_eq!(read_tag(&data[..cut]).unwrap_err().kind(), ErrorKind::UnexpectedEof, "cut at {}", cut);
    }
    // The same holds where the source is longer but the limit is not.
    let mut rd = Cursor::new(&data);
    assert_eq!(
        Tag::read(&mut rd, Some(data.len() as u64 - 1)).unwrap_err().kind(),
        ErrorKind::UnexpectedEof
    );
    assert_eq!(rd.position(), 0);
    let mut rd = Cursor::new(&data);
    assert!(Tag::read(&mut rd, None).is_ok());
    assert_eq!(rd.position(), data.len() as u64);
}

#[test]
fn frame_header_failures() {
    let with_flags = |minor: u8, f1: u8, f2: u8| {
        let mut frame = b"TIT2".to_vec();
        frame.extend_from_slice(&[0, 0, 0, 2, f1, f2, 0, b'x']);
        read_tag(&tag(minor, 0, &frame)).map(|t| t.0.frames().len())
    };
    assert_eq!(with_flags(3, 0, 0).unwrap(), 1);
    assert_eq!(with_flags(3, 0xe0, 0).unwrap(), 1);
    assert_eq!(with_flags(3, 0x01, 0).unwrap_err().kind(), ErrorKind::InvalidData);
    assert_eq!(with_flags(3, 0, 0x10).unwrap_err().kind(), ErrorKind::InvalidData);
    assert_eq!(with_flags(3, 0, 0x80).unwrap_err().kind(), ErrorKind::Unsupported);
    assert_eq!(with_flags(3, 0, 0x40).unwrap_err().kind(), ErrorKind::Unsupported);
    assert_eq!(with_flags(3, 0, 0x20).unwrap_err().kind(), ErrorKind::Unsupported);
    assert_eq!(with_flags(4, 0x70, 0x01).unwrap(), 1);
    assert_eq!(with_flags(4, 0x80, 0).unwrap_err().kind(), ErrorKind::InvalidData);
    assert_eq!(with_flags(4, 0, 0x80).unwrap_err().kind(), ErrorKind::InvalidData);
    assert_eq!(with_flags(4, 0, 0x40).unwrap_err().kind(), ErrorKind::Unsupported);
    assert_eq!(with_flags(4, 0, 0x08).unwrap_err().kind(), ErrorKind::Unsupported);
    assert_eq!(with_flags(4, 0, 0x04).unwrap_err().kind(), ErrorKind::Unsupported);
    assert_eq!(with_flags(4, 0, 0x02).unwrap_err().kind(), ErrorKind::Unsupported);

    // A length that is no synchsafe number, in version 2.4 only.
    let mut frame = b"PRIV".to_vec();
    frame.extend_from_slice(&[0, 0, 0, 0x80, 0, 0]);
    frame.extend_from_slice(&[7; 128]);
    assert_eq!(read_tag(&tag(4, 0, &frame)).unwrap_err().kind(), ErrorKind::InvalidData);
    assert_eq!(read_tag(&tag(3, 0, &frame)).unwrap().0.frames().len(), 1);

    // A frame that declares more than the tag holds.
    let mut frame = b"PRIV".to_vec();
    frame.extend_from_slice(&[0, 0, 0, 9, 0, 0, 1, 2]);
    assert_eq!(read_tag(&tag(3, 0, &frame)).unwrap_err().kind(), ErrorKind::UnexpectedEof);
    // A frame header that is cut short.
    assert_eq!(read_tag(&tag(3, 0, b"PRIV\0")).unwrap_err().kind(), ErrorKind::UnexpectedEof);
    // An empty frame.
    let frame = frame_v23(b"PRIV", &[]);
    assert_eq!(read_tag(&tag(3, 0, &frame)).unwrap_err().kind(), ErrorKind::InvalidData);
}

#[test]
fn frames_read_stops_at_padding() {
    let mut region = frame_v23(b"TIT2", &latin1_text("A"));
    region.extend_from_slice(&[0, 0, 0]);
    region.extend_from_slice(&frame_v23(b"TPE1", &latin1_text("B")));
    let mut rd = Limited::new(Cursor::new(&region), region.len() as u64);
    let frames = Frames::read(&mut rd, Version::new(2, 3, 0), region.len() as u32).unwrap();
    assert_eq!(frames.len(), 1);
    assert_eq!(rd.pos(), region.len() as u64);

    let mut rd = Limited::new(Cursor::new(&region), region.len() as u64);
    assert_eq!(
        Frames::read(&mut rd, Version::new(2, 3, 0), region.len() as u32 + 1).unwrap_err().kind(),
        ErrorKind::UnexpectedEof
    );
}

#[test]
fn version_text() {
    assert_eq!(Version::new(2, 3, 0).to_string(), "2.3");
    assert_eq!(Version::new(2, 0, 0).to_string(), "2");
    assert_eq!(Version::new(2, 0, 1).to_string(), "2.0.1");
    assert_eq!(Version::new(1, 10, 255).to_string(), "1.10.255");
    assert_eq!(Version::new(100, 0, 0).to_string(), "100");
    assert!(Version::new(2, 3, 0) < Version::new(2, 4, 0));
    let samples = [
        Version::new(1, 0, 0),
        Version::new(2, 2, 0),
        Version::new(2, 2, 9),
        Version::new(2, 3, 0),
        Version::new(2, 4, 0),
        Version::new(3, 0, 0),
    ];
    for (i, a) in samples.iter().enumerate() {
        for (j, b) in samples.iter().enumerate() {
            assert_eq!(a.partial_cmp(b), Some(i.cmp(&j)));
            assert_eq!(a.cmp(b), i.cmp(&j));
        }
    }
}
