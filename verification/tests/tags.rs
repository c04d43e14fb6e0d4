use tagen::error::ErrorKind;
use tagen::id3::v1::Id3v1;
use tagen::id3::v2::Tag;
use tagen::tags::TagsRef;
use tagen::timestamp::Timestamp;
use tagen::util::limited::{Cursor, Limited};
use tagen::util::{read_vec_limited, unexpected_eof_err, IoResultExt};
use tagen::vcomment::Vcomment;

fn v1(genre: u8) -> Id3v1 {
    let mut b = [0u8; 128];
    b[..3].copy_from_slice(b"TAG");
    b[3..5].copy_from_slice(b"T1");
    b[33..35].copy_from_slice(b"A1");
    b[63..65].copy_from_slice(b"L1");
    b[93..97].copy_from_slice(b"2001");
    b[127] = genre;
    Id3v1::decode(&b).unwrap()
}

fn v2_tag(frames: &[(&[u8; 4], &str)]) -> Tag {
    let mut body = Vec::new();
    for (id, text) in frames {
        body.extend_from_slice(*id);
        body.extend_from_slice(&(text.len() as u32 + 1).to_be_bytes());
        body.extend_from_slice(&[0, 0, 0]);
        body.extend_from_slice(text.as_bytes());
    }
    let mut data = b"ID3\x04\0\0\0\0".to_vec();
    data.push((body.len() >> 7) as u8);
    data.push((body.len() & 0x7f) as u8);
    data.extend_from_slice(&body);
    Tag::read(&mut Cursor::new(&data), None).unwrap().0
}

fn comment(entries: &[&str]) -> Vcomment {
    let mut data = Vec::new();
    data.extend_from_slice(&6u32.to_le_bytes());
    data.extend_from_slice(b"vendor");
    data.extend_from_slice(&(entries.len() as u32).to_le_bytes());
    for e in entries {
        data.extend_from_slice(&(e.len() as u32).to_le_bytes());
        data.extend_from_slice(e.as_bytes());
    }
    let mut rd = Limited::new(Cursor::new(&data), data.len() as u64);
    Vcomment::read_limited(&mut rd, false).unwrap()
}

#[test]
fn the_first_tag_that_has_the_field_answers() {
    let v1 = v1(17);
    let v2 = v2_tag(&[(b"TIT2", "T2"), (b"TCON", "Genre2"), (b"TDRC", "2019-06")]);
    let vc = comment(&["TITLE=T3", "artist=A3", "DATE=2020"]);

    let all = TagsRef::new(Some(&v1), Some(&v2), Some(&vc));
    assert_eq!(all.title().as_deref(), Some("T2"));
    // The ID3v2 tag holds no artist and no album: the ID3v1 tag answers.
    assert_eq!(all.artist().as_deref(), Some("A1"));
    assert_eq!(all.album().as_deref(), Some("L1"));
    assert_eq!(all.genre().as_deref(), Some("Genre2"));
    assert_eq!(all.date(), Timestamp::new_ym(2019, 6));

    let older = TagsRef::new(Some(&v1), None, Some(&vc));
    assert_eq!(older.title().as_deref(), Some("T1"));
    assert_eq!(older.artist().as_deref(), Some("A1"));
    assert_eq!(older.album().as_deref(), Some("L1"));
    assert_eq!(older.genre().as_deref(), Some("Rock"));
    assert_eq!(older.date(), Timestamp::new_y(2001));

    let vorbis = TagsRef::new(None, None, Some(&vc));
    assert_eq!(vorbis.title().as_deref(), Some("T3"));
    assert_eq!(vorbis.artist().as_deref(), Some("A3"));
    assert_eq!(vorbis.album(), None);
    assert_eq!(vorbis.date(), Timestamp::new_y(2020));

    // A tag that lacks the field gives way to the next that is there.
    let newest = TagsRef::new(None, Some(&v2), Some(&vc));
    assert_eq!(newest.title().as_deref(), Some("T2"));
    assert_eq!(newest.artist().as_deref(), Some("A3"));
    assert_eq!(newest.album(), None);
    assert_eq!(newest.date(), Timestamp::new_ym(2019, 6));
    let bare = v2_tag(&[(b"TIT2", "T2")]);
    let dated = TagsRef::new(Some(&v1), Some(&bare), Some(&vc));
    assert_eq!(dated.genre().as_deref(), Some("Rock"));
    assert_eq!(dated.date(), Timestamp::new_y(2001));
    let undated = TagsRef::new(None, Some(&bare), Some(&vc));
    assert_eq!(undated.genre(), None);
    assert_eq!(undated.date(), Timestamp::new_y(2020));

    let none = TagsRef::new(None, None, None);
    assert_eq!(none.title(), None);
    assert_eq!(none.genre(), None);
    assert_eq!(none.date(), None);
}

#[test]
fn genre_of_an_id3v1_tag() {
    let unknown = v1(200);
    assert_eq!(TagsRef::new(Some(&unknown), None, None).genre().as_deref(), Some("Unknown (200)"));
    let absent = v1(255);
    assert_eq!(TagsRef::new(Some(&absent), None, None).genre(), None);
}

#[test]
fn vorbis_comment_entries() {
    let vc = comment(&["TITLE=a=b", "title=second", "NOVALUE", "Artist=", "=x"]);
    assert_eq!(vc.vendor(), "vendor");
    assert_eq!(
        vc.entries(),
        vec![("TITLE", "a=b"), ("title", "second"), ("NOVALUE", ""), ("Artist", ""), ("", "x")]
    );
    assert_eq!(vc.get("Title"), vec!["a=b", "second"]);
    assert_eq!(vc.title(), Some("a=b"));
    assert_eq!(vc.artist(), Some(""));
    assert_eq!(vc.album(), None);
    assert_eq!(vc.genre(), None);
    assert_eq!(vc.date(), None);
    assert_eq!(vc.first("novalue"), Some(""));
    assert!(vc.get("TITLE ").is_empty());
}

#[test]
fn vorbis_comment_failures() {
    let read = |data: &[u8], framing: bool| {
        let mut rd = Limited::new(Cursor::new(data), data.len() as u64);
        Vcomment::read_limited(&mut rd, framing).map(|v| v.entries().len())
    };
    let mut data = Vec::new();
    data.extend_from_slice(&1u32.to_le_bytes());
    data.push(b'v');
    data.extend_from_slice(&1u32.to_le_bytes());
    data.extend_from_slice(&3u32.to_le_bytes());
    data.extend_from_slice(b"a=b");
    assert_eq!(read(&data, false).unwrap(), 1);
    assert_eq!(read(&data, true).unwrap_err().kind(), ErrorKind::UnexpectedEof);
    data.push(0x80);
    assert_eq!(read(&data, true).unwrap(), 1);
    *data.last_mut().unwrap() = 0x7f;
    assert_eq!(read(&data, true).unwrap_err().kind(), ErrorKind::InvalidData);

    assert_eq!(read(&data[..3], false).unwrap_err().kind(), ErrorKind::UnexpectedEof);
    assert_eq!(read(&data[..4], false).unwrap_err().kind(), ErrorKind::UnexpectedEof);
    assert_eq!(read(&data[..7], false).unwrap_err().kind(), ErrorKind::UnexpectedEof);
    assert_eq!(read(&data[..15], false).unwrap_err().kind(), ErrorKind::UnexpectedEof);

    // A count that the data cannot hold.
    let mut huge = Vec::new();
    huge.extend_from_slice(&0u32.to_le_bytes());
    huge.extend_from_slice(&0x4000_0000u32.to_le_bytes());
    huge.extend_from_slice(&[0; 64]);
    assert_eq!(read(&huge, false).unwrap_err().kind(), ErrorKind::InvalidData);

    // A text that is no UTF-8.
    let mut bad = Vec::new();
    bad.extend_from_slice(&2u32.to_le_bytes());
    bad.extend_from_slice(&[0xff, 0xfe]);
    bad.extend_from_slice(&0u32.to_le_bytes());
    assert_eq!(read(&bad, false).unwrap_err().kind(), ErrorKind::InvalidEncoding);
}

#[test]
fn bounded_vector_reads() {
    let data = [1u8, 2, 3, 4, 5];
    let mut rd = Limited::new(Cursor::new(&data), 4);
    assert_eq!(read_vec_limited(&mut rd, 2, "cut").unwrap(), vec![1, 2]);
    let e = read_vec_limited(&mut rd, 3, "cut").unwrap_err();
    assert_eq!((e.kind(), e.message()), (ErrorKind::UnexpectedEof, "cut"));
    assert_eq!(rd.pos(), 2);
    assert_eq!(read_vec_limited(&mut rd, 2, "cut").unwrap(), vec![3, 4]);
    assert_eq!(read_vec_limited(&mut rd, 0, "cut").unwrap(), Vec::<u8>::new());

    // A budget that the source does not back gives what there is.
    let mut rd = Limited::new(Cursor::new(&data), 100);
    assert_eq!(read_vec_limited(&mut rd, 50, "cut").unwrap(), vec![1, 2, 3, 4, 5]);
}

#[test]
fn absence_of_an_optional_structure() {
    let ok: Result<u8, tagen::error::Error> = Ok(1);
    assert_eq!(ok.into_opt().unwrap(), Some(1));
    for kind in [ErrorKind::BadMagic, ErrorKind::InvalidData, ErrorKind::UnexpectedEof, ErrorKind::InvalidEncoding] {
        let e: Result<u8, _> = Err(tagen::error::Error::new(kind, "x"));
        assert_eq!(e.into_opt().unwrap(), None);
    }
    for kind in [ErrorKind::Unsupported, ErrorKind::InvalidInput] {
        let e: Result<u8, _> = Err(tagen::error::Error::new(kind, "x"));
        assert_eq!(e.into_opt().unwrap_err().kind(), kind);
    }
    assert_eq!(unexpected_eof_err("eof").kind(), ErrorKind::UnexpectedEof);
}

#[test]
fn the_end_of_the_data_can_be_renamed() {
    let rename = |e: tagen::error::Error| tagen::error::Error::new(e.kind(), "tag truncated");
    let eof: Result<u8, _> = Err(unexpected_eof_err("eof"));
    assert_eq!(eof.map_err_eof(rename).unwrap_err().message(), "tag truncated");
    let other: Result<u8, _> = Err(tagen::error::Error::new(ErrorKind::InvalidData, "bad"));
    assert_eq!(other.map_err_eof(rename).unwrap_err().message(), "bad");
    let ok: Result<u8, tagen::error::Error> = Ok(3);
    assert_eq!(ok.map_err_eof(rename).unwrap(), 3);
}
