use tagen::error::ErrorKind;
use tagen::id3::v1::{genre_str, Genre, Id3v1};
use tagen::timestamp::Timestamp;
use tagen::util::limited::Cursor;

fn put(buf: &mut [u8], at: usize, text: &[u8]) {
    buf[at..at + text.len()].copy_from_slice(text);
}

fn base_tag() -> [u8; 128] {
    let mut b = [0u8; 128];
    put(&mut b, 0, b"TAG");
    put(&mut b, 3, b"Title");
    put(&mut b, 33, b"Artist");
    put(&mut b, 63, b"Album");
    put(&mut b, 93, b"1999");
    put(&mut b, 97, b"Comment");
    b[127] = 17;
    b
}

#[test]
fn track_number_takes_the_end_of_the_comment() {
    let mut b = base_tag();
    put(&mut b, 97, &[b'c'; 30]);
    b[125] = 0;
    b[126] = 7;
    let t = Id3v1::decode(&b).unwrap();
    assert_eq!(t.track, Some(7));
    assert_eq!(t.comment, "c".repeat(28));

    b[126] = 0;
    let t = Id3v1::decode(&b).unwrap();
    assert_eq!(t.track, None);
    assert_eq!(t.comment, "c".repeat(28));

    b[125] = b'c';
    b[126] = b'c';
    let t = Id3v1::decode(&b).unwrap();
    assert_eq!(t.track, None);
    assert_eq!(t.comment, "c".repeat(30));

    b[125] = b'c';
    b[126] = 0;
    let t = Id3v1::decode(&b).unwrap();
    assert_eq!(t.track, None);
    assert_eq!(t.comment, "c".repeat(29));
}

#[test]
fn fields_stand_at_fixed_places() {
    let mut b = base_tag();
    put(&mut b, 33, &[0xe9; 30]);
    let t = Id3v1::decode(&b).unwrap();
    assert_eq!(t.title, "Title");
    assert_eq!(t.artist, "\u{e9}".repeat(30));
    assert_eq!(t.album, "Album");
    assert_eq!(t.year, "1999");
    assert_eq!(t.comment, "Comment");
    assert_eq!(t.genre, Genre::new(17));
    assert_eq!(t.genre.unwrap().number(), Genre::ROCK);
    assert!(t.ext.is_none());
    assert_eq!(t.len(), 128);
    assert_eq!(t.best_title(), "Title");
    assert_eq!(t.best_artist(), "\u{e9}".repeat(30));
    assert_eq!(t.best_album(), "Album");
    assert_eq!(t.date(), Timestamp::new_y(1999));

    b[127] = 255;
    assert_eq!(Id3v1::decode(&b).unwrap().genre, None);
}

#[test]
fn date_needs_a_year() {
    let mut b = base_tag();
    put(&mut b, 93, b"19xx");
    assert_eq!(Id3v1::decode(&b).unwrap().date(), None);
    put(&mut b, 93, b"\0\0\0\0");
    assert_eq!(Id3v1::decode(&b).unwrap().date(), None);
    put(&mut b, 93, b"+123");
    assert_eq!(Id3v1::decode(&b).unwrap().date(), Timestamp::new_y(123));
}

#[test]
fn magic_is_required() {
    let mut b = base_tag();
    b[0] = b't';
    assert_eq!(Id3v1::decode(&b).unwrap_err().kind(), ErrorKind::BadMagic);
    assert_eq!(Id3v1::decode(&base_tag()[..127]).unwrap_err().kind(), ErrorKind::BadMagic);
    // A plus sign as the fifth byte announces an extended block.
    let mut b = base_tag();
    b[4] = b'+';
    assert_eq!(Id3v1::decode(&b).unwrap_err().kind(), ErrorKind::BadMagic);
}

fn full_tag() -> Vec<u8> {
    let mut b = vec![0u8; 355];
    put(&mut b, 0, b"TAG++");
    put(&mut b, 5, b"ong title");
    put(&mut b, 64, b"Long artist");
    put(&mut b, 124, b"Long album");
    b[184] = 2;
    put(&mut b, 185, b"Free genre");
    put(&mut b, 215, b"000:15");
    put(&mut b, 221, b"123:45");
    put(&mut b, 227, &base_tag());
    b
}

#[test]
fn extended_block_overrides() {
    let t = Id3v1::decode(&full_tag()).unwrap();
    let ext = t.ext.as_ref().unwrap();
    assert_eq!(ext.title, "+ong title");
    assert_eq!(ext.artist, "Long artist");
    assert_eq!(ext.album, "Long album");
    assert_eq!(ext.speed, Some(2));
    assert_eq!(ext.genre, "Free genre");
    assert_eq!(ext.start_time, "000:15");
    assert_eq!(ext.end_time, "123:45");
    assert_eq!(t.title, "Title");
    assert_eq!(t.best_title(), "+ong title");
    assert_eq!(t.best_artist(), "Long artist");
    assert_eq!(t.best_album(), "Long album");
    assert_eq!(t.len(), 355);

    let mut b = full_tag();
    b[184] = 0;
    put(&mut b, 185, &[b'g'; 30]);
    put(&mut b, 215, b"1:2\0xx");
    put(&mut b, 221, &[0; 6]);
    let ext = Id3v1::decode(&b).unwrap().ext.unwrap();
    assert_eq!(ext.speed, None);
    assert_eq!(ext.genre, "g".repeat(30));
    assert_eq!(ext.start_time, "1:2");
    assert_eq!(ext.end_time, "");
    b[227] = b'X';
    assert_eq!(Id3v1::decode(&b).unwrap_err().kind(), ErrorKind::BadMagic);
}

#[test]
fn read_looks_at_the_end_of_the_file() {
    let mut file = vec![0xaau8; 1000];
    file.extend_from_slice(&base_tag());
    let t = Id3v1::read(&Cursor::new(&file)).unwrap();
    assert_eq!(t.title, "Title");
    assert!(t.ext.is_none());

    let mut file = vec![0xaau8; 1000];
    file.extend_from_slice(&full_tag());
    let t = Id3v1::read(&Cursor::new(&file)).unwrap();
    assert_eq!(t.best_title(), "+ong title");

    assert_eq!(Id3v1::read(&Cursor::new(&base_tag())).unwrap().title, "Title");
    assert_eq!(Id3v1::read(&Cursor::new(&[0u8; 127])).unwrap_err().kind(), ErrorKind::BadMagic);
    assert_eq!(Id3v1::read(&Cursor::new(&[0u8; 500])).unwrap_err().kind(), ErrorKind::BadMagic);
    assert_eq!(Id3v1::read(&Cursor::new(&[])).unwrap_err().kind(), ErrorKind::BadMagic);
}

#[test]
fn genre_table() {
    assert_eq!(genre_str(0), Some("Blues"));
    assert_eq!(genre_str(17), Some("Rock"));
    assert_eq!(genre_str(191), Some("Psybient"));
    assert_eq!(genre_str(192), None);
    assert_eq!(genre_str(255), None);
    assert_eq!(Genre::new(12).unwrap().description(), Some("Other"));
    assert_eq!(Genre::new(12).unwrap().to_string(), "Other");
    assert_eq!(Genre::new(192).unwrap().to_string(), "Unknown (192)");
    assert_eq!(Genre::new(200).unwrap().to_string(), "Unknown (200)");
    assert_eq!(Genre::new(254).unwrap().to_string(), "Unknown (254)");
    assert!(Genre::new(255).is_none());
    for i in 0..192u16 {
        assert!(genre_str(i as u8).is_some());
    }
}
