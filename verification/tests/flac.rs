use tagen::error::ErrorKind;
use tagen::flac::{BlockHeader, BlockKind, CueSheet, CueSheetIndex, CueSheetTrack, Flac, Picture, StreamInfo};
use tagen::id3::frame::body::PictureKind;
use tagen::meta::{FormatKind, Meta};
use tagen::timestamp::Timestamp;
use tagen::util::limited::{Cursor, Limited};

fn limited(data: &[u8]) -> Limited<Cursor<'_>> {
    Limited::new(Cursor::new(data), data.len() as u64)
}

fn stream_info_bytes() -> [u8; 34] {
    let mut b = [0u8; 34];
    b[0..2].copy_from_slice(&4096u16.to_be_bytes());
    b[2..4].copy_from_slice(&4608u16.to_be_bytes());
    b[4..7].copy_from_slice(&[0x00, 0x03, 0xe8]); // 1000
    b[7..10].copy_from_slice(&[0x00, 0x00, 0x00]); // unknown
    // 44100 Hz in 20 bits, 2 channels (1), 16 bits (15), 441000 samples in 36 bits.
    let packed: u64 = (44100u64 << 44) | (1u64 << 41) | (15u64 << 36) | 441_000u64;
    b[10..18].copy_from_slice(&packed.to_be_bytes());
    for i in 0..16 {
        b[18 + i] = i as u8;
    }
    b
}

fn block(kind: u8, last: bool, body: &[u8]) -> Vec<u8> {
    let mut v = vec![kind | if last { 0x80 } else { 0 }];
    v.extend_from_slice(&(body.len() as u32).to_be_bytes()[1..]);
    v.extend_from_slice(body);
    v
}

fn vorbis_comment(entries: &[&str]) -> Vec<u8> {
    let mut v = Vec::new();
    v.extend_from_slice(&4u32.to_le_bytes());
    v.extend_from_slice(b"test");
    v.extend_from_slice(&(entries.len() as u32).to_le_bytes());
    for e in entries {
        v.extend_from_slice(&(e.len() as u32).to_le_bytes());
        v.extend_from_slice(e.as_bytes());
    }
    v
}

#[test]
fn stream_info_fields() {
    let s = StreamInfo::decode(&stream_info_bytes()).unwrap();
    assert_eq!(s.min_block_len_samples, 4096);
    assert_eq!(s.max_block_len_samples, 4608);
    assert_eq!(s.min_frame_len_bytes, Some(1000));
    assert_eq!(s.max_frame_len_bytes, None);
    assert_eq!(s.samples_per_sec, 44100);
    assert_eq!(s.channel_count, 2);
    assert_eq!(s.bits_per_sample, 16);
    assert_eq!(s.len_samples, Some(441_000));
    assert_eq!(s.md5, [0, 1, 2, 3, 4, 5, 6, 7, 8, 9, 10, 11, 12, 13, 14, 15]);

    let mut zero_rate = stream_info_bytes();
    zero_rate[10] = 0;
    zero_rate[11] = 0;
    zero_rate[12] &= 0x0f;
    assert_eq!(StreamInfo::decode(&zero_rate).unwrap_err().kind(), ErrorKind::InvalidData);
    assert_eq!(StreamInfo::decode(&stream_info_bytes()[..33]).unwrap_err().kind(), ErrorKind::InvalidData);

    let mut all = stream_info_bytes();
    all[10..18].copy_from_slice(&[0xff; 8]);
    let s = StreamInfo::decode(&all).unwrap();
    assert_eq!((s.samples_per_sec, s.channel_count, s.bits_per_sample), (0xf_ffff, 8, 32));
    assert_eq!(s.len_samples, Some(0xf_ffff_ffff));
}

#[test]
fn block_header_fields() {
    assert_eq!(
        BlockHeader::read(&mut limited(&[0x84, 0x01, 0x02, 0x03])).unwrap(),
        BlockHeader { last: true, kind: BlockKind(BlockKind::VORBIS_COMMENT), len: 0x010203 }
    );
    assert_eq!(
        BlockHeader::read(&mut limited(&[0x06, 0, 0, 9])).unwrap(),
        BlockHeader { last: false, kind: BlockKind(BlockKind::PICTURE), len: 9 }
    );
    assert_eq!(BlockHeader::read(&mut limited(&[0x7f, 0, 0, 0])).unwrap_err().kind(), ErrorKind::InvalidData);
    assert_eq!(BlockHeader::read(&mut limited(&[0xff, 0, 0, 0])).unwrap_err().kind(), ErrorKind::InvalidData);
    assert_eq!(BlockHeader::read(&mut limited(&[0, 0, 0])).unwrap_err().kind(), ErrorKind::UnexpectedEof);
}

#[test]
fn stream_info_block() {
    let mut data = block(0, false, &stream_info_bytes());
    let mut rd = limited(&data);
    assert_eq!(StreamInfo::read_block(&mut rd).unwrap(), StreamInfo::decode(&stream_info_bytes()).unwrap());
    assert_eq!(rd.pos(), 38);
    data[3] = 33;
    assert_eq!(StreamInfo::read_block(&mut limited(&data)).unwrap_err().kind(), ErrorKind::InvalidData);
    data[3] = 34;
    assert_eq!(StreamInfo::read_block(&mut limited(&data[..37])).unwrap_err().kind(), ErrorKind::UnexpectedEof);
}

fn index(offset: u64, num: u8) -> Vec<u8> {
    let mut v = offset.to_be_bytes().to_vec();
    v.push(num);
    v.extend_from_slice(&[0; 3]);
    v
}

fn track(offset: u64, num: u8, isrc: &[u8], flags: u8, indices: &[Vec<u8>]) -> Vec<u8> {
    let mut v = offset.to_be_bytes().to_vec();
    v.push(num);
    let mut field = [0u8; 12];
    field[..isrc.len()].copy_from_slice(isrc);
    v.extend_from_slice(&field);
    v.push(flags);
    v.extend_from_slice(&[0; 13]);
    v.push(indices.len() as u8);
    for i in indices {
        v.extend_from_slice(i);
    }
    v
}

fn cue_sheet(catalog: &[u8], tracks: &[Vec<u8>]) -> Vec<u8> {
    let mut v = vec![0u8; 128];
    v[..catalog.len()].copy_from_slice(catalog);
    v.extend_from_slice(&88_200u64.to_be_bytes());
    v.push(0x80);
    v.extend_from_slice(&[0; 258]);
    v.push(tracks.len() as u8);
    for t in tracks {
        v.extend_from_slice(t);
    }
    v
}

#[test]
fn cue_sheet_index_and_track() {
    let data = index(0x0102_0304_0506_0708, 9);
    assert_eq!(
        CueSheetIndex::read(&mut limited(&data)).unwrap(),
        CueSheetIndex { offset_samples: 0x0102_0304_0506_0708, num: 9 }
    );
    assert_eq!(CueSheetIndex::read(&mut limited(&data[..11])).unwrap_err().kind(), ErrorKind::UnexpectedEof);

    let data = track(1000, 3, b"ISRC12345678", 0x40, &[index(0, 0), index(588, 1)]);
    let mut rd = limited(&data);
    let t = CueSheetTrack::read(&mut rd).unwrap();
    assert_eq!(rd.pos(), data.len() as u64);
    assert_eq!(
        t,
        CueSheetTrack {
            offset_samples: 1000,
            num: 3,
            isrc: Some("ISRC12345678".into()),
            audio: true,
            pre_emphasis: true,
            index_entries: vec![
                CueSheetIndex { offset_samples: 0, num: 0 },
                CueSheetIndex { offset_samples: 588, num: 1 },
            ],
        }
    );
    let data = track(0, 170, b"", 0x80, &[]);
    let t = CueSheetTrack::read(&mut limited(&data)).unwrap();
    assert_eq!((t.isrc, t.audio, t.pre_emphasis), (None, false, false));
    let data = track(0, 1, b"AB\0CD", 0, &[]);
    assert_eq!(CueSheetTrack::read(&mut limited(&data)).unwrap().isrc, Some("AB".into()));

    // More index points are announced than the data holds.
    let mut data = track(0, 1, b"", 0, &[index(0, 0)]);
    data[35] = 2;
    assert_eq!(CueSheetTrack::read(&mut limited(&data)).unwrap_err().kind(), ErrorKind::InvalidData);
    assert_eq!(CueSheetTrack::read(&mut limited(&data[..35])).unwrap_err().kind(), ErrorKind::UnexpectedEof);
}

#[test]
fn cue_sheet_with_tracks() {
    let data = cue_sheet(
        b"1234567890123",
        &[track(0, 1, b"", 0, &[index(0, 1)]), track(44100, 170, b"", 0, &[])],
    );
    let mut rd = limited(&data);
    let c = CueSheet::read(&mut rd).unwrap();
    assert_eq!(rd.pos(), data.len() as u64);
    assert_eq!(c.media_catalog, "1234567890123");
    assert_eq!(c.lead_in_sample_count, 88_200);
    assert!(c.compact_disc);
    assert_eq!(c.tracks.len(), 2);
    assert_eq!(c.tracks[0].index_entries.len(), 1);
    assert_eq!(c.tracks[1].num, 170);

    let mut many = cue_sheet(b"", &[track(0, 1, b"", 0, &[])]);
    many[395] = 200;
    assert_eq!(CueSheet::read(&mut limited(&many)).unwrap_err().kind(), ErrorKind::InvalidData);
    assert_eq!(CueSheet::read(&mut limited(&data[..395])).unwrap_err().kind(), ErrorKind::UnexpectedEof);
    // A track that announces index points which are not there.
    let mut bad = cue_sheet(b"", &[track(0, 1, b"", 0, &[]), track(0, 2, b"", 0, &[])]);
    bad[396 + 35] = 4;
    assert_eq!(CueSheet::read(&mut limited(&bad)).unwrap_err().kind(), ErrorKind::InvalidData);
    // Index points that take the place of the next track.
    bad[396 + 35] = 3;
    assert_eq!(CueSheet::read(&mut limited(&bad)).unwrap_err().kind(), ErrorKind::UnexpectedEof);
}

fn picture(kind: u32, content_type: &[u8], description: &[u8], data: &[u8]) -> Vec<u8> {
    let mut v = kind.to_be_bytes().to_vec();
    v.extend_from_slice(&(content_type.len() as u32).to_be_bytes());
    v.extend_from_slice(content_type);
    v.extend_from_slice(&(description.len() as u32).to_be_bytes());
    v.extend_from_slice(description);
    for dim in [640u32, 480, 24, 0] {
        v.extend_from_slice(&dim.to_be_bytes());
    }
    v.extend_from_slice(&(data.len() as u32).to_be_bytes());
    v.extend_from_slice(data);
    v
}

#[test]
fn picture_fields() {
    let data = picture(3, b"image/png", "h\u{e9}".as_bytes(), &[1, 2, 3]);
    let mut rd = limited(&data);
    let p = Picture::read(&mut rd).unwrap();
    assert_eq!(rd.pos(), data.len() as u64);
    assert_eq!(
        p,
        Picture {
            kind: PictureKind(3),
            content_type: "image/png".into(),
            description: "h\u{e9}".into(),
            width: 640,
            height: 480,
            color_depth: 24,
            colors_used: 0,
            data: vec![1, 2, 3],
        }
    );
    assert_eq!(
        Picture::read(&mut limited(&picture(256, b"", b"", &[]))).unwrap_err().kind(),
        ErrorKind::InvalidData
    );
    assert_eq!(
        Picture::read(&mut limited(&picture(3, b"", &[0xc3], &[]))).unwrap_err().kind(),
        ErrorKind::InvalidEncoding
    );
    for cut in 0..data.len() {
        assert_eq!(
            Picture::read(&mut limited(&data[..cut])).unwrap_err().kind(),
            ErrorKind::UnexpectedEof,
            "cut at {}",
            cut
        );
    }
}

fn flac_file(blocks: &[Vec<u8>], audio: usize) -> Vec<u8> {
    let mut v = b"fLaC".to_vec();
    v.extend_from_slice(&block(0, false, &stream_info_bytes()));
    for b in blocks {
        v.extend_from_slice(b);
    }
    v.extend_from_slice(&vec![0x55; audio]);
    v
}

#[test]
fn whole_file() {
    let data = flac_file(
        &[
            block(1, false, &[0; 10]),
            block(6, false, &picture(3, b"image/png", b"front", &[9, 9])),
            block(5, false, &cue_sheet(b"cat", &[])),
            block(6, false, &picture(4, b"image/png", b"back", &[8])),
            block(4, true, &vorbis_comment(&["TITLE=Song", "DATE=2019-06-20"])),
        ],
        1000,
    );
    let f = Flac::read(&mut Cursor::new(&data)).unwrap();
    assert_eq!(f.stream_info().samples_per_sec, 44100);
    assert_eq!(f.pictures().len(), 2);
    assert_eq!(f.pictures()[1].description, "back");
    assert_eq!(f.cue_sheet().unwrap().media_catalog, "cat");
    // What follows the stream marker, less the blocks behind the stream info.
    assert_eq!(f.audio_len_bytes(), 1000 + 38);
    let tags = f.tags();
    assert_eq!(tags.title().as_deref(), Some("Song"));
    assert_eq!(tags.date(), Timestamp::new_ymd(2019, 6, 20));
    assert!(tags.id3v1.is_none() && tags.id3v2.is_none() && tags.vcomment.is_some());

    let m = Meta::read(&mut Cursor::new(&data)).unwrap().unwrap();
    assert_eq!(m.format().kind(), FormatKind::Flac);
    assert_eq!(m.format().name(), "FLAC");
    assert!(m.format().as_flac().is_some() && m.format().as_mpeg().is_none());
    assert_eq!(m.channel_count(), 2);
    assert_eq!(m.samples_per_sec(), 44100);
    assert_eq!(m.bits_per_sample(), Some(16));
    assert_eq!(m.tags().title().as_deref(), Some("Song"));
}

#[test]
fn only_the_first_comment_and_cue_sheet_count() {
    let data = flac_file(
        &[
            block(4, false, &vorbis_comment(&["TITLE=First"])),
            block(4, false, &vorbis_comment(&["TITLE=Second"])),
            block(5, false, &cue_sheet(b"one", &[])),
            block(5, true, &cue_sheet(b"two", &[])),
        ],
        10,
    );
    let f = Flac::read(&mut Cursor::new(&data)).unwrap();
    assert_eq!(f.tags().title().as_deref(), Some("First"));
    assert_eq!(f.cue_sheet().unwrap().media_catalog, "one");
}

#[test]
fn a_block_that_cannot_be_decoded_counts_as_absent() {
    let mut bad_picture = picture(3, b"image/png", b"front", &[9, 9]);
    bad_picture[3] = 0xff;
    bad_picture[2] = 0xff;
    let mut short_cue_sheet = cue_sheet(b"cat", &[]);
    short_cue_sheet.truncate(100);
    let data = flac_file(
        &[
            block(6, false, &bad_picture),
            block(5, false, &short_cue_sheet),
            block(4, false, &[1, 2, 3]),
            block(6, false, &picture(4, b"image/png", b"back", &[8])),
            block(5, false, &cue_sheet(b"dog", &[])),
            block(4, true, &vorbis_comment(&["TITLE=Song"])),
        ],
        100,
    );
    let f = Flac::read(&mut Cursor::new(&data)).unwrap();
    assert_eq!(f.pictures().len(), 1);
    assert_eq!(f.pictures()[0].description, "back");
    assert_eq!(f.cue_sheet().unwrap().media_catalog, "dog");
    assert_eq!(f.tags().title().as_deref(), Some("Song"));
    assert_eq!(f.audio_len_bytes(), 100 + 38);
}

#[test]
fn a_block_ends_where_its_header_says() {
    // A picture block with bytes behind the picture.
    let mut body = picture(3, b"image/png", b"front", &[9, 9]);
    body.extend_from_slice(&[0xaa; 7]);
    let data = flac_file(
        &[block(6, false, &body), block(4, true, &vorbis_comment(&["TITLE=Song"]))],
        5,
    );
    let f = Flac::read(&mut Cursor::new(&data)).unwrap();
    assert_eq!(f.pictures().len(), 1);
    assert_eq!(f.tags().title().as_deref(), Some("Song"));
    assert_eq!(f.audio_len_bytes(), 5 + 38);
}

#[test]
fn tags_before_and_behind() {
    let mut data = b"ID3\x03\0\0\0\0\0\x11TIT2\0\0\0\x07\0\0\0Title1".to_vec();
    data.extend_from_slice(&flac_file(&[block(1, true, &[])], 500));
    let mut v1 = vec![0u8; 128];
    v1[..3].copy_from_slice(b"TAG");
    v1[3..8].copy_from_slice(b"Older");
    v1[127] = 255;
    data.extend_from_slice(&v1);
    let f = Flac::read(&mut Cursor::new(&data)).unwrap();
    let tags = f.tags();
    assert_eq!(tags.id3v2.unwrap().title(), Some("Title1"));
    assert_eq!(tags.id3v1.unwrap().title, "Older");
    assert_eq!(tags.title().as_deref(), Some("Title1"));
    assert_eq!(f.audio_len_bytes(), 500 + 38);
}

#[test]
fn failures() {
    let read = |data: &[u8]| Flac::read(&mut Cursor::new(data)).map(|f| f.audio_len_bytes());
    assert_eq!(read(b"").unwrap_err().kind(), ErrorKind::InvalidData);
    assert_eq!(read(b"fLa").unwrap_err().kind(), ErrorKind::UnexpectedEof);
    assert_eq!(read(b"nothing of the kind").unwrap_err().kind(), ErrorKind::UnexpectedEof);
    assert_eq!(read(&vec![0u8; 0x10_0000 + 8]).unwrap_err().kind(), ErrorKind::InvalidData);
    // The stream info is followed by no block.
    assert_eq!(read(&flac_file(&[], 0)).unwrap_err().kind(), ErrorKind::UnexpectedEof);
    // A block that is to be skipped reaches beyond the file.
    let mut data = flac_file(&[block(2, true, &[0; 4])], 0);
    let at = data.len() - 5;
    data[at] = 200;
    assert_eq!(read(&data).unwrap_err().kind(), ErrorKind::UnexpectedEof);
    // A comment that is cut short.
    let mut data = flac_file(&[block(4, true, &vorbis_comment(&["TITLE=Song"]))], 0);
    data.truncate(data.len() - 1);
    assert_eq!(read(&data).unwrap_err().kind(), ErrorKind::UnexpectedEof);
    // Audio frames where a block is expected.
    let data = flac_file(&[vec![0xff, 0xf8, 0, 0]], 10);
    assert_eq!(read(&data).unwrap_err().kind(), ErrorKind::InvalidData);
    // A stream marker without a stream info behind it is passed over.
    let mut data = b"fLaC\0\0\0\x21".to_vec();
    data.extend_from_slice(&[0; 40]);
    data.extend_from_slice(&flac_file(&[block(1, true, &[])], 7));
    assert_eq!(read(&data).unwrap(), 7 + 38);
}

#[test]
fn meta_of_an_mpeg_file_and_of_none() {
    let mut data = Vec::new();
    for _ in 0..3 {
        data.extend_from_slice(&[0xff, 0xfb, 0x90, 0x64]);
        data.extend_from_slice(&[0; 413]);
    }
    let m = Meta::read(&mut Cursor::new(&data)).unwrap().unwrap();
    assert_eq!(m.format().kind(), FormatKind::Mpeg);
    assert_eq!(m.format().name(), "MPEG 1 Layer III");
    assert_eq!(m.channel_count(), 2);
    assert_eq!(m.samples_per_sec(), 44100);
    assert_eq!(m.bits_per_sample(), None);
    assert_eq!(m.format().as_mpeg().unwrap().bits_per_sec(), 128_000);

    assert!(Meta::read(&mut Cursor::new(b"plain text, no audio")).unwrap().is_none());
    assert!(Meta::read(&mut Cursor::new(b"")).unwrap().is_none());
    let unsupported = b"ID3\x03\0\x80\0\0\0\0";
    assert_eq!(
        Meta::read(&mut Cursor::new(unsupported)).map(|m| m.is_some()).unwrap_err().kind(),
        ErrorKind::Unsupported
    );
}
