use tagen::error::ErrorKind;
use tagen::id3::v2::Tag;
use tagen::mpeg::vbr::{Lame, LameVersion, Vbr, Vbri, Xing};
use tagen::mpeg::{ChannelMode, Emphasis, Header, Layer, Mpeg, Version};
use tagen::util::limited::{Cursor, Limited};

fn header(version: Version, layer: Layer, kbps: u16, rate: u16, padded: bool) -> Header {
    Header {
        version,
        layer,
        crc_protected: false,
        padded,
        kbits_per_sec: kbps,
        samples_per_sec: rate,
        channel_mode: ChannelMode::Stereo,
        copyrighted: false,
        original: false,
        emphasis: Emphasis::NoEmphasis,
    }
}

#[test]
fn frame_length_formula() {
    assert_eq!(header(Version::V1, Layer::L3, 128, 44100, false).frame_len_bytes(), 417);
    assert_eq!(header(Version::V1, Layer::L3, 128, 44100, true).frame_len_bytes(), 418);
    assert_eq!(header(Version::V1, Layer::L3, 320, 48000, false).frame_len_bytes(), 960);
    assert_eq!(header(Version::V1, Layer::L2, 192, 44100, false).frame_len_bytes(), 626);
    assert_eq!(header(Version::V1, Layer::L1, 448, 32000, true).frame_len_bytes(), (168 + 1) * 4);
    assert_eq!(header(Version::V2, Layer::L3, 64, 22050, false).frame_len_bytes(), 208);
    assert_eq!(header(Version::V2_5, Layer::L3, 8, 8000, false).frame_len_bytes(), 72);
    assert_eq!(header(Version::V2, Layer::L1, 32, 24000, false).frame_len_bytes(), 16 * 4);
}

#[test]
fn samples_per_frame_table() {
    assert_eq!(header(Version::V1, Layer::L1, 128, 44100, false).samples_per_frame(), 384);
    assert_eq!(header(Version::V1, Layer::L2, 128, 44100, false).samples_per_frame(), 1152);
    assert_eq!(header(Version::V1, Layer::L3, 128, 44100, false).samples_per_frame(), 1152);
    assert_eq!(header(Version::V2, Layer::L1, 128, 22050, false).samples_per_frame(), 384);
    assert_eq!(header(Version::V2, Layer::L2, 128, 22050, false).samples_per_frame(), 1152);
    assert_eq!(header(Version::V2, Layer::L3, 128, 22050, false).samples_per_frame(), 576);
    assert_eq!(header(Version::V2_5, Layer::L3, 64, 11025, false).samples_per_frame(), 576);
}

#[test]
fn channel_count() {
    assert_eq!(ChannelMode::Mono.count(), 1);
    assert_eq!(ChannelMode::Stereo.count(), 2);
    assert_eq!(ChannelMode::JointStereo.count(), 2);
    assert_eq!(ChannelMode::DualChannel.count(), 2);
}

#[test]
fn header_fields() {
    // 1111 1111 1111 1011 1001 0000 0110 0100
    let h = Header::decode(0xfffb_9064).unwrap();
    assert_eq!(h.version, Version::V1);
    assert_eq!(h.layer, Layer::L3);
    assert!(!h.crc_protected);
    assert_eq!(h.kbits_per_sec, 128);
    assert_eq!(h.samples_per_sec, 44100);
    assert!(!h.padded);
    assert_eq!(h.channel_mode, ChannelMode::JointStereo);
    assert!(!h.copyrighted);
    assert!(h.original);
    assert_eq!(h.emphasis, Emphasis::NoEmphasis);

    // Version 2, layer II, protected, index 14, 16 kHz, padded, mono, copyright, CCIT J.17.
    let h = Header::decode(0xfff4_eacb).unwrap();
    assert_eq!(h.version, Version::V2);
    assert_eq!(h.layer, Layer::L2);
    assert!(h.crc_protected);
    assert_eq!(h.kbits_per_sec, 160);
    assert_eq!(h.samples_per_sec, 16000);
    assert!(h.padded);
    assert_eq!(h.channel_mode, ChannelMode::Mono);
    assert!(h.copyrighted);
    assert!(!h.original);
    assert_eq!(h.emphasis, Emphasis::CcitJ17);

    // Version 2.5, layer I, index 1, 11025 Hz, dual channel, 50/15.
    let h = Header::decode(0xffe7_1081).unwrap();
    assert_eq!(h.version, Version::V2_5);
    assert_eq!(h.layer, Layer::L1);
    assert_eq!(h.kbits_per_sec, 32);
    assert_eq!(h.samples_per_sec, 11025);
    assert_eq!(h.channel_mode, ChannelMode::DualChannel);
    assert_eq!(h.emphasis, Emphasis::E50_15);
}

#[test]
fn bitrate_and_sample_rate_tables() {
    let kbps = |version_layer: u32, index: u32| {
        Header::decode(0xffe0_0000 | version_layer << 17 | index << 12).unwrap().kbits_per_sec
    };
    // Version 1 (11): layers I (11), II (10), III (01).
    assert_eq!((1..15).map(|i| kbps(0b1111, i)).collect::<Vec<_>>(),
        vec![32, 64, 96, 128, 160, 192, 224, 256, 288, 320, 352, 384, 416, 448]);
    assert_eq!((1..15).map(|i| kbps(0b1110, i)).collect::<Vec<_>>(),
        vec![32, 48, 56, 64, 80, 96, 112, 128, 160, 192, 224, 256, 320, 384]);
    assert_eq!((1..15).map(|i| kbps(0b1101, i)).collect::<Vec<_>>(),
        vec![32, 40, 48, 56, 64, 80, 96, 112, 128, 160, 192, 224, 256, 320]);
    // Version 2 (10) and 2.5 (00).
    assert_eq!((1..15).map(|i| kbps(0b1011, i)).collect::<Vec<_>>(),
        vec![32, 48, 56, 64, 80, 96, 112, 128, 144, 160, 176, 192, 224, 256]);
    assert_eq!((1..15).map(|i| kbps(0b1010, i)).collect::<Vec<_>>(),
        vec![8, 16, 24, 32, 40, 48, 56, 64, 80, 96, 112, 128, 144, 160]);
    assert_eq!((1..15).map(|i| kbps(0b0001, i)).collect::<Vec<_>>(),
        vec![8, 16, 24, 32, 40, 48, 56, 64, 80, 96, 112, 128, 144, 160]);
    assert_eq!(kbps(0b0011, 14), 256);

    let rate = |version: u32, index: u32| {
        Header::decode(0xffe2_1000 | version << 19 | index << 10).unwrap().samples_per_sec
    };
    assert_eq!((rate(3, 0), rate(3, 1), rate(3, 2)), (44100, 48000, 32000));
    assert_eq!((rate(2, 0), rate(2, 1), rate(2, 2)), (22050, 24000, 16000));
    assert_eq!((rate(0, 0), rate(0, 1), rate(0, 2)), (11025, 12000, 8000));
}

#[test]
fn reserved_header_fields_are_refused() {
    assert_eq!(Header::decode(0x7ffb_9064).unwrap_err().kind(), ErrorKind::BadMagic);
    assert_eq!(Header::decode(0xffdb_9064).unwrap_err().kind(), ErrorKind::BadMagic);
    assert_eq!(Header::decode(0).unwrap_err().kind(), ErrorKind::BadMagic);
    // Version code 01.
    assert_eq!(Header::decode(0xffeb_9064).unwrap_err().kind(), ErrorKind::InvalidData);
    // Layer code 00.
    assert_eq!(Header::decode(0xfff9_9064).unwrap_err().kind(), ErrorKind::InvalidData);
    // Bitrate index 0 and 15.
    assert_eq!(Header::decode(0xfffb_0064).unwrap_err().kind(), ErrorKind::InvalidData);
    assert_eq!(Header::decode(0xfffb_f064).unwrap_err().kind(), ErrorKind::InvalidData);
    // Sample rate index 3.
    assert_eq!(Header::decode(0xfffb_9c64).unwrap_err().kind(), ErrorKind::InvalidData);
    // Emphasis code 10.
    assert_eq!(Header::decode(0xfffb_9066).unwrap_err().kind(), ErrorKind::InvalidData);
}

#[test]
fn header_read_takes_four_bytes() {
    let data = [0xff, 0xfb, 0x90, 0x64, 0xff];
    let mut rd = Cursor::new(&data);
    assert_eq!(Header::read(&mut rd).unwrap(), Header::decode(0xfffb_9064).unwrap());
    assert_eq!(rd.position(), 4);
    assert_eq!(Header::read(&mut rd).unwrap_err().kind(), ErrorKind::UnexpectedEof);
}

#[test]
fn vbr_offset() {
    let h = |version, channel_mode| {
        let mut h = header(version, Layer::L3, 128, 44100, false);
        h.channel_mode = channel_mode;
        h
    };
    assert_eq!(Vbr::offset(&h(Version::V1, ChannelMode::Mono)), 21);
    assert_eq!(Vbr::offset(&h(Version::V1, ChannelMode::Stereo)), 36);
    assert_eq!(Vbr::offset(&h(Version::V1, ChannelMode::JointStereo)), 36);
    assert_eq!(Vbr::offset(&h(Version::V2, ChannelMode::Mono)), 13);
    assert_eq!(Vbr::offset(&h(Version::V2, ChannelMode::DualChannel)), 21);
    assert_eq!(Vbr::offset(&h(Version::V2_5, ChannelMode::Mono)), 13);
    assert_eq!(Vbr::offset(&h(Version::V2_5, ChannelMode::Stereo)), 21);
}

fn lame_record() -> [u8; 27] {
    let mut b = [0u8; 27];
    b[0] = 0x04; // revision 0, VBR method 4
    b[1] = 190; // lowpass 19000 Hz
    b[2..6].copy_from_slice(&0x0040_0000u32.to_be_bytes()); // peak 0.5
    // Track gain: gain type 1, origin 3, sign 1, magnitude 65.
    b[6] = 0b001_011_1_0;
    b[7] = 65;
    // Album gain: gain type 0 (not set), origin 2, sign 0, magnitude 300.
    b[8] = 0b000_010_0_1;
    b[9] = 300u16 as u8;
    b[10] = 0x35; // encoding flags 3, ATH 5
    b[11] = 192; // bitrate
    // Delay 576 (0x240), padding 1500 (0x5dc).
    b[12] = 0x24;
    b[13] = 0x05;
    b[14] = 0xdc;
    // Source frequency 1, unwise 1, stereo mode 3, noise shaping 2.
    b[15] = 0b01_1_011_10;
    b[16] = 0x80 | 5; // MP3 gain -5
    // Unused 2 bits, surround 2, preset 1001.
    b[17] = 0b00_010_011;
    b[18] = 0b1110_1001;
    b[19..23].copy_from_slice(&123_456u32.to_be_bytes());
    b[23..25].copy_from_slice(&0xbeefu16.to_be_bytes());
    b[25..27].copy_from_slice(&0xcafeu16.to_be_bytes());
    b
}

#[test]
fn lame_record_fields() {
    let l = Lame::decode(&lame_record()).unwrap();
    assert_eq!(l.vbr_method, 4);
    assert_eq!(l.lowpass_filter, 19000);
    assert_eq!(l.track_peak, Some(0x0040_0000));
    assert_eq!(l.track_gain_origin, 3);
    assert_eq!(l.track_gain_adjustment, Some(-65));
    assert_eq!(l.album_gain_origin, 2);
    assert_eq!(l.album_gain_adjustment, None);
    assert_eq!(l.encoding_flags, 3);
    assert_eq!(l.ath, 5);
    assert_eq!(l.kbits_per_sec, 192);
    assert_eq!(l.encoder_delay_start, 576);
    assert_eq!(l.encoder_padding_end, 1500);
    assert_eq!(l.source_sample_frequency_enum, 1);
    assert!(l.unwise_setting_used);
    assert_eq!(l.stereo_mode, 3);
    assert_eq!(l.noise_shaping, 2);
    assert_eq!(l.mp3_gain, -5);
    assert_eq!(l.surround_info, 2);
    assert_eq!(l.preset_used, 0b011_1110_1001);
    assert_eq!(l.music_length, 123_456);
    assert_eq!(l.music_crc, 0xbeef);
    assert_eq!(l.header_crc, 0xcafe);

    let mut b = lame_record();
    b[8] = 0b010_010_0_1;
    assert_eq!(Lame::decode(&b).unwrap().album_gain_adjustment, Some(300));
    b[2..6].copy_from_slice(&[0; 4]);
    assert_eq!(Lame::decode(&b).unwrap().track_peak, None);
    b[16] = 0x7f;
    assert_eq!(Lame::decode(&b).unwrap().mp3_gain, 127);
    b[16] = 0xff;
    assert_eq!(Lame::decode(&b).unwrap().mp3_gain, -127);
    b[0] = 0x14;
    assert_eq!(Lame::decode(&b).unwrap_err().kind(), ErrorKind::InvalidData);
}

#[test]
fn lame_version_text() {
    assert!(LameVersion::from_bytes(*b"LAME3.99r").is_some());
    assert!(LameVersion::from_bytes(*b"L3.99r1\0\0").is_some());
    assert!(LameVersion::from_bytes(*b"Lavf58.29").is_none());
    assert!(LameVersion::from_bytes(*b"L3.98r1\0\0").is_none());
    assert_eq!(LameVersion::from_bytes(*b"LAME3.99r").unwrap().to_bytes(), *b"LAME3.99r");
    assert_eq!(LameVersion::from_bytes(*b"LAME3.99r").unwrap().to_string(), "LAME3.99r");
    assert_eq!(LameVersion::from_bytes(*b"L3.99r1\0\0").unwrap().to_string(), "L3.99r1");
    assert_eq!(LameVersion::from_bytes(*b"LAME\xe9\0xyz").unwrap().to_string(), "LAME?");
}

fn xing(flags: u32, fields: &[u32], with_toc: bool, tail: &[u8]) -> Vec<u8> {
    let mut v = flags.to_be_bytes().to_vec();
    let mut fields = fields.iter();
    if flags & 1 != 0 {
        v.extend_from_slice(&fields.next().unwrap().to_be_bytes());
    }
    if flags & 2 != 0 {
        v.extend_from_slice(&fields.next().unwrap().to_be_bytes());
    }
    if with_toc {
        v.extend_from_slice(&[0x55; 100]);
    }
    if flags & 8 != 0 {
        v.extend_from_slice(&fields.next().unwrap().to_be_bytes());
    }
    v.extend_from_slice(tail);
    v
}

fn read_xing(data: &[u8]) -> Result<Box<Xing>, tagen::error::Error> {
    Xing::read(&mut Limited::new(Cursor::new(data), u64::MAX))
}

#[test]
fn xing_fields_follow_the_flags() {
    let x = read_xing(&xing(0xf, &[1000, 2000, 77], true, &[])).unwrap();
    assert_eq!(x.stream_len_frames, Some(1000));
    assert_eq!(x.stream_len_bytes, Some(2000));
    assert_eq!(x.quality, Some(77));
    assert_eq!(x.lame_version, None);
    assert_eq!(x.lame, None);

    let x = read_xing(&xing(0x2, &[2000], false, &[])).unwrap();
    assert_eq!((x.stream_len_frames, x.stream_len_bytes, x.quality), (None, Some(2000), None));
    let x = read_xing(&xing(0x9, &[5, 6], false, &[])).unwrap();
    assert_eq!((x.stream_len_frames, x.stream_len_bytes, x.quality), (Some(5), None, Some(6)));
    let x = read_xing(&xing(0x0, &[], false, &[])).unwrap();
    assert_eq!((x.stream_len_frames, x.stream_len_bytes, x.quality), (None, None, None));

    assert_eq!(read_xing(&[0, 0]).unwrap_err().kind(), ErrorKind::UnexpectedEof);
    assert_eq!(read_xing(&[0, 0, 0, 1, 0]).unwrap_err().kind(), ErrorKind::UnexpectedEof);
    let mut cut = xing(0x4, &[], true, &[]);
    cut.pop();
    assert_eq!(read_xing(&cut).unwrap_err().kind(), ErrorKind::UnexpectedEof);
}

#[test]
fn xing_with_lame() {
    let mut tail = b"LAME3.99r".to_vec();
    tail.extend_from_slice(&lame_record());
    let x = read_xing(&xing(0x3, &[10, 20], false, &tail)).unwrap();
    assert_eq!(x.lame_version, LameVersion::from_bytes(*b"LAME3.99r"));
    assert_eq!(x.lame, Some(Lame::decode(&lame_record()).unwrap()));

    // How far the reader moves: past the numbers, the version text and the record.
    let moved = |data: &[u8]| {
        let mut rd = Limited::new(Cursor::new(data), u64::MAX);
        Xing::read(&mut rd).unwrap();
        rd.pos()
    };
    let mut long = xing(0xf, &[1, 2, 3], true, &tail);
    long.extend_from_slice(&[0xee; 50]);
    assert_eq!(moved(&long), 4 + 4 + 4 + 100 + 4 + 9 + 27);
    let mut other = xing(0x1, &[1], false, b"Lavf58.29");
    other.extend_from_slice(&[0xee; 50]);
    assert_eq!(moved(&other), 4 + 4 + 9);
    // A read that meets the end of the data uses it up.
    assert_eq!(moved(&xing(0x1, &[1], false, &tail[..5])), 4 + 4 + 5);
    assert_eq!(moved(&xing(0x1, &[1], false, &tail[..20])), 4 + 4 + 20);

    // A record of a revision that is not known counts as no record.
    let mut bad = tail.clone();
    bad[9] = 0x10;
    let x = read_xing(&xing(0x3, &[10, 20], false, &bad)).unwrap();
    assert!(x.lame_version.is_some());
    assert_eq!(x.lame, None);
    // So does one that is cut short.
    let x = read_xing(&xing(0x3, &[10, 20], false, &tail[..20])).unwrap();
    assert!(x.lame_version.is_some());
    assert_eq!(x.lame, None);
    // Another encoder leaves no version text of this kind.
    let x = read_xing(&xing(0x3, &[10, 20], false, b"Lavf58.29.100\0\0\0")).unwrap();
    assert_eq!(x.lame_version, None);
    assert_eq!(x.lame, None);
}

fn vbri(entry_len: u16) -> Vec<u8> {
    let mut v = Vec::new();
    v.extend_from_slice(&1u16.to_be_bytes()); // version
    v.extend_from_slice(&0x1234u16.to_be_bytes()); // delay
    v.extend_from_slice(&75u16.to_be_bytes()); // quality
    v.extend_from_slice(&1_000_000u32.to_be_bytes());
    v.extend_from_slice(&2_500u32.to_be_bytes());
    v.extend_from_slice(&3u16.to_be_bytes()); // entries
    v.extend_from_slice(&1u16.to_be_bytes()); // scale
    v.extend_from_slice(&entry_len.to_be_bytes());
    v.extend_from_slice(&10u16.to_be_bytes());
    v.extend_from_slice(&[0; 12]);
    v
}

#[test]
fn vbri_record() {
    let data = vbri(2);
    let mut rd = Limited::new(Cursor::new(&data), u64::MAX);
    let v = Vbri::read(&mut rd).unwrap();
    assert_eq!(v, Vbri { version: 1, quality: 75, stream_len_bytes: 1_000_000, stream_len_frames: 2_500 });
    assert_eq!(rd.pos(), 22 + 6);
    let data = vbri(4);
    let mut rd = Limited::new(Cursor::new(&data), u64::MAX);
    assert!(Vbri::read(&mut rd).is_ok());
    assert_eq!(rd.pos(), 22 + 12);
    let data = vbri(3);
    let mut rd = Limited::new(Cursor::new(&data), u64::MAX);
    assert_eq!(Vbri::read(&mut rd).unwrap_err().kind(), ErrorKind::InvalidData);
    let mut rd = Limited::new(Cursor::new(&data[..21]), u64::MAX);
    assert_eq!(Vbri::read(&mut rd).unwrap_err().kind(), ErrorKind::UnexpectedEof);
}

fn read_vbr(data: &[u8]) -> Result<Vbr, tagen::error::Error> {
    Vbr::read(&mut Limited::new(Cursor::new(data), u64::MAX))
}

#[test]
fn vbr_dispatches_on_the_magic() {
    let mut data = b"Xing".to_vec();
    data.extend_from_slice(&xing(0x3, &[10, 20], false, &[]));
    let v = read_vbr(&data).unwrap();
    assert_eq!(v.stream_len_frames(), Some(10));
    assert_eq!(v.stream_len_bytes(), Some(20));
    assert!(v.as_xing().is_some() && v.as_vbri().is_none());
    data[..4].copy_from_slice(b"Info");
    assert!(read_vbr(&data).unwrap().as_xing().is_some());

    let mut data = b"VBRI".to_vec();
    data.extend_from_slice(&vbri(2));
    let v = read_vbr(&data).unwrap();
    assert_eq!(v.stream_len_frames(), Some(2_500));
    assert_eq!(v.stream_len_bytes(), Some(1_000_000));
    assert!(v.as_vbri().is_some());
    assert_eq!(v.lame(), None);

    let mut data = b"VBRI".to_vec();
    data.extend_from_slice(&vbri(4));
    data.truncate(4 + 22 + 5);
    let mut rd = Limited::new(Cursor::new(&data), u64::MAX);
    assert!(Vbr::read(&mut rd).is_ok());
    // The table of contents is read as far as the data holds it.
    assert_eq!(rd.pos(), 4 + 22 + 5);
    data.extend_from_slice(&[0; 40]);
    let mut rd = Limited::new(Cursor::new(&data), u64::MAX);
    assert!(Vbr::read(&mut rd).is_ok());
    assert_eq!(rd.pos(), 4 + 22 + 12);

    assert_eq!(read_vbr(b"XINGxxxxxxxx").unwrap_err().kind(), ErrorKind::BadMagic);
    assert_eq!(read_vbr(b"Xin").unwrap_err().kind(), ErrorKind::UnexpectedEof);
}

/// A stream of constant bitrate: `count` frames of 417 bytes.
fn cbr_stream(count: usize) -> Vec<u8> {
    let mut v = Vec::new();
    for _ in 0..count {
        v.extend_from_slice(&[0xff, 0xfb, 0x90, 0x64]);
        v.extend_from_slice(&[0; 413]);
    }
    v
}

fn read_mpeg(data: &[u8]) -> Result<Mpeg, tagen::error::Error> {
    Mpeg::read(&mut Cursor::new(data))
}

#[test]
fn constant_bitrate_stream() {
    let data = cbr_stream(10);
    let m = read_mpeg(&data).unwrap();
    assert_eq!(m.header().kbits_per_sec, 128);
    assert!(m.vbr().is_none());
    assert!(m.id3v1().is_none() && m.id3v2().is_none());
    assert_eq!(m.bits_per_sec(), 128_000);
    // 4170 bytes of 8 bits over 128000 bits per second, rounded up.
    assert_eq!(m.duration(), (4170 * 8 + 127_999) / 128_000);
    assert!(m.tags().title().is_none());
}

#[test]
fn garbage_before_the_first_frame_is_skipped() {
    let mut data = vec![0x12, 0xff, 0xfb, 0x34];
    data.extend_from_slice(&cbr_stream(3));
    let m = read_mpeg(&data).unwrap();
    assert_eq!(m.header().samples_per_sec, 44100);
    // The stream is counted from the first frame on.
    assert_eq!(m.duration(), (3 * 417 * 8 + 127_999) / 128_000);
}

#[test]
fn a_single_frame_is_not_enough() {
    // The search runs into the end of a short file.
    let mut data = cbr_stream(1);
    data.extend_from_slice(&[0; 417]);
    assert_eq!(read_mpeg(&data).unwrap_err().kind(), ErrorKind::UnexpectedEof);
    // It gives up at the scan limit of a long one.
    data.resize(0x10_0000 + 4, 0);
    assert_eq!(read_mpeg(&data).unwrap_err().kind(), ErrorKind::InvalidData);
    data.extend_from_slice(&cbr_stream(3));
    assert_eq!(read_mpeg(&data).unwrap_err().kind(), ErrorKind::InvalidData);
    assert_eq!(read_mpeg(&[]).unwrap_err().kind(), ErrorKind::InvalidData);
    assert_eq!(read_mpeg(&[0xff, 0xfb]).unwrap_err().kind(), ErrorKind::UnexpectedEof);
    // A lone frame at the very end: its successor lies beyond the file.
    assert_eq!(read_mpeg(&cbr_stream(1)).unwrap_err().kind(), ErrorKind::UnexpectedEof);
}

fn id3v2_tag() -> Vec<u8> {
    let mut frame = b"TIT2".to_vec();
    frame.extend_from_slice(&[0, 0, 0, 6, 0, 0]);
    frame.extend_from_slice(b"\0Title");
    let mut v = b"ID3\x03\0\0\0\0\0".to_vec();
    v.push(frame.len() as u8 + 4);
    v.extend_from_slice(&frame);
    v.extend_from_slice(&[0; 4]);
    v
}

fn id3v1_tag() -> Vec<u8> {
    let mut b = vec![0u8; 128];
    b[..3].copy_from_slice(b"TAG");
    b[3..8].copy_from_slice(b"Older");
    b[33..39].copy_from_slice(b"Artist");
    b[93..97].copy_from_slice(b"2001");
    b[127] = 255;
    b
}

#[test]
fn tags_around_the_stream() {
    let mut data = id3v2_tag();
    let tag_len = data.len();
    assert_eq!(Tag::read(&mut Cursor::new(&data), None).unwrap().1 as usize, tag_len);
    data.extend_from_slice(&cbr_stream(4));
    data.extend_from_slice(&id3v1_tag());
    let m = read_mpeg(&data).unwrap();
    assert_eq!(m.id3v2().unwrap().title(), Some("Title"));
    assert_eq!(m.id3v1().unwrap().title, "Older");
    // The stream lies between the two tags.
    assert_eq!(m.duration(), (4 * 417 * 8 + 127_999) / 128_000);
    let tags = m.tags();
    assert_eq!(tags.title().as_deref(), Some("Title"));
    // The ID3v1 tag answers where the ID3v2 tag lacks the field.
    assert_eq!(tags.artist().as_deref(), Some("Artist"));
    assert_eq!(tags.date(), tagen::timestamp::Timestamp::new_y(2001));
    assert_eq!(tags.album().as_deref(), Some(""));
}

#[test]
fn a_tag_with_an_unsupported_feature_ends_the_search() {
    let mut data = b"ID3\x03\0\x80\0\0\0\0".to_vec();
    data.extend_from_slice(&cbr_stream(3));
    assert_eq!(read_mpeg(&data).unwrap_err().kind(), ErrorKind::Unsupported);
}

#[test]
fn a_malformed_tag_is_passed_over() {
    // A bad version: the tag is no tag, and the search goes on byte by byte.
    let mut data = b"ID3\x07\0\0\0\0\0\0".to_vec();
    data.extend_from_slice(&cbr_stream(3));
    let m = read_mpeg(&data).unwrap();
    assert!(m.id3v2().is_none());
    assert_eq!(m.duration(), (3 * 417 * 8 + 127_999) / 128_000);
}

#[test]
fn no_tag_is_looked_for_once_the_magic_was_missing() {
    let mut data = vec![0u8; 2];
    data.extend_from_slice(&id3v2_tag());
    data.extend_from_slice(&cbr_stream(3));
    let m = read_mpeg(&data).unwrap();
    assert!(m.id3v2().is_none());
}

fn vbr_stream(side_info: &[u8], frames: usize) -> Vec<u8> {
    let mut v = cbr_stream(frames);
    v[36..36 + side_info.len()].copy_from_slice(side_info);
    v
}

#[test]
fn side_information_gives_the_timing() {
    let mut side = b"Xing".to_vec();
    side.extend_from_slice(&xing(0x3, &[1000, 417 * 1001], false, &[]));
    let m = read_mpeg(&vbr_stream(&side, 3)).unwrap();
    assert_eq!(m.vbr().unwrap().stream_len_frames(), Some(1000));
    // 1000 frames of 1152 samples at 44100 Hz: 26122.4... ms, rounded up.
    assert_eq!(m.duration(), 26_123);
    // 417000 bytes of audio, 8 bits each, over 1152000 samples at 44100 Hz:
    // 127706.7..., rounded up.
    assert_eq!(m.bits_per_sec(), 127_707);

    let mut with_lame = side.clone();
    with_lame.extend_from_slice(b"LAME3.99r");
    with_lame.extend_from_slice(&lame_record());
    let m = read_mpeg(&vbr_stream(&with_lame, 3)).unwrap();
    assert_eq!(m.vbr().unwrap().lame().unwrap().encoder_delay_start, 576);
    // 1152000 - 576 - 1500 samples.
    assert_eq!(m.duration(), (1_149_924u64 * 1000 + 44_099) / 44_100);
    assert_eq!(m.duration(), 26_076);
    assert_eq!(m.bits_per_sec(), 127_707);

    // Without the length in bytes the first frame gives the bitrate.
    let mut side = b"Info".to_vec();
    side.extend_from_slice(&xing(0x1, &[1000], false, &[]));
    let m = read_mpeg(&vbr_stream(&side, 3)).unwrap();
    assert!(m.vbr().is_some());
    assert_eq!(m.bits_per_sec(), 128_000);
}

#[test]
fn timing_formulas() {
    let h = header(Version::V1, Layer::L3, 128, 44100, false);
    // A million bytes of 8 bits over 128000 bits per second: 62.5, rounded up.
    assert_eq!(Mpeg::compute_duration_and_bitrate(&h, 100, 1_000_100, None, None), (63, 128_000));
    assert_eq!(Mpeg::compute_duration_and_bitrate(&h, 100, 50, None, None), (0, 128_000));
    let vbri = Vbr::Vbri(Vbri { version: 1, quality: 0, stream_len_bytes: 0, stream_len_frames: 0 });
    assert_eq!(Mpeg::compute_duration_and_bitrate(&h, 0, 10, Some(&vbri), None), (0, 0));
    let vbri = Vbr::Vbri(Vbri { version: 1, quality: 0, stream_len_bytes: 500, stream_len_frames: 0 });
    assert_eq!(Mpeg::compute_duration_and_bitrate(&h, 0, 10, Some(&vbri), None), (0, u32::MAX));
    let vbri = Vbr::Vbri(Vbri { version: 1, quality: 0, stream_len_bytes: 417, stream_len_frames: 1 });
    assert_eq!(Mpeg::compute_duration_and_bitrate(&h, 0, 10, Some(&vbri), None), (27, 0));
    let vbri = Vbr::Vbri(Vbri {
        version: 1,
        quality: 0,
        stream_len_bytes: u32::MAX,
        stream_len_frames: 1,
    });
    assert_eq!(Mpeg::compute_duration_and_bitrate(&h, 0, 10, Some(&vbri), None), (27, u32::MAX));
}

#[test]
fn names() {
    assert_eq!(Version::V2_5.name(), "2.5");
    assert_eq!(Layer::L3.name(), "III");
    assert_eq!(ChannelMode::JointStereo.name(), "Joint Stereo");
    assert_eq!(Emphasis::CcitJ17.name(), "CCIT J.17");
}
