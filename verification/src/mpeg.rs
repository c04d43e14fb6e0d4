//! MPEG audio: frame headers, the search for the first frame, and timing.

pub mod vbr;

use vstd::prelude::*;

use crate::error::{Error, ErrorKind};
use crate::id3::v1::{Id3v1, Id3v1View};
use crate::id3::v2::{spec_read_tag, Tag, TagView};
use crate::mpeg::vbr::{spec_offset, spec_read_vbr, Lame, Vbr, VbrView};
use crate::tags::TagsRef;
use crate::util::bits::{be_u32, bit_u32, bits_u32, get_bit_u32, get_bits_u32, spec_be_u32};
use crate::util::limited::{Cursor, Limited};

verus! {

/// The version of MPEG audio.
#[derive(Clone, Copy, Debug, PartialEq, Eq, Structural, PartialOrd, Ord)]
pub enum Version {
    V1,
    V2,
    V2_5,
}

impl Version {
    pub open spec fn spec_name(&self) -> Seq<char> {
        match self {
            Version::V1 => "1"@,
            Version::V2 => "2"@,
            Version::V2_5 => "2.5"@,
        }
    }

    /// The name of the version.
    pub fn name(&self) -> (r: &'static str)
        ensures
            r@ == self.spec_name(),
    {
        match self {
            Version::V1 => "1",
            Version::V2 => "2",
            Version::V2_5 => "2.5",
        }
    }
}

/// The layer of MPEG audio.
#[derive(Clone, Copy, Debug, PartialEq, Eq, Structural, PartialOrd, Ord)]
pub enum Layer {
    L1,
    L2,
    L3,
}

impl Layer {
    pub open spec fn spec_name(&self) -> Seq<char> {
        match self {
            Layer::L1 => "I"@,
            Layer::L2 => "II"@,
            Layer::L3 => "III"@,
        }
    }

    /// The name of the layer.
    pub fn name(&self) -> (r: &'static str)
        ensures
            r@ == self.spec_name(),
    {
        match self {
            Layer::L1 => "I",
            Layer::L2 => "II",
            Layer::L3 => "III",
        }
    }
}

#[derive(Clone, Copy, Debug, PartialEq, Eq, Structural, PartialOrd, Ord)]
pub enum ChannelMode {
    Stereo,
    JointStereo,
    DualChannel,
    Mono,
}

impl ChannelMode {
    pub open spec fn spec_count(&self) -> u32 {
        if *self == ChannelMode::Mono {
            1
        } else {
            2
        }
    }

    /// The number of channels.
    #[verifier::when_used_as_spec(spec_count)]
    pub fn count(&self) -> (r: u32)
        ensures
            r == self.spec_count(),
    {
        match self {
            ChannelMode::Mono => 1,
            _ => 2,
        }
    }

    pub open spec fn spec_name(&self) -> Seq<char> {
        match self {
            ChannelMode::Stereo => "Stereo"@,
            ChannelMode::JointStereo => "Joint Stereo"@,
            ChannelMode::DualChannel => "Dual Channel"@,
            ChannelMode::Mono => "Mono"@,
        }
    }

    /// The name of the channel mode.
    pub fn name(&self) -> (r: &'static str)
        ensures
            r@ == self.spec_name(),
    {
        match self {
            ChannelMode::Stereo => "Stereo",
            ChannelMode::JointStereo => "Joint Stereo",
            ChannelMode::DualChannel => "Dual Channel",
            ChannelMode::Mono => "Mono",
        }
    }
}

#[derive(Clone, Copy, Debug, PartialEq, Eq, Structural, PartialOrd, Ord)]
pub enum Emphasis {
    NoEmphasis,
    E50_15,
    CcitJ17,
}

impl Emphasis {
    pub open spec fn spec_name(&self) -> Seq<char> {
        match self {
            Emphasis::NoEmphasis => "None"@,
            Emphasis::E50_15 => "50/15 ms"@,
            Emphasis::CcitJ17 => "CCIT J.17"@,
        }
    }

    /// The name of the emphasis.
    pub fn name(&self) -> (r: &'static str)
        ensures
            r@ == self.spec_name(),
    {
        match self {
            Emphasis::NoEmphasis => "None",
            Emphasis::E50_15 => "50/15 ms",
            Emphasis::CcitJ17 => "CCIT J.17",
        }
    }
}

/// The header of an MPEG audio frame.
#[derive(Clone, Copy, Debug, PartialEq, Eq, Structural)]
pub struct Header {
    pub version: Version,
    pub layer: Layer,
    pub crc_protected: bool,
    pub padded: bool,
    /// Bitrate of the first frame in kilobits ("kilo" is 1000).
    /// For CBR this is the bitrate of the whole stream.
    pub kbits_per_sec: u16,
    pub samples_per_sec: u16,
    pub channel_mode: ChannelMode,
    pub copyrighted: bool,
    pub original: bool,
    pub emphasis: Emphasis,
}

/// The version that the two version bits stand for; the code 1 is
/// reserved.
pub open spec fn spec_version(code: u32) -> Option<Version> {
    if code == 0 {
        Some(Version::V2_5)
    } else if code == 2 {
        Some(Version::V2)
    } else if code == 3 {
        Some(Version::V1)
    } else {
        None
    }
}

/// The layer that the two layer bits stand for; the code 0 is reserved.
pub open spec fn spec_layer(code: u32) -> Option<Layer> {
    if code == 1 {
        Some(Layer::L3)
    } else if code == 2 {
        Some(Layer::L2)
    } else if code == 3 {
        Some(Layer::L1)
    } else {
        None
    }
}

/// The bitrates, in kilobits per second, by bitrate index, for a version
/// and a layer.
pub open spec fn spec_bitrates(version: Version, layer: Layer) -> Seq<u16> {
    match version {
        Version::V1 => match layer {
            Layer::L1 => seq![
                0u16, 32, 64, 96, 128, 160, 192, 224, 256, 288, 320, 352, 384, 416, 448,
            ],
            Layer::L2 => seq![0u16, 32, 48, 56, 64, 80, 96, 112, 128, 160, 192, 224, 256, 320, 384],
            Layer::L3 => seq![0u16, 32, 40, 48, 56, 64, 80, 96, 112, 128, 160, 192, 224, 256, 320],
        },
        _ => match layer {
            Layer::L1 => seq![0u16, 32, 48, 56, 64, 80, 96, 112, 128, 144, 160, 176, 192, 224, 256],
            _ => seq![0u16, 8, 16, 24, 32, 40, 48, 56, 64, 80, 96, 112, 128, 144, 160],
        },
    }
}

/// The sample rates, in Hz, by sample rate index, for a version.
pub open spec fn spec_sample_rates(version: Version) -> Seq<u16> {
    match version {
        Version::V1 => seq![44100u16, 48000, 32000],
        Version::V2 => seq![22050u16, 24000, 16000],
        Version::V2_5 => seq![11025u16, 12000, 8000],
    }
}

pub open spec fn spec_channel_mode(code: u32) -> ChannelMode {
    if code == 0 {
        ChannelMode::Stereo
    } else if code == 1 {
        ChannelMode::JointStereo
    } else if code == 2 {
        ChannelMode::DualChannel
    } else {
        ChannelMode::Mono
    }
}

/// The emphasis that the two emphasis bits stand for; the code 2 is
/// reserved.
pub open spec fn spec_emphasis(code: u32) -> Option<Emphasis> {
    if code == 0 {
        Some(Emphasis::NoEmphasis)
    } else if code == 1 {
        Some(Emphasis::E50_15)
    } else if code == 3 {
        Some(Emphasis::CcitJ17)
    } else {
        None
    }
}

/// The header that the 32 bits of a frame header hold.
///
/// The top eleven bits are the frame sync and must all be set. Below them
/// stand the version (bits 19 and 20), the layer (17 and 18), the
/// protection bit (16, clear where a CRC follows), the bitrate index (12
/// to 15), the sample rate index (10 and 11), the padding bit (9), the
/// channel mode (6 and 7), the copyright bit (3), the original bit (2) and
/// the emphasis (0 and 1). Reserved codes make the header invalid, and so
/// do the bitrate indices 0 (free format) and 15.
pub open spec fn spec_decode_header(h: u32) -> Result<Header, ErrorKind> {
    if bits_u32(h, 21, 32) != 0x7ff {
        Err(ErrorKind::BadMagic)
    } else {
        let bitrate = bits_u32(h, 12, 16);
        let sample_rate = bits_u32(h, 10, 12);
        match (
            spec_version(bits_u32(h, 19, 21)),
            spec_layer(bits_u32(h, 17, 19)),
            spec_emphasis(bits_u32(h, 0, 2)),
        ) {
            (Some(version), Some(layer), Some(emphasis)) => if bitrate == 0 || bitrate >= 15
                || sample_rate >= 3 {
                Err(ErrorKind::InvalidData)
            } else {
                Ok(
                    Header {
                        version,
                        layer,
                        crc_protected: !bit_u32(h, 16),
                        padded: bit_u32(h, 9),
                        kbits_per_sec: spec_bitrates(version, layer)[bitrate as int],
                        samples_per_sec: spec_sample_rates(version)[sample_rate as int],
                        channel_mode: spec_channel_mode(bits_u32(h, 6, 8)),
                        copyrighted: bit_u32(h, 3),
                        original: bit_u32(h, 2),
                        emphasis,
                    },
                )
            },
            _ => Err(ErrorKind::InvalidData),
        }
    }
}

/// The header of the frame that starts at `pos` in `data`.
pub open spec fn spec_header_at(data: Seq<u8>, pos: int) -> Result<Header, ErrorKind> {
    if pos < 0 || pos + 4 > data.len() {
        Err(ErrorKind::UnexpectedEof)
    } else {
        spec_decode_header(spec_be_u32(data.skip(pos)))
    }
}

fn bitrates(version: Version, layer: Layer) -> (r: [u16; 15])
    ensures
        r@ == spec_bitrates(version, layer),
{
    let r: [u16; 15] = match version {
        Version::V1 => match layer {
            Layer::L1 => [0, 32, 64, 96, 128, 160, 192, 224, 256, 288, 320, 352, 384, 416, 448],
            Layer::L2 => [0, 32, 48, 56, 64, 80, 96, 112, 128, 160, 192, 224, 256, 320, 384],
            Layer::L3 => [0, 32, 40, 48, 56, 64, 80, 96, 112, 128, 160, 192, 224, 256, 320],
        },
        _ => match layer {
            Layer::L1 => [0, 32, 48, 56, 64, 80, 96, 112, 128, 144, 160, 176, 192, 224, 256],
            _ => [0, 8, 16, 24, 32, 40, 48, 56, 64, 80, 96, 112, 128, 144, 160],
        },
    };
    assert(r@ =~= spec_bitrates(version, layer));
    r
}

fn sample_rates(version: Version) -> (r: [u16; 3])
    ensures
        r@ == spec_sample_rates(version),
{
    let r: [u16; 3] = match version {
        Version::V1 => [44100, 48000, 32000],
        Version::V2 => [22050, 24000, 16000],
        Version::V2_5 => [11025, 12000, 8000],
    };
    assert(r@ =~= spec_sample_rates(version));
    r
}

impl Header {
    /// A header holds a bitrate and a sample rate of the tables.
    pub open spec fn wf(&self) -> bool {
        0 < self.kbits_per_sec <= 448 && 8000 <= self.samples_per_sec <= 48000
    }

    /// The number of samples in a frame.
    pub open spec fn spec_samples_per_frame(&self) -> u32 {
        match self.layer {
            Layer::L1 => 384,
            Layer::L2 => 1152,
            Layer::L3 => if self.version == Version::V1 {
                1152
            } else {
                576
            },
        }
    }

    /// The factor of the frame length formula: the samples of a frame
    /// divided by eight, and for layer I by the four bytes of a slot more.
    pub open spec fn spec_frame_len_factor(&self) -> u32 {
        match self.layer {
            Layer::L1 => 12,
            Layer::L2 => 144,
            Layer::L3 => if self.version == Version::V1 {
                144
            } else {
                72
            },
        }
    }

    /// The length of a slot in bytes.
    pub open spec fn spec_slot_len(&self) -> u32 {
        if self.layer == Layer::L1 {
            4
        } else {
            1
        }
    }

    /// The length of the frame in bytes: `(factor * kbps * 1000 /
    /// sample rate + padding) * slot length`, the division truncated.
    pub open spec fn spec_frame_len_bytes(&self) -> int {
        (self.spec_frame_len_factor() * self.kbits_per_sec * 1000 / self.samples_per_sec as int
            + if self.padded {
            1int
        } else {
            0int
        }) * self.spec_slot_len()
    }

    /// Decodes a frame header from its 32 bits.
    pub fn decode(hdr_bytes: u32) -> (r: Result<Header, Error>)
        ensures
            spec_decode_header(hdr_bytes) == (match r {
                Ok(h) => Ok::<Header, ErrorKind>(h),
                Err(e) => Err::<Header, ErrorKind>(e.kind),
            }),
            r matches Ok(h) ==> h.wf(),
    {
        // Frame sync (all bits set).
        if get_bits_u32(hdr_bytes, 21, 32) != 0b111_1111_1111 {
            return Err(Error::new(ErrorKind::BadMagic, "bad frame sync"));
        }
        let version_code: u32 = get_bits_u32(hdr_bytes, 19, 21);
        let version: Version = if version_code == 0b00 {
            Version::V2_5
        } else if version_code == 0b10 {
            Version::V2
        } else if version_code == 0b11 {
            Version::V1
        } else {
            return Err(Error::new(ErrorKind::InvalidData, "bad version"));
        };
        let layer_code: u32 = get_bits_u32(hdr_bytes, 17, 19);
        let layer: Layer = if layer_code == 0b01 {
            Layer::L3
        } else if layer_code == 0b10 {
            Layer::L2
        } else if layer_code == 0b11 {
            Layer::L1
        } else {
            return Err(Error::new(ErrorKind::InvalidData, "bad layer"));
        };
        let crc_protected: bool = !get_bit_u32(hdr_bytes, 16);

        let bitrate: u32 = get_bits_u32(hdr_bytes, 12, 16);
        if bitrate == 0 || bitrate >= 0b1111 {
            return Err(Error::new(ErrorKind::InvalidData, "bad bitrate"));
        }
        let kbits_per_sec: u16 = bitrates(version, layer)[bitrate as usize];

        let sample_rate: u32 = get_bits_u32(hdr_bytes, 10, 12);
        if sample_rate >= 0b11 {
            return Err(Error::new(ErrorKind::InvalidData, "bad sample rate"));
        }
        let samples_per_sec: u16 = sample_rates(version)[sample_rate as usize];

        let padded: bool = get_bit_u32(hdr_bytes, 9);

        let _private: bool = get_bit_u32(hdr_bytes, 8);
        let channel_code: u32 = get_bits_u32(hdr_bytes, 6, 8);
        let channel_mode: ChannelMode = if channel_code == 0b00 {
            ChannelMode::Stereo
        } else if channel_code == 0b01 {
            ChannelMode::JointStereo
        } else if channel_code == 0b10 {
            ChannelMode::DualChannel
        } else {
            ChannelMode::Mono
        };
        let copyrighted: bool = get_bit_u32(hdr_bytes, 3);
        let original: bool = get_bit_u32(hdr_bytes, 2);
        let emphasis_code: u32 = get_bits_u32(hdr_bytes, 0, 2);
        let emphasis: Emphasis = if emphasis_code == 0b00 {
            Emphasis::NoEmphasis
        } else if emphasis_code == 0b01 {
            Emphasis::E50_15
        } else if emphasis_code == 0b11 {
            Emphasis::CcitJ17
        } else {
            return Err(Error::new(ErrorKind::InvalidData, "bad emphasis"));
        };

        Ok(
            Header {
                version,
                layer,
                crc_protected,
                padded,
                kbits_per_sec,
                samples_per_sec,
                channel_mode,
                copyrighted,
                original,
                emphasis,
            },
        )
    }

    /// Reads the header of the frame at the position of `rd`.
    pub fn read(rd: &mut Cursor<'_>) -> (r: Result<Header, Error>)
        ensures
            final(rd).data() == old(rd).data(),
            spec_header_at(old(rd).data(), old(rd).spec_position() as int) == (match r {
                Ok(h) => Ok::<Header, ErrorKind>(h),
                Err(e) => Err::<Header, ErrorKind>(e.kind),
            }),
            r matches Ok(h) ==> h.wf(),
    {
        let bytes: &[u8] = match rd.take_exact(4) {
            Ok(b) => b,
            Err(e) => {
                return Err(e);
            },
        };
        let ghost rest = old(rd).data().skip(old(rd).spec_position() as int);
        assert(bytes@[0] == rest[0] && bytes@[1] == rest[1] && bytes@[2] == rest[2] && bytes@[3]
            == rest[3]);
        Self::decode(be_u32(bytes))
    }

    #[verifier::when_used_as_spec(spec_samples_per_frame)]
    pub fn samples_per_frame(&self) -> (r: u32)
        ensures
            r == self.spec_samples_per_frame(),
    {
        match self.layer {
            Layer::L1 => 384,
            Layer::L2 => 1152,
            Layer::L3 => match self.version {
                Version::V1 => 1152,
                _ => 576,
            },
        }
    }

    /// The length of the frame in bytes.
    pub fn frame_len_bytes(&self) -> (r: u32)
        requires
            self.wf(),
        ensures
            r == self.spec_frame_len_bytes(),
            r <= 32260,
    {
        // Samples per frame / 8
        let factor: u32 = match self.layer {
            Layer::L1 => 12,
            Layer::L2 => 144,
            Layer::L3 => match self.version {
                Version::V1 => 144,
                _ => 72,
            },
        };
        // Slot length per layer.
        let slot_len: u32 = match self.layer {
            Layer::L1 => 4,
            _ => 1,
        };
        let padding: u32 = if self.padded {
            1
        } else {
            0
        };
        let bits: u32 = factor * self.kbits_per_sec as u32 * 1000;
        let rate: u32 = self.samples_per_sec as u32;
        assert(bits / rate <= 8064) by (nonlinear_arith)
            requires
                bits <= 64512000,
                8000 <= rate,
        ;
        (bits / rate + padding) * slot_len
    }
}

/// The number of bytes from the start of a file in which the first frame
/// is looked for.
pub const SCAN_LIMIT: u64 = 0x10_0000;

/// The bytes of `data` from `pos` on: none where `pos` lies behind them.
pub open spec fn tail(data: Seq<u8>, pos: int) -> Seq<u8> {
    if 0 <= pos <= data.len() {
        data.skip(pos)
    } else {
        Seq::empty()
    }
}

/// Where the search for the first frame ends in `data`.
pub open spec fn scan_limit(data: Seq<u8>) -> int {
    if data.len() < SCAN_LIMIT {
        data.len() as int
    } else {
        SCAN_LIMIT as int
    }
}

/// Whether a frame starts at `pos`: a valid header stands there, and the
/// header of the next frame, which the length of the first leads to, is
/// valid too. A failure is that of the first header, or one of the second
/// that does not merely say that no frame is there.
pub open spec fn spec_frame_at(data: Seq<u8>, pos: int) -> Result<Option<Header>, ErrorKind> {
    match spec_header_at(data, pos) {
        Ok(h) => match spec_header_at(data, pos + h.spec_frame_len_bytes()) {
            Ok(_) => Ok(Some(h)),
            Err(_) => Ok(None),
        },
        Err(e) => if e == ErrorKind::BadMagic || e == ErrorKind::InvalidData {
            Ok(None)
        } else {
            Err(e)
        },
    }
}

/// The first frame of `data` at or behind `pos`: its header, its place,
/// and the ID3v2 tag that stood before it, if any.
///
/// At each place, as long as `probe` holds, an ID3v2 tag is tried first.
/// A tag that is found is skipped, and no other is looked for. A tag that
/// is cut short or has no magic ends the probing; one that is malformed in
/// another way does not; one that uses what is not decoded ends the
/// search. Then a frame is tried, and the search moves on by one byte
/// where there is none. It fails at the scan limit.
pub open spec fn spec_find_frame(data: Seq<u8>, pos: int, probe: bool, tag: Option<TagView>)
    -> Result<(Header, int, Option<TagView>), ErrorKind>
    decreases minus(scan_limit(data), pos), if probe { 1int } else { 0int },
{
    if pos < 0 || pos >= scan_limit(data) {
        Err(ErrorKind::InvalidData)
    } else if probe {
        match spec_read_tag(data.skip(pos)) {
            Ok(t) => spec_find_frame(data, pos + t.1, false, Some(t.0)),
            Err(e) => if e == ErrorKind::Unsupported {
                Err(e)
            } else if e == ErrorKind::UnexpectedEof || e == ErrorKind::BadMagic {
                spec_find_frame(data, pos, false, tag)
            } else {
                match spec_frame_at(data, pos) {
                    Ok(Some(h)) => Ok((h, pos, tag)),
                    Ok(None) => spec_find_frame(data, pos + 1, true, tag),
                    Err(e) => Err(e),
                }
            },
        }
    } else {
        match spec_frame_at(data, pos) {
            Ok(Some(h)) => Ok((h, pos, tag)),
            Ok(None) => spec_find_frame(data, pos + 1, false, tag),
            Err(e) => Err(e),
        }
    }
}

/// `a / b` rounded up.
pub open spec fn ceil_div(a: int, b: int) -> int {
    (a + b - 1) / b
}

/// `a - b`, and 0 where that is negative.
pub open spec fn minus(a: int, b: int) -> int {
    if a >= b {
        a - b
    } else {
        0
    }
}

/// The duration of a stream in milliseconds and its bitrate in bits per
/// second.
///
/// Where the side information gives the length of the stream both in
/// bytes and in frames, the samples are those of all frames, less the
/// delay and the padding of a LAME encoder, and the duration is their
/// number over the sample rate, rounded up to the millisecond. The bytes
/// of the audio are those of the stream without its first frame, and the
/// bitrate is their bits per second of all samples, rounded up. A stream
/// without samples has the bitrate 0 where it has no bytes, and the
/// highest bitrate else.
///
/// Otherwise the bitrate is that of the first frame, the stream is what
/// follows the start of the first frame, less the ID3v1 tag, and the
/// duration is its bits over the bitrate, rounded up.
pub open spec fn spec_duration_and_bitrate(
    header: Header,
    header_pos: int,
    file_len: int,
    vbr: Option<VbrView>,
    id3v1_len: int,
) -> (int, int) {
    if vbr is Some && vbr->0.stream_len_bytes() is Some && vbr->0.stream_len_frames() is Some {
        let stream_len_bytes = vbr->0.stream_len_bytes()->0 as int;
        let stream_len_frames = vbr->0.stream_len_frames()->0 as int;
        let len_samples = header.spec_samples_per_frame() * stream_len_frames;
        let audio_len_samples = match vbr->0.lame() {
            Some(lame) => minus(
                minus(len_samples, lame.encoder_delay_start as int),
                lame.encoder_padding_end as int,
            ),
            None => len_samples,
        };
        let audio_len_bytes = minus(stream_len_bytes, header.spec_frame_len_bytes());
        let bits_per_sec = if len_samples == 0 {
            if audio_len_bytes == 0 {
                0
            } else {
                u32::MAX as int
            }
        } else {
            let exact = ceil_div(audio_len_bytes * 8 * header.samples_per_sec, len_samples);
            if exact > u32::MAX {
                u32::MAX as int
            } else {
                exact
            }
        };
        (ceil_div(audio_len_samples * 1000, header.samples_per_sec as int), bits_per_sec)
    } else {
        let bits_per_sec = header.kbits_per_sec * 1000;
        let stream_len_bytes = minus(minus(file_len, header_pos), id3v1_len);
        (ceil_div(stream_len_bytes * 8, bits_per_sec), bits_per_sec)
    }
}

/// What is known of an MPEG audio file.
#[derive(Clone, Debug, PartialEq, Eq)]
pub struct Mpeg {
    header: Header,
    vbr: Option<Vbr>,
    id3v1: Option<Id3v1>,
    id3v2: Option<Tag>,
    duration_millis: u64,
    bits_per_sec: u32,
}

pub struct MpegView {
    pub header: Header,
    pub vbr: Option<VbrView>,
    pub id3v1: Option<Id3v1View>,
    pub id3v2: Option<TagView>,
    pub duration_millis: u64,
    pub bits_per_sec: u32,
}

impl View for Mpeg {
    type V = MpegView;

    closed spec fn view(&self) -> MpegView {
        MpegView {
            header: self.header,
            vbr: match self.vbr {
                Some(v) => Some(v@),
                None => None,
            },
            id3v1: match self.id3v1 {
                Some(v) => Some(v@),
                None => None,
            },
            id3v2: match self.id3v2 {
                Some(v) => Some(v@),
                None => None,
            },
            duration_millis: self.duration_millis,
            bits_per_sec: self.bits_per_sec,
        }
    }
}

pub open spec fn ok_or_none<T>(r: Result<T, ErrorKind>) -> Option<T> {
    match r {
        Ok(v) => Some(v),
        Err(_) => None,
    }
}

/// What is known of the MPEG audio file `data`: its first frame as
/// `spec_find_frame` finds it, the ID3v1 tag at its end, the side
/// information of a layer III stream at its place in the first frame,
/// and the duration and bitrate that follow from them.
pub open spec fn spec_read_mpeg(data: Seq<u8>) -> Result<MpegView, ErrorKind> {
    match spec_find_frame(data, 0, true, None) {
        Err(e) => Err(e),
        Ok(found) => {
            let header = found.0;
            let id3v1 = ok_or_none(crate::id3::v1::spec_read(data));
            let vbr = if header.layer == Layer::L3 {
                ok_or_none(spec_read_vbr(tail(data, found.1 + spec_offset(header))))
            } else {
                None
            };
            let timing = spec_duration_and_bitrate(
                header,
                found.1,
                data.len() as int,
                vbr,
                match id3v1 {
                    Some(t) => if t.ext is Some {
                        355int
                    } else {
                        128int
                    },
                    None => 0int,
                },
            );
            Ok(
                MpegView {
                    header,
                    vbr,
                    id3v1,
                    id3v2: found.2,
                    duration_millis: timing.0 as u64,
                    bits_per_sec: timing.1 as u32,
                },
            )
        },
    }
}

impl Mpeg {
    pub fn header(&self) -> (r: &Header)
        ensures
            *r == self@.header,
    {
        &self.header
    }

    pub fn vbr(&self) -> (r: Option<&Vbr>)
        ensures
            match r {
                Some(v) => self@.vbr == Some(v@),
                None => self@.vbr is None,
            },
    {
        self.vbr.as_ref()
    }

    /// The ID3v1 tag at the end of the file.
    pub fn id3v1(&self) -> (r: Option<&Id3v1>)
        ensures
            match r {
                Some(v) => self@.id3v1 == Some(v@),
                None => self@.id3v1 is None,
            },
    {
        self.id3v1.as_ref()
    }

    /// The ID3v2 tag before the first frame.
    pub fn id3v2(&self) -> (r: Option<&Tag>)
        ensures
            match r {
                Some(v) => self@.id3v2 == Some(v@),
                None => self@.id3v2 is None,
            },
    {
        self.id3v2.as_ref()
    }

    /// A view of the tags of the file.
    pub fn tags(&self) -> (r: TagsRef<'_>)
        ensures
            r@.id3v1 == self@.id3v1,
            r@.id3v2 == self@.id3v2,
            r@.vcomment is None,
    {
        TagsRef::new(self.id3v1.as_ref(), self.id3v2.as_ref(), None)
    }

    /// The duration of the stream in milliseconds.
    pub fn duration(&self) -> (r: u64)
        ensures
            r == self@.duration_millis,
    {
        self.duration_millis
    }

    pub fn bits_per_sec(&self) -> (r: u32)
        ensures
            r == self@.bits_per_sec,
    {
        self.bits_per_sec
    }

    /// Tells whether a frame starts at `pos`.
    fn frame_at(rd: &mut Cursor<'_>, pos: u64) -> (r: Result<Option<Header>, Error>)
        requires
            pos < SCAN_LIMIT,
        ensures
            final(rd).data() == old(rd).data(),
            spec_frame_at(old(rd).data(), pos as int) == (match r {
                Ok(h) => Ok::<Option<Header>, ErrorKind>(h),
                Err(e) => Err::<Option<Header>, ErrorKind>(e.kind),
            }),
            r matches Ok(Some(h)) ==> h.wf(),
    {
        rd.set_position(pos);
        match Header::read(rd) {
            Ok(h) => {
                // Verify the next frame is valid.
                rd.set_position(pos + h.frame_len_bytes() as u64);
                match Header::read(rd) {
                    Ok(_) => Ok(Some(h)),
                    Err(_) => Ok(None),
                }
            },
            Err(e) => match e.kind() {
                ErrorKind::BadMagic | ErrorKind::InvalidData => Ok(None),
                _ => Err(e),
            },
        }
    }

    /// Finds the first frame, and the ID3v2 tag before it.
    #[verifier::rlimit(30)]
    fn find_frame(rd: &mut Cursor<'_>) -> (r: Result<(Header, u64, Option<Tag>), Error>)
        ensures
            final(rd).data() == old(rd).data(),
            match r {
                Ok((h, pos, tag)) => spec_find_frame(old(rd).data(), 0, true, None) == Ok::<
                    (Header, int, Option<TagView>),
                    ErrorKind,
                >(
                    (
                        h,
                        pos as int,
                        match tag {
                            Some(t) => Some(t@),
                            None => None,
                        },
                    ),
                ) && h.wf() && pos < SCAN_LIMIT,
                Err(e) => spec_find_frame(old(rd).data(), 0, true, None) == Err::<
                    (Header, int, Option<TagView>),
                    ErrorKind,
                >(e.kind),
            },
    {
        let file_len: usize = rd.get_ref().len();
        let pos_limit: u64 = if (file_len as u64) < SCAN_LIMIT {
            file_len as u64
        } else {
            SCAN_LIMIT
        };
        let ghost data = rd.data();
        let mut id3v2_done: bool = false;
        let mut id3v2: Option<Tag> = None;
        let mut pos: u64 = 0;
        loop
            invariant
                rd.data() == data,
                data == old(rd).data(),
                file_len == data.len(),
                pos_limit == scan_limit(data),
                id3v2_done || id3v2 is None,
                spec_find_frame(data, 0, true, None) == spec_find_frame(
                    data,
                    pos as int,
                    !id3v2_done,
                    match id3v2 {
                        Some(t) => Some(t@),
                        None => None,
                    },
                ),
            decreases minus(pos_limit as int, pos as int), if id3v2_done { 0int } else { 1int },
        {
            if pos >= pos_limit {
                return Err(Error::new(ErrorKind::InvalidData, "couldn't find first MPEG frame"));
            }
            if !id3v2_done {
                rd.set_position(pos);
                assert(crate::id3::v2::limited_window(*rd, Some((file_len as u64 - pos) as u64))
                    =~= data.skip(pos as int));
                match Tag::read(rd, Some(file_len as u64 - pos)) {
                    Ok((tag, tag_len_bytes)) => {
                        pos = pos + tag_len_bytes as u64;
                        id3v2 = Some(tag);
                        id3v2_done = true;
                        continue ;
                    },
                    Err(e) => match e.kind() {
                        ErrorKind::UnexpectedEof | ErrorKind::BadMagic => {
                            id3v2_done = true;
                        },
                        ErrorKind::Unsupported => {
                            return Err(e);
                        },
                        _ => {},
                    },
                }
            }
            match Self::frame_at(rd, pos) {
                Ok(Some(h)) => {
                    return Ok((h, pos, id3v2));
                },
                Ok(None) => {},
                Err(e) => {
                    return Err(e);
                },
            }
            pos = pos + 1;
        }
    }

    /// Reads what is known of an MPEG audio file from its bytes.
    pub fn read(rd: &mut Cursor<'_>) -> (r: Result<Mpeg, Error>)
        ensures
            final(rd).data() == old(rd).data(),
            spec_read_mpeg(old(rd).data()) == (match r {
                Ok(m) => Ok::<MpegView, ErrorKind>(m@),
                Err(e) => Err::<MpegView, ErrorKind>(e.kind),
            }),
    {
        let ghost data = rd.data();
        let file_len: usize = rd.get_ref().len();
        let (header, header_pos, id3v2) = match Self::find_frame(rd) {
            Ok(f) => f,
            Err(e) => {
                return Err(e);
            },
        };
        let id3v1: Option<Id3v1> = match Id3v1::read(rd) {
            Ok(t) => Some(t),
            Err(_) => None,
        };
        let vbr: Option<Vbr> = if header.layer == Layer::L3 {
            let pos: u64 = header_pos + Vbr::offset(&header);
            rd.set_position(pos);
            let source_len: usize = rd.remaining_len();
            let mut limited: Limited<Cursor<'_>> = Limited::new(*rd, u64::MAX);
            assert(limited.window() =~= tail(data, pos as int));
            match Vbr::read(&mut limited) {
                Ok(v) => Some(v),
                Err(_) => None,
            }
        } else {
            None
        };
        let (duration_millis, bits_per_sec) = Self::compute_duration_and_bitrate(
            &header,
            header_pos,
            file_len,
            vbr.as_ref(),
            id3v1.as_ref(),
        );
        Ok(Mpeg { header, vbr, id3v1, id3v2, duration_millis, bits_per_sec })
    }

    /// The duration of a stream in milliseconds and its bitrate in bits
    /// per second, from its first header, the place of that header, the
    /// length of the file, and the side information and the ID3v1 tag
    /// where they are there.
    pub fn compute_duration_and_bitrate(
        header: &Header,
        header_pos: u64,
        file_len: usize,
        vbr: Option<&Vbr>,
        id3v1: Option<&Id3v1>,
    ) -> (r: (u64, u32))
        requires
            header.wf(),
        ensures
            (r.0 as int, r.1 as int) == spec_duration_and_bitrate(
                *header,
                header_pos as int,
                file_len as int,
                match vbr {
                    Some(v) => Some(v@),
                    None => None,
                },
                match id3v1 {
                    Some(t) => if t@.ext is Some {
                        355int
                    } else {
                        128int
                    },
                    None => 0int,
                },
            ),
    {
        let rate: u64 = header.samples_per_sec as u64;
        if let Some(vbr) = vbr {
            if let Some(stream_len_bytes) = vbr.stream_len_bytes() {
                if let Some(stream_len_frames) = vbr.stream_len_frames() {
                    let samples_per_frame: u64 = header.samples_per_frame() as u64;
                    assert(samples_per_frame * stream_len_frames <= 1152 * 0xffff_ffff)
                        by (nonlinear_arith)
                        requires
                            samples_per_frame <= 1152,
                            stream_len_frames <= 0xffff_ffff,
                    ;
                    let len_samples: u64 = samples_per_frame * stream_len_frames as u64;

                    // Compute audio len without LAME delay and padding.
                    let audio_len_samples: u64 = match vbr.lame() {
                        Some(lame) => Self::minus(
                            Self::minus(len_samples, lame.encoder_delay_start as u64),
                            lame.encoder_padding_end as u64,
                        ),
                        None => len_samples,
                    };

                    // Exclude first frame from the audio bitstream length.
                    let audio_len_bytes: u64 = Self::minus(
                        stream_len_bytes as u64,
                        header.frame_len_bytes() as u64,
                    );

                    let duration_millis: u64 = (audio_len_samples * 1000 + rate - 1) / rate;
                    let bits_per_sec: u32 = if len_samples == 0 {
                        if audio_len_bytes == 0 {
                            0
                        } else {
                            u32::MAX
                        }
                    } else {
                        assert(audio_len_bytes * 8 * rate <= 0xffff_ffff * 8 * 48000)
                            by (nonlinear_arith)
                            requires
                                audio_len_bytes <= 0xffff_ffff,
                                rate <= 48000,
                        ;
                        let bits: u64 = audio_len_bytes * 8 * rate;
                        let exact: u64 = (bits + len_samples - 1) / len_samples;
                        if exact > u32::MAX as u64 {
                            u32::MAX
                        } else {
                            exact as u32
                        }
                    };
                    return (duration_millis, bits_per_sec);
                }
            }
        }
        // The bitrate of the first frame stands for that of the stream.
        let bits_per_sec: u32 = header.kbits_per_sec as u32 * 1000;
        let id3v1_len: u64 = match id3v1 {
            Some(t) => t.len() as u64,
            None => 0,
        };
        let stream_len_bytes: u64 = Self::minus(
            Self::minus(file_len as u64, header_pos),
            id3v1_len,
        );
        let bits: u128 = stream_len_bytes as u128 * 8;
        let duration: u128 = (bits + bits_per_sec as u128 - 1) / (bits_per_sec as u128);
        assert(duration <= u64::MAX) by (nonlinear_arith)
            requires
                duration == (bits + bits_per_sec - 1) / (bits_per_sec as int),
                bits <= 8 * 0xffff_ffff_ffff_ffff,
                1000 <= bits_per_sec,
        ;
        (duration as u64, bits_per_sec)
    }

    fn minus(a: u64, b: u64) -> (r: u64)
        ensures
            r == minus(a as int, b as int),
    {
        if a >= b {
            a - b
        } else {
            0
        }
    }
}

} // verus!
