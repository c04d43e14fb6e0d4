//! FLAC files: the stream info and the metadata blocks behind it.

use vstd::prelude::*;
use vstd::slice::slice_subrange;

use crate::error::{Error, ErrorKind};
use crate::id3::frame::body::PictureKind;
use crate::id3::frame::Encoding;
use crate::id3::string::{latin1_decode, utf8_decode_strict, utf8_decoded};
use crate::id3::v1::{Id3v1, Id3v1View};
use crate::id3::v2::{spec_read_tag, Tag, TagView};
use crate::tags::TagsRef;
use crate::util::read_vec_limited;
use crate::vcomment::{spec_read_vcomment, Vcomment, VcommentView};
use crate::util::bit_stream::{bits_value, lemma_bits_value_bound, BitReader};
use crate::util::bits::{
    be_u32, bit_u8, bits_u8, get_bit_u8, get_bits_u8, spec_be_u32, spec_be_u64,
};
use crate::mpeg::{minus, scan_limit, tail, SCAN_LIMIT};
use crate::util::limited::{Cursor, Limited};
use crate::util::text::latin1_chars;

verus! {

/// The header of a metadata block.
#[derive(Clone, Copy, Debug, PartialEq, Eq, Structural)]
pub struct BlockHeader {
    pub last: bool,
    pub kind: BlockKind,
    pub len: u32,
}

/// The kind of a metadata block, as the number that its header holds. The
/// constants name the kinds that are known.
#[derive(Clone, Copy, Debug, PartialEq, Eq, Structural)]
pub struct BlockKind(pub u8);

impl BlockKind {
    pub const STREAM_INFO: u8 = 0;

    pub const PADDING: u8 = 1;

    pub const APPLICATION: u8 = 2;

    pub const SEEKTABLE: u8 = 3;

    pub const VORBIS_COMMENT: u8 = 4;

    pub const CUE_SHEET: u8 = 5;

    pub const PICTURE: u8 = 6;
}

/// The header of a metadata block in its four bytes: the top bit of the
/// first says whether the block is the last, the seven bits below it are
/// the kind, of which 127 is invalid, and three bytes hold the length of
/// the block.
pub open spec fn spec_block_header(w: Seq<u8>) -> Result<BlockHeader, ErrorKind> {
    if w.len() < 4 {
        Err(ErrorKind::UnexpectedEof)
    } else if bits_u8(w[0], 0, 7) == 127 {
        Err(ErrorKind::InvalidData)
    } else {
        Ok(
            BlockHeader {
                last: bit_u8(w[0], 7),
                kind: BlockKind(bits_u8(w[0], 0, 7)),
                len: spec_be_u32(seq![0u8, w[1], w[2], w[3]]),
            },
        )
    }
}

impl BlockHeader {
    /// Reads the header of a metadata block.
    pub fn read(rd: &mut Limited<Cursor<'_>>) -> (r: Result<BlockHeader, Error>)
        ensures
            spec_block_header(old(rd).window()) == (match r {
                Ok(h) => Ok::<BlockHeader, ErrorKind>(h),
                Err(e) => Err::<BlockHeader, ErrorKind>(e.kind),
            }),
            r is Ok ==> final(rd).advanced(old(rd), 4)
                && final(rd).window() == old(rd).window().skip(4),
    {
        let buf: &[u8] = match rd.take_exact(4) {
            Ok(b) => b,
            Err(e) => {
                return Err(e);
            },
        };
        let last: bool = get_bit_u8(buf[0], 7);
        let kind: u8 = get_bits_u8(buf[0], 0, 7);
        if kind == 127 {
            return Err(Error::new(ErrorKind::InvalidData, "bad block kind"));
        }
        let len_bytes: [u8; 4] = [0, buf[1], buf[2], buf[3]];
        assert(len_bytes@ =~= seq![0u8, buf@[1], buf@[2], buf@[3]]);
        let len: u32 = be_u32(len_bytes.as_slice());
        Ok(BlockHeader { last, kind: BlockKind(kind), len })
    }
}

/// The parameters of a FLAC stream.
#[derive(Clone, Copy, Debug, PartialEq, Eq)]
pub struct StreamInfo {
    /// The minimum block size (in samples) used in the stream.
    pub min_block_len_samples: u16,
    /// The maximum block size (in samples) used in the stream.
    /// (Minimum blocksize == maximum blocksize) implies a fixed-blocksize stream.
    pub max_block_len_samples: u16,
    /// The minimum frame size (in bytes) used in the stream.
    pub min_frame_len_bytes: Option<u32>,
    /// The maximum frame size (in bytes) used in the stream.
    pub max_frame_len_bytes: Option<u32>,
    /// Sample rate in Hz. The maximum sample rate is limited by the structure of frame headers to
    /// 655350Hz.
    pub samples_per_sec: u32,
    /// Number of channels. FLAC supports from 1 to 8 channels
    pub channel_count: u8,
    /// Bits per sample. FLAC supports from 4 to 32 bits per sample.
    /// Currently the reference encoder and decoders only support up to 24 bits per sample.
    pub bits_per_sample: u8,
    /// Total samples in stream. 'Samples' means inter-channel sample, i.e. one second of 44.1Khz
    /// audio will have 44100 samples regardless of the number of channels.
    pub len_samples: Option<u64>,
    /// MD5 signature of the unencoded audio data.
    pub md5: [u8; 16],
}

pub struct StreamInfoView {
    pub min_block_len_samples: u16,
    pub max_block_len_samples: u16,
    pub min_frame_len_bytes: Option<u32>,
    pub max_frame_len_bytes: Option<u32>,
    pub samples_per_sec: u32,
    pub channel_count: u8,
    pub bits_per_sample: u8,
    pub len_samples: Option<u64>,
    pub md5: Seq<u8>,
}

impl View for StreamInfo {
    type V = StreamInfoView;

    open spec fn view(&self) -> StreamInfoView {
        StreamInfoView {
            min_block_len_samples: self.min_block_len_samples,
            max_block_len_samples: self.max_block_len_samples,
            min_frame_len_bytes: self.min_frame_len_bytes,
            max_frame_len_bytes: self.max_frame_len_bytes,
            samples_per_sec: self.samples_per_sec,
            channel_count: self.channel_count,
            bits_per_sample: self.bits_per_sample,
            len_samples: self.len_samples,
            md5: self.md5@,
        }
    }
}

/// A number that stands for "unknown" where it is zero.
pub open spec fn non_zero(v: nat) -> Option<nat> {
    if v == 0 {
        None
    } else {
        Some(v)
    }
}

/// The parameters that the 34 bytes of a stream info block hold, field
/// after field from the first bit on: the block sizes in 16 bits each, the
/// frame sizes in 24 bits each, the sample rate in 20 bits, which may not
/// be zero, the channels less one in 3 bits, the bits per sample less one
/// in 5 bits, the number of samples in 36 bits, and the MD5 signature.
pub open spec fn spec_decode_stream_info(buf: Seq<u8>) -> Result<StreamInfoView, ErrorKind> {
    if buf.len() < 34 {
        Err(ErrorKind::InvalidData)
    } else if bits_value(buf, 80, 20) == 0 {
        Err(ErrorKind::InvalidData)
    } else {
        Ok(
            StreamInfoView {
                min_block_len_samples: bits_value(buf, 0, 16) as u16,
                max_block_len_samples: bits_value(buf, 16, 16) as u16,
                min_frame_len_bytes: match non_zero(bits_value(buf, 32, 24)) {
                    Some(v) => Some(v as u32),
                    None => None,
                },
                max_frame_len_bytes: match non_zero(bits_value(buf, 56, 24)) {
                    Some(v) => Some(v as u32),
                    None => None,
                },
                samples_per_sec: bits_value(buf, 80, 20) as u32,
                channel_count: (bits_value(buf, 100, 3) + 1) as u8,
                bits_per_sample: (bits_value(buf, 103, 5) + 1) as u8,
                len_samples: match non_zero(bits_value(buf, 108, 36)) {
                    Some(v) => Some(v as u64),
                    None => None,
                },
                md5: buf.subrange(18, 34),
            },
        )
    }
}

/// The stream info block at the start of `w`: its header, which must
/// declare 34 bytes, and the block.
#[verifier::opaque]
pub open spec fn spec_read_stream_info(w: Seq<u8>) -> Result<StreamInfoView, ErrorKind> {
    match spec_block_header(w) {
        Err(e) => Err(e),
        Ok(h) => if h.len != 34 {
            Err(ErrorKind::InvalidData)
        } else if w.len() < 38 {
            Err(ErrorKind::UnexpectedEof)
        } else {
            spec_decode_stream_info(w.subrange(4, 38))
        },
    }
}

fn bits(brd: &mut BitReader<'_>, n: usize) -> (r: u64)
    requires
        0 < n <= 64,
        old(brd).spec_pos() + n <= 8 * old(brd).data().len(),
        old(brd).spec_pos() + n <= usize::MAX,
    ensures
        final(brd).data() == old(brd).data(),
        final(brd).spec_pos() == old(brd).spec_pos() + n,
        r == bits_value(old(brd).data(), old(brd).spec_pos() as int, n as nat),
        r < vstd::arithmetic::power2::pow2(n as nat),
{
    proof {
        lemma_bits_value_bound(brd.data(), brd.spec_pos() as int, n as nat);
    }
    match brd.read_u64(n) {
        Ok(v) => v,
        Err(_) => 0,
    }
}

impl StreamInfo {
    /// The length of a stream info block.
    pub const LEN: usize = 34;

    /// Reads a stream info block with its header.
    pub fn read_block(rd: &mut Limited<Cursor<'_>>) -> (r: Result<StreamInfo, Error>)
        ensures
            spec_read_stream_info(old(rd).window()) == (match r {
                Ok(s) => Ok::<StreamInfoView, ErrorKind>(s@),
                Err(e) => Err::<StreamInfoView, ErrorKind>(e.kind),
            }),
            r is Ok ==> final(rd).advanced(old(rd), 38)
                && final(rd).window() == old(rd).window().skip(38),
    {
        reveal(spec_read_stream_info);
        let ghost w = rd.window();
        let hdr: BlockHeader = match BlockHeader::read(rd) {
            Ok(h) => h,
            Err(e) => {
                return Err(e);
            },
        };
        if hdr.len != 34 {
            return Err(
                Error::new(ErrorKind::InvalidData, "invalid METADATA_BLOCK_STREAMINFO block len"),
            );
        }
        let buf: &[u8] = match rd.take_exact(34) {
            Ok(b) => b,
            Err(e) => {
                return Err(e);
            },
        };
        assert(buf@ =~= w.subrange(4, 38));
        assert(w.skip(4).skip(34) =~= w.skip(38));
        Self::decode(buf)
    }

    /// Decodes the parameters from the 34 bytes of a stream info block.
    pub fn decode(buf: &[u8]) -> (r: Result<StreamInfo, Error>)
        ensures
            spec_decode_stream_info(buf@) == (match r {
                Ok(s) => Ok::<StreamInfoView, ErrorKind>(s@),
                Err(e) => Err::<StreamInfoView, ErrorKind>(e.kind),
            }),
    {
        if buf.len() < 34 {
            return Err(
                Error::new(ErrorKind::InvalidData, "METADATA_BLOCK_STREAMINFO is truncated"),
            );
        }
        proof {
            vstd::arithmetic::power2::lemma2_to64();
            vstd::arithmetic::power2::lemma2_to64_rest();
        }
        let mut rd: BitReader<'_> = BitReader::new(buf);
        let min_block_len_samples: u16 = bits(&mut rd, 16) as u16;
        let max_block_len_samples: u16 = bits(&mut rd, 16) as u16;
        let min_frame: u32 = bits(&mut rd, 24) as u32;
        let max_frame: u32 = bits(&mut rd, 24) as u32;
        let samples_per_sec: u32 = bits(&mut rd, 20) as u32;
        if samples_per_sec == 0 {
            return Err(Error::new(ErrorKind::InvalidData, "invalid sample rate"));
        }
        let channel_count: u8 = bits(&mut rd, 3) as u8 + 1;
        let bits_per_sample: u8 = bits(&mut rd, 5) as u8 + 1;
        let len: u64 = bits(&mut rd, 36);
        let md5: [u8; 16] = [
            buf[18],
            buf[19],
            buf[20],
            buf[21],
            buf[22],
            buf[23],
            buf[24],
            buf[25],
            buf[26],
            buf[27],
            buf[28],
            buf[29],
            buf[30],
            buf[31],
            buf[32],
            buf[33],
        ];
        assert(md5@ =~= buf@.subrange(18, 34));
        Ok(
            StreamInfo {
                min_block_len_samples,
                max_block_len_samples,
                min_frame_len_bytes: if min_frame == 0 {
                    None
                } else {
                    Some(min_frame)
                },
                max_frame_len_bytes: if max_frame == 0 {
                    None
                } else {
                    Some(max_frame)
                },
                samples_per_sec,
                channel_count,
                bits_per_sample,
                len_samples: if len == 0 {
                    None
                } else {
                    Some(len)
                },
                md5,
            },
        )
    }
}

/// An index point of a track of a cue sheet.
#[derive(Clone, Copy, Debug, PartialEq, Eq, Structural)]
pub struct CueSheetIndex {
    /// Offset in samples, relative to the track offset, of the index point.
    pub offset_samples: u64,
    /// The index point number.
    pub num: u8,
}

/// The index point in the twelve bytes at the start of `w`: the offset,
/// the number, and three bytes that are reserved.
pub open spec fn spec_read_index(w: Seq<u8>) -> Result<CueSheetIndex, ErrorKind> {
    if w.len() < 12 {
        Err(ErrorKind::UnexpectedEof)
    } else {
        Ok(CueSheetIndex { offset_samples: spec_be_u64(w), num: w[8] })
    }
}

impl CueSheetIndex {
    /// The length of an index point.
    pub const LEN: usize = 12;

    /// Reads an index point.
    pub fn read(rd: &mut Limited<Cursor<'_>>) -> (r: Result<CueSheetIndex, Error>)
        ensures
            spec_read_index(old(rd).window()) == (match r {
                Ok(v) => Ok::<CueSheetIndex, ErrorKind>(v),
                Err(e) => Err::<CueSheetIndex, ErrorKind>(e.kind),
            }),
            r is Ok ==> final(rd).window() == old(rd).window().skip(12) && final(rd).backed(),
    {
        rd.limit_to_source();
        let ghost start = *rd;
        let buf: &[u8] = match rd.take_exact(12) {
            Ok(b) => b,
            Err(e) => {
                return Err(e);
            },
        };
        proof {
            rd.lemma_advanced_window(&start, 12);
        }
        let offset_bytes: &[u8] = slice_subrange(buf, 0, 8);
        assert(offset_bytes@.skip(4) =~= buf@.skip(4).take(4));
        let offset_samples: u64 = crate::util::bits::be_u64(offset_bytes);
        Ok(CueSheetIndex { offset_samples, num: buf[8] })
    }
}

/// The text of a field of fixed length: Latin-1, up to the first zero
/// byte or to the end of the field.
pub open spec fn spec_fixed_str(field: Seq<u8>) -> Seq<char> {
    latin1_chars(spec_strip_null(field))
}

/// A field up to its first zero byte.
pub open spec fn spec_strip_null(s: Seq<u8>) -> Seq<u8>
    decreases s.len(),
{
    if s.len() == 0 || s[0] == 0 {
        Seq::empty()
    } else {
        seq![s[0]] + spec_strip_null(s.skip(1))
    }
}

fn strip_null(s: &[u8]) -> (r: &[u8])
    ensures
        r@ == spec_strip_null(s@),
{
    let mut len: usize = 0;
    assert(s@.skip(0) =~= s@);
    assert(s@.take(0) + spec_strip_null(s@) =~= spec_strip_null(s@));
    while len < s.len() && s[len] != 0
        invariant
            len <= s@.len(),
            spec_strip_null(s@) == s@.take(len as int) + spec_strip_null(s@.skip(len as int)),
        decreases s@.len() - len,
    {
        proof {
            let rest = s@.skip(len as int);
            assert(rest.skip(1) =~= s@.skip(len + 1));
            assert(s@.take(len as int) + (seq![rest[0]] + spec_strip_null(rest.skip(1)))
                =~= s@.take(
                len + 1,
            ) + spec_strip_null(s@.skip(len + 1)));
        }
        len += 1;
    }
    let r: &[u8] = slice_subrange(s, 0, len);
    assert(r@ =~= s@.take(len as int) + Seq::<u8>::empty());
    r
}

fn decode_null_terminated_str(s: &[u8]) -> (r: String)
    ensures
        r@ == spec_fixed_str(s@),
{
    match latin1_decode(strip_null(s)) {
        Some(t) => t,
        None => String::new(),
    }
}

/// A track of a cue sheet.
#[derive(Clone, Debug, PartialEq, Eq)]
pub struct CueSheetTrack {
    /// Track offset in samples, relative to the beginning of the FLAC audio stream.
    pub offset_samples: u64,
    /// Track number. A track number of 0 is not allowed to avoid conflicting with the CD-DA spec,
    /// which reserves this for the lead-in. For CD-DA the number must be 1-99, or 170 for the
    /// lead-out; for non-CD-DA, the track number must for 255 for the lead-out.
    /// It is not required but encouraged to start with track 1 and increase sequentially.
    /// Track numbers must be unique within a cue sheet.
    pub num: u8,
    /// Track ISRC. This is a 12-digit alphanumeric code.
    pub isrc: Option<String>,
    /// The track type: audio or non-audio.
    pub audio: bool,
    /// The pre-emphasis flag.
    pub pre_emphasis: bool,
    pub index_entries: Vec<CueSheetIndex>,
}

pub struct CueSheetTrackView {
    pub offset_samples: u64,
    pub num: u8,
    pub isrc: Option<Seq<char>>,
    pub audio: bool,
    pub pre_emphasis: bool,
    pub index_entries: Seq<CueSheetIndex>,
}

impl View for CueSheetTrack {
    type V = CueSheetTrackView;

    open spec fn view(&self) -> CueSheetTrackView {
        CueSheetTrackView {
            offset_samples: self.offset_samples,
            num: self.num,
            isrc: match self.isrc {
                Some(s) => Some(s@),
                None => None,
            },
            audio: self.audio,
            pre_emphasis: self.pre_emphasis,
            index_entries: self.index_entries@,
        }
    }
}

/// `count` index points, one behind the other.
pub open spec fn spec_read_indices(w: Seq<u8>, count: nat) -> Result<Seq<CueSheetIndex>, ErrorKind>
    decreases count,
{
    if count == 0 {
        Ok(Seq::empty())
    } else {
        match spec_read_index(w) {
            Err(e) => Err(e),
            Ok(first) => match spec_read_indices(w.skip(12), (count - 1) as nat) {
                Err(e) => Err(e),
                Ok(rest) => Ok(seq![first] + rest),
            },
        }
    }
}

/// The track at the start of `w`, and the number of bytes that it takes:
/// 36 bytes that hold the offset, the number, the ISRC in twelve bytes,
/// the flags and the number of index points, then the index points. A
/// number of index points that the data cannot hold is refused before
/// any is read.
pub open spec fn spec_read_track(w: Seq<u8>) -> Result<(CueSheetTrackView, nat), ErrorKind> {
    if w.len() < 36 {
        Err(ErrorKind::UnexpectedEof)
    } else if w.len() - 36 < w[35] * 12 {
        Err(ErrorKind::InvalidData)
    } else {
        match spec_read_indices(w.skip(36), w[35] as nat) {
            Err(e) => Err(e),
            Ok(index_entries) => Ok(
                (
                    CueSheetTrackView {
                        offset_samples: spec_be_u64(w),
                        num: w[8],
                        isrc: if spec_fixed_str(w.subrange(9, 21)).len() == 0 {
                            None
                        } else {
                            Some(spec_fixed_str(w.subrange(9, 21)))
                        },
                        audio: !bit_u8(w[21], 7),
                        pre_emphasis: bit_u8(w[21], 6),
                        index_entries,
                    },
                    (36 + 12 * w[35]) as nat,
                ),
            ),
        }
    }
}

fn read_indices(rd: &mut Limited<Cursor<'_>>, count: u8) -> (r: Result<Vec<CueSheetIndex>, Error>)
    requires
        old(rd).backed(),
        count * 12 <= old(rd).window().len(),
    ensures
        spec_read_indices(old(rd).window(), count as nat) == (match r {
            Ok(v) => Ok::<Seq<CueSheetIndex>, ErrorKind>(v@),
            Err(e) => Err::<Seq<CueSheetIndex>, ErrorKind>(e.kind),
        }),
        r is Ok ==> final(rd).window() == old(rd).window().skip(12 * count) && final(rd).backed(),
{
    let ghost w = rd.window();
    let mut v: Vec<CueSheetIndex> = Vec::new();
    let mut i: u8 = 0;
    assert(w.skip(0) =~= w);
    proof {
        let all = spec_read_indices(w, count as nat);
        if all is Ok {
            assert(v@ + all->Ok_0 =~= all->Ok_0);
        }
    }
    while i < count
        invariant
            i <= count,
            rd.backed(),
            w == old(rd).window(),
            count * 12 <= w.len(),
            rd.window() == w.skip(12 * i),
            match spec_read_indices(rd.window(), (count - i) as nat) {
                Ok(tail) => spec_read_indices(w, count as nat) == Ok::<
                    Seq<CueSheetIndex>,
                    ErrorKind,
                >(v@ + tail),
                Err(e) => spec_read_indices(w, count as nat) == Err::<
                    Seq<CueSheetIndex>,
                    ErrorKind,
                >(e),
            },
        decreases count - i,
    {
        let ghost here = rd.window();
        let ghost before = v@;
        let index: CueSheetIndex = match CueSheetIndex::read(rd) {
            Ok(x) => x,
            Err(e) => {
                return Err(e);
            },
        };
        v.push(index);
        proof {
            assert(w.skip(12 * i).skip(12) =~= w.skip(12 * (i + 1)));
            let tail = spec_read_indices(here.skip(12), (count - i - 1) as nat);
            if tail is Ok {
                assert(before + (seq![index] + tail->Ok_0) =~= v@ + tail->Ok_0);
            }
        }
        i += 1;
    }
    assert(v@ + Seq::<CueSheetIndex>::empty() =~= v@);
    Ok(v)
}

impl CueSheetTrack {
    /// The least length of a track.
    pub const MIN_LEN: usize = 36;

    /// Reads a track.
    pub fn read(rd: &mut Limited<Cursor<'_>>) -> (r: Result<CueSheetTrack, Error>)
        ensures
            match r {
                Ok(t) => spec_read_track(old(rd).window()) matches Ok(p) && p.0 == t@
                    && p.1 <= old(rd).window().len()
                    && final(rd).window() == old(rd).window().skip(p.1 as int)
                    && final(rd).backed(),
                Err(e) => spec_read_track(old(rd).window()) == Err::<
                    (CueSheetTrackView, nat),
                    ErrorKind,
                >(e.kind),
            },
    {
        rd.limit_to_source();
        let ghost w = rd.window();
        let ghost start = *rd;
        let head: &[u8] = match rd.take_exact(36) {
            Ok(b) => b,
            Err(e) => {
                return Err(e);
            },
        };
        proof {
            rd.lemma_advanced_window(&start, 36);
        }
        let offset_bytes: &[u8] = slice_subrange(head, 0, 8);
        assert(offset_bytes@.skip(4) =~= head@.skip(4).take(4));
        let offset_samples: u64 = crate::util::bits::be_u64(offset_bytes);
        let num: u8 = head[8];
        let isrc_bytes: &[u8] = slice_subrange(head, 9, 21);
        assert(isrc_bytes@ =~= w.subrange(9, 21));
        let isrc: String = decode_null_terminated_str(isrc_bytes);
        let isrc: Option<String> = if isrc.as_str().is_empty() {
            None
        } else {
            Some(isrc)
        };
        let flags: u8 = head[21];
        let audio: bool = !get_bit_u8(flags, 7);
        let pre_emphasis: bool = get_bit_u8(flags, 6);
        let index_entry_count: u8 = head[35];
        if rd.max_available() < index_entry_count as u64 * 12 {
            return Err(Error::new(ErrorKind::InvalidData, "CUESHEET_TRACK is truncated"));
        }
        let index_entries: Vec<CueSheetIndex> = match read_indices(rd, index_entry_count) {
            Ok(v) => v,
            Err(e) => {
                return Err(e);
            },
        };
        assert(w.skip(36).skip(12 * index_entry_count) =~= w.skip(36 + 12 * index_entry_count));
        Ok(CueSheetTrack { offset_samples, num, isrc, audio, pre_emphasis, index_entries })
    }
}

/// A cue sheet.
#[derive(Clone, Debug, PartialEq, Eq)]
pub struct CueSheet {
    /// Media catalog number, in ASCII printable characters 0x20-0x7e.
    /// In general, the media catalog number may be 0 to 128 bytes long.
    /// For CD-DA, this is a thirteen digit number.
    pub media_catalog: String,
    /// The number of lead-in samples. This field has meaning only for CD-DA cuesheets;
    /// for other uses it should be 0.
    pub lead_in_sample_count: u64,
    /// `true` if the cue sheet corresponds to a Compact Disc.
    pub compact_disc: bool,
    /// One or more tracks.
    pub tracks: Vec<CueSheetTrack>,
}

pub struct CueSheetView {
    pub media_catalog: Seq<char>,
    pub lead_in_sample_count: u64,
    pub compact_disc: bool,
    pub tracks: Seq<CueSheetTrackView>,
}

pub open spec fn track_views(v: Seq<CueSheetTrack>) -> Seq<CueSheetTrackView> {
    Seq::new(v.len(), |i: int| v[i]@)
}

impl View for CueSheet {
    type V = CueSheetView;

    open spec fn view(&self) -> CueSheetView {
        CueSheetView {
            media_catalog: self.media_catalog@,
            lead_in_sample_count: self.lead_in_sample_count,
            compact_disc: self.compact_disc,
            tracks: track_views(self.tracks@),
        }
    }
}

/// `count` tracks, one behind the other, and the number of bytes that
/// they take.
pub open spec fn spec_read_tracks(w: Seq<u8>, count: nat) -> Result<
    (Seq<CueSheetTrackView>, nat),
    ErrorKind,
>
    decreases count,
{
    if count == 0 {
        Ok((Seq::empty(), 0))
    } else {
        match spec_read_track(w) {
            Err(e) => Err(e),
            Ok(first) => match spec_read_tracks(w.skip(first.1 as int), (count - 1) as nat) {
                Err(e) => Err(e),
                Ok(rest) => Ok((seq![first.0] + rest.0, first.1 + rest.1)),
            },
        }
    }
}

/// The cue sheet at the start of `w`, and the number of bytes that it
/// takes: 396 bytes that hold the media catalog in 128 bytes, the lead-in,
/// the flags and the number of tracks, then the tracks. A number of
/// tracks that the data cannot hold is refused before any is read.
#[verifier::opaque]
pub open spec fn spec_read_cue_sheet(w: Seq<u8>) -> Result<(CueSheetView, nat), ErrorKind> {
    if w.len() < 396 {
        Err(ErrorKind::UnexpectedEof)
    } else if w.len() - 396 < w[395] * 36 {
        Err(ErrorKind::InvalidData)
    } else {
        match spec_read_tracks(w.skip(396), w[395] as nat) {
            Err(e) => Err(e),
            Ok(tracks) => Ok(
                (
                    CueSheetView {
                        media_catalog: spec_fixed_str(w.subrange(0, 128)),
                        lead_in_sample_count: spec_be_u64(w.skip(128)),
                        compact_disc: bit_u8(w[136], 7),
                        tracks: tracks.0,
                    },
                    396 + tracks.1,
                ),
            ),
        }
    }
}

fn read_tracks(rd: &mut Limited<Cursor<'_>>, count: u8) -> (r: Result<Vec<CueSheetTrack>, Error>)
    requires
        old(rd).backed(),
    ensures
        match r {
            Ok(v) => spec_read_tracks(old(rd).window(), count as nat) matches Ok(p) && p.0
                == track_views(v@) && p.1 <= old(rd).window().len()
                    && final(rd).window() == old(rd).window().skip(p.1 as int)
                    && final(rd).backed(),
            Err(e) => spec_read_tracks(old(rd).window(), count as nat) == Err::<
                (Seq<CueSheetTrackView>, nat),
                ErrorKind,
            >(e.kind),
        },
{
    let ghost w = rd.window();
    let mut v: Vec<CueSheetTrack> = Vec::new();
    let ghost mut taken: nat = 0;
    let mut i: u8 = 0;
    assert(w.skip(0) =~= w);
    proof {
        let all = spec_read_tracks(w, count as nat);
        if all is Ok {
            assert(track_views(v@) + all->Ok_0.0 =~= all->Ok_0.0);
        }
    }
    while i < count
        invariant
            i <= count,
            rd.backed(),
            w == old(rd).window(),
            taken <= w.len(),
            rd.window() == w.skip(taken as int),
            match spec_read_tracks(rd.window(), (count - i) as nat) {
                Ok(tail) => spec_read_tracks(w, count as nat) == Ok::<
                    (Seq<CueSheetTrackView>, nat),
                    ErrorKind,
                >((track_views(v@) + tail.0, taken + tail.1)),
                Err(e) => spec_read_tracks(w, count as nat) == Err::<
                    (Seq<CueSheetTrackView>, nat),
                    ErrorKind,
                >(e),
            },
        decreases count - i,
    {
        let ghost here = rd.window();
        let ghost before = track_views(v@);
        let track: CueSheetTrack = match CueSheetTrack::read(rd) {
            Ok(t) => t,
            Err(e) => {
                return Err(e);
            },
        };
        let ghost added = track@;
        v.push(track);
        proof {
            let step = spec_read_track(here)->Ok_0;
            assert(track_views(v@) =~= before.push(added));
            assert(w.skip(taken as int).skip(step.1 as int) =~= w.skip((taken + step.1) as int));
            let tail = spec_read_tracks(here.skip(step.1 as int), (count - i - 1) as nat);
            if tail is Ok {
                assert(before + (seq![added] + tail->Ok_0.0) =~= track_views(v@) + tail->Ok_0.0);
            }
            taken = taken + step.1;
        }
        i += 1;
    }
    proof {
        assert(track_views(v@) + Seq::<CueSheetTrackView>::empty() =~= track_views(v@));
    }
    Ok(v)
}

impl CueSheet {
    /// The least length of a cue sheet.
    pub const MIN_LEN: usize = 396;

    /// Reads a cue sheet.
    pub fn read(rd: &mut Limited<Cursor<'_>>) -> (r: Result<CueSheet, Error>)
        ensures
            match r {
                Ok(c) => spec_read_cue_sheet(old(rd).window()) matches Ok(p) && p.0 == c@ && p.1
                    <= old(rd).window().len() && final(rd).window() == old(rd).window().skip(
                    p.1 as int,
                ) && final(rd).backed(),
                Err(e) => spec_read_cue_sheet(old(rd).window()) == Err::<
                    (CueSheetView, nat),
                    ErrorKind,
                >(e.kind),
            },
    {
        rd.limit_to_source();
        reveal(spec_read_cue_sheet);
        let ghost w = rd.window();
        let ghost start = *rd;
        let head: &[u8] = match rd.take_exact(396) {
            Ok(b) => b,
            Err(e) => {
                return Err(e);
            },
        };
        proof {
            rd.lemma_advanced_window(&start, 396);
        }
        let catalog_bytes: &[u8] = slice_subrange(head, 0, 128);
        assert(catalog_bytes@ =~= w.subrange(0, 128));
        let media_catalog: String = decode_null_terminated_str(catalog_bytes);
        let lead_in_bytes: &[u8] = slice_subrange(head, 128, 136);
        assert(lead_in_bytes@.skip(4) =~= w.skip(128).skip(4).take(4));
        assert(lead_in_bytes@[0] == w.skip(128)[0] && lead_in_bytes@[1] == w.skip(128)[1]
            && lead_in_bytes@[2] == w.skip(128)[2] && lead_in_bytes@[3] == w.skip(128)[3]);
        let lead_in_sample_count: u64 = crate::util::bits::be_u64(lead_in_bytes);
        assert(lead_in_sample_count == spec_be_u64(w.skip(128))) by {
            assert(w.skip(128).skip(4)[0] == lead_in_bytes@.skip(4)[0]);
            assert(w.skip(128).skip(4)[1] == lead_in_bytes@.skip(4)[1]);
            assert(w.skip(128).skip(4)[2] == lead_in_bytes@.skip(4)[2]);
            assert(w.skip(128).skip(4)[3] == lead_in_bytes@.skip(4)[3]);
        }
        let compact_disc: bool = get_bit_u8(head[136], 7);
        let track_count: u8 = head[395];
        if rd.max_available() < track_count as u64 * 36 {
            return Err(Error::new(ErrorKind::InvalidData, "METADATA_BLOCK_CUESHEET is truncated"));
        }
        let tracks: Vec<CueSheetTrack> = match read_tracks(rd, track_count) {
            Ok(v) => v,
            Err(e) => {
                return Err(e);
            },
        };
        proof {
            let n = spec_read_tracks(w.skip(396), track_count as nat)->Ok_0.1;
            assert(w.skip(396).skip(n as int) =~= w.skip((396 + n) as int));
        }
        Ok(CueSheet { media_catalog, lead_in_sample_count, compact_disc, tracks })
    }
}

/// A picture of a FLAC file.
#[derive(Clone, Debug, PartialEq, Eq)]
pub struct Picture {
    pub kind: PictureKind,
    pub content_type: String,
    pub description: String,
    pub width: u32,
    pub height: u32,
    pub color_depth: u32,
    pub colors_used: u32,
    pub data: Vec<u8>,
}

pub struct PictureView {
    pub kind: PictureKind,
    pub content_type: Seq<char>,
    pub description: Seq<char>,
    pub width: u32,
    pub height: u32,
    pub color_depth: u32,
    pub colors_used: u32,
    pub data: Seq<u8>,
}

impl View for Picture {
    type V = PictureView;

    open spec fn view(&self) -> PictureView {
        PictureView {
            kind: self.kind,
            content_type: self.content_type@,
            description: self.description@,
            width: self.width,
            height: self.height,
            color_depth: self.color_depth,
            colors_used: self.colors_used,
            data: self.data@,
        }
    }
}

/// The bytes that stand at `at` with their length before them, in four
/// bytes, and the place behind them.
pub open spec fn spec_len_prefixed(w: Seq<u8>, at: nat) -> Result<(Seq<u8>, nat), ErrorKind> {
    if w.len() < at + 4 {
        Err(ErrorKind::UnexpectedEof)
    } else {
        let len = spec_be_u32(w.skip(at as int)) as nat;
        if w.len() < at + 4 + len {
            Err(ErrorKind::UnexpectedEof)
        } else {
            Ok((w.subrange((at + 4) as int, (at + 4 + len) as int), at + 4 + len))
        }
    }
}

/// The picture at the start of `w`, and the number of bytes that it
/// takes: the kind in four bytes, which must fit in one, the content type
/// in Latin-1 and the description in UTF-8, each with its length before
/// it, the width, the height, the colour depth and the number of colours
/// in four bytes each, and the image with its length before it.
#[verifier::opaque]
pub open spec fn spec_read_picture(w: Seq<u8>) -> Result<(PictureView, nat), ErrorKind> {
    if w.len() < 4 {
        Err(ErrorKind::UnexpectedEof)
    } else if spec_be_u32(w) > 255 {
        Err(ErrorKind::InvalidData)
    } else {
        match spec_len_prefixed(w, 4) {
            Err(e) => Err(e),
            Ok(content_type) => match spec_len_prefixed(w, content_type.1) {
                Err(e) => Err(e),
                Ok(description) => match utf8_decoded(description.0) {
                    None => Err(ErrorKind::InvalidEncoding),
                    Some(text) => if w.len() < description.1 + 16 {
                        Err(ErrorKind::UnexpectedEof)
                    } else {
                        match spec_len_prefixed(w, description.1 + 16) {
                            Err(e) => Err(e),
                            Ok(data) => Ok(
                                (
                                    PictureView {
                                        kind: PictureKind(spec_be_u32(w) as u8),
                                        content_type: latin1_chars(content_type.0),
                                        description: text,
                                        width: spec_be_u32(w.skip(description.1 as int)),
                                        height: spec_be_u32(w.skip((description.1 + 4) as int)),
                                        color_depth: spec_be_u32(
                                            w.skip((description.1 + 8) as int),
                                        ),
                                        colors_used: spec_be_u32(
                                            w.skip((description.1 + 12) as int),
                                        ),
                                        data: data.0,
                                    },
                                    data.1,
                                ),
                            ),
                        }
                    },
                },
            },
        }
    }
}

fn read_len_prefixed(
    rd: &mut Limited<Cursor<'_>>,
    Ghost(w): Ghost<Seq<u8>>,
    Ghost(at): Ghost<nat>,
    err: &'static str,
) -> (r: Result<Vec<u8>, Error>)
    requires
        old(rd).backed(),
        at <= w.len(),
        old(rd).window() == w.skip(at as int),
    ensures
        match r {
            Ok(v) => spec_len_prefixed(w, at) matches Ok(p) && p.0 == v@ && p.1 <= w.len()
                && final(rd).window() == w.skip(p.1 as int) && final(rd).backed(),
            Err(e) => spec_len_prefixed(w, at) == Err::<(Seq<u8>, nat), ErrorKind>(e.kind),
        },
{
    let ghost start = *rd;
    let len: u32 = match rd.read_u32_be() {
        Ok(v) => v,
        Err(e) => {
            return Err(e);
        },
    };
    proof {
        rd.lemma_advanced_window(&start, 4);
        assert(w.skip(at as int).skip(4) =~= w.skip((at + 4) as int));
    }
    let ghost mid = *rd;
    let vec: Vec<u8> = match read_vec_limited(rd, len as usize, err) {
        Ok(v) => v,
        Err(e) => {
            return Err(e);
        },
    };
    proof {
        rd.lemma_advanced_window(&mid, len as int);
        assert(vec@ =~= w.subrange((at + 4) as int, (at + 4 + len) as int));
        assert(w.skip((at + 4) as int).skip(len as int) =~= w.skip((at + 4 + len) as int));
    }
    Ok(vec)
}

fn read_dimension(
    rd: &mut Limited<Cursor<'_>>,
    Ghost(w): Ghost<Seq<u8>>,
    Ghost(at): Ghost<nat>,
) -> (r: Result<u32, Error>)
    requires
        old(rd).backed(),
        at <= w.len(),
        old(rd).window() == w.skip(at as int),
    ensures
        match r {
            Ok(v) => at + 4 <= w.len() && v == spec_be_u32(w.skip(at as int)) && final(rd).window()
                == w.skip((at + 4) as int) && final(rd).backed(),
            Err(e) => w.len() < at + 4 && e.kind == ErrorKind::UnexpectedEof,
        },
{
    let ghost start = *rd;
    match rd.read_u32_be() {
        Ok(v) => {
            proof {
                rd.lemma_advanced_window(&start, 4);
                assert(w.skip(at as int).skip(4) =~= w.skip((at + 4) as int));
            }
            Ok(v)
        },
        Err(e) => Err(e),
    }
}

impl Picture {
    /// The least length of a picture.
    pub const MIN_LEN: usize = 32;

    /// Reads a picture.
    pub fn read(rd: &mut Limited<Cursor<'_>>) -> (r: Result<Picture, Error>)
        ensures
            match r {
                Ok(c) => spec_read_picture(old(rd).window()) matches Ok(p) && p.0 == c@ && p.1
                    <= old(rd).window().len() && final(rd).window() == old(rd).window().skip(
                    p.1 as int,
                ) && final(rd).backed(),
                Err(e) => spec_read_picture(old(rd).window()) == Err::<
                    (PictureView, nat),
                    ErrorKind,
                >(e.kind),
            },
    {
        rd.limit_to_source();
        reveal(spec_read_picture);
        let ghost w = rd.window();
        assert(w.skip(0) =~= w);
        let kind: u32 = match read_dimension(rd, Ghost(w), Ghost(0)) {
            Ok(v) => v,
            Err(e) => {
                return Err(e);
            },
        };
        if kind > 255 {
            return Err(Error::new(ErrorKind::InvalidData, "invalid picture kind"));
        }
        let kind: PictureKind = PictureKind(kind as u8);
        let content_type: Vec<u8> = match read_len_prefixed(
            rd,
            Ghost(w),
            Ghost(4),
            "invalid string length",
        ) {
            Ok(v) => v,
            Err(e) => {
                return Err(e);
            },
        };
        let ghost p1 = spec_len_prefixed(w, 4)->Ok_0.1;
        let content_type: String = match latin1_decode(content_type.as_slice()) {
            Some(s) => s,
            None => String::new(),
        };
        let description: Vec<u8> = match read_len_prefixed(
            rd,
            Ghost(w),
            Ghost(p1),
            "invalid string length",
        ) {
            Ok(v) => v,
            Err(e) => {
                return Err(e);
            },
        };
        let ghost p2 = spec_len_prefixed(w, p1)->Ok_0.1;
        let description: String = match utf8_decode_strict(description.as_slice()) {
            Some(s) => s,
            None => {
                return Err(Error::new(ErrorKind::InvalidEncoding, "invalid string"));
            },
        };
        let width: u32 = match read_dimension(rd, Ghost(w), Ghost(p2)) {
            Ok(v) => v,
            Err(e) => {
                return Err(e);
            },
        };
        let height: u32 = match read_dimension(rd, Ghost(w), Ghost(p2 + 4)) {
            Ok(v) => v,
            Err(e) => {
                return Err(e);
            },
        };
        let color_depth: u32 = match read_dimension(rd, Ghost(w), Ghost(p2 + 8)) {
            Ok(v) => v,
            Err(e) => {
                return Err(e);
            },
        };
        let colors_used: u32 = match read_dimension(rd, Ghost(w), Ghost(p2 + 12)) {
            Ok(v) => v,
            Err(e) => {
                return Err(e);
            },
        };
        let data: Vec<u8> = match read_len_prefixed(
            rd,
            Ghost(w),
            Ghost(p2 + 16),
            "invalid data len",
        ) {
            Ok(v) => v,
            Err(e) => {
                return Err(e);
            },
        };
        Ok(
            Picture {
                kind,
                content_type,
                description,
                width,
                height,
                color_depth,
                colors_used,
                data,
            },
        )
    }
}

/// What the metadata blocks behind the stream info hold.
pub struct BlocksView {
    pub cue_sheet: Option<CueSheetView>,
    pub pictures: Seq<PictureView>,
    pub vcomment: Option<VcommentView>,
}

pub open spec fn picture_views(v: Seq<Picture>) -> Seq<PictureView> {
    Seq::new(v.len(), |i: int| v[i]@)
}

/// What is known once a metadata block of the given kind and body has
/// been looked at. The first cue sheet and the first Vorbis comment that
/// can be decoded are kept, and so is every picture that can be; a block
/// that cannot be decoded counts as absent, and so does any other block.
#[verifier::opaque]
pub open spec fn spec_add_block(acc: BlocksView, kind: BlockKind, body: Seq<u8>) -> BlocksView {
    if kind.0 == BlockKind::CUE_SHEET && acc.cue_sheet is None {
        match spec_read_cue_sheet(body) {
            Ok(c) => BlocksView {
                cue_sheet: Some(c.0),
                pictures: acc.pictures,
                vcomment: acc.vcomment,
            },
            Err(_) => acc,
        }
    } else if kind.0 == BlockKind::PICTURE {
        match spec_read_picture(body) {
            Ok(p) => BlocksView {
                cue_sheet: acc.cue_sheet,
                pictures: acc.pictures.push(p.0),
                vcomment: acc.vcomment,
            },
            Err(_) => acc,
        }
    } else if kind.0 == BlockKind::VORBIS_COMMENT && acc.vcomment is None {
        match spec_read_vcomment(body, false) {
            Ok(v) => BlocksView {
                cue_sheet: acc.cue_sheet,
                pictures: acc.pictures,
                vcomment: Some(v.0),
            },
            Err(_) => acc,
        }
    } else {
        acc
    }
}

/// What one metadata block at the start of `w` adds to what is known, the
/// number of bytes that it takes, and whether it is the last block. The
/// block is its header and as many bytes as the header declares, which
/// must all be there.
pub open spec fn spec_read_block(w: Seq<u8>, acc: BlocksView) -> Result<
    (BlocksView, nat, bool),
    ErrorKind,
> {
    match spec_block_header(w) {
        Err(e) => Err(e),
        Ok(h) => if w.len() - 4 < h.len {
            Err(ErrorKind::UnexpectedEof)
        } else {
            Ok((spec_add_block(acc, h.kind, w.subrange(4, 4 + h.len)), (4 + h.len) as nat, h.last))
        },
    }
}

/// What the metadata blocks in `w` hold, up to the one that is marked as
/// the last, and the number of bytes that they take.
pub open spec fn spec_read_blocks(w: Seq<u8>, acc: BlocksView) -> Result<
    (BlocksView, nat),
    ErrorKind,
>
    decreases w.len(),
{
    match spec_read_block(w, acc) {
        Err(e) => Err(e),
        Ok(b) => if b.2 || b.1 == 0 || b.1 > w.len() {
            Ok((b.0, b.1))
        } else {
            match spec_read_blocks(w.skip(b.1 as int), b.0) {
                Err(e) => Err(e),
                Ok(rest) => Ok((rest.0, b.1 + rest.1)),
            }
        },
    }
}

/// Whether the stream marker `fLaC` stands at `pos`.
pub open spec fn is_marker(data: Seq<u8>, pos: int) -> bool {
    data[pos] == 0x66 && data[pos + 1] == 0x4c && data[pos + 2] == 0x61 && data[pos + 3] == 0x43
}

/// The stream info of `data`, the place of the stream marker before it,
/// and the ID3v2 tag that stood before that, if any.
///
/// At each place the stream marker is looked for, and behind it the
/// stream info block. Where there is no marker, and as long as no ID3v2
/// tag was found, a tag is tried, and skipped where it is found; one that
/// uses what is not decoded ends the search. Else the search moves on by
/// one byte. It fails at the scan limit, and where fewer than four bytes
/// are left.
pub open spec fn spec_find_stream(data: Seq<u8>, pos: int, tag: Option<TagView>) -> Result<
    (StreamInfoView, int, Option<TagView>),
    ErrorKind,
>
    decreases minus(scan_limit(data), pos), if tag is None { 1int } else { 0int },
{
    if pos < 0 || pos >= scan_limit(data) {
        Err(ErrorKind::InvalidData)
    } else if pos + 4 > data.len() {
        Err(ErrorKind::UnexpectedEof)
    } else if is_marker(data, pos) {
        match spec_read_stream_info(data.skip(pos + 4)) {
            Ok(s) => Ok((s, pos, tag)),
            Err(_) => spec_find_stream(data, pos + 1, tag),
        }
    } else if tag is None {
        match spec_read_tag(data.skip(pos)) {
            Ok(t) => spec_find_stream(data, pos + t.1, Some(t.0)),
            Err(e) => if e == ErrorKind::Unsupported {
                Err(e)
            } else {
                spec_find_stream(data, pos + 1, tag)
            },
        }
    } else {
        spec_find_stream(data, pos + 1, tag)
    }
}

/// What is known of a FLAC file.
#[derive(Clone, Debug, PartialEq, Eq)]
pub struct Flac {
    stream_info: StreamInfo,
    audio_len_bytes: u64,
    cue_sheet: Option<CueSheet>,
    pictures: Vec<Picture>,
    id3v1: Option<Id3v1>,
    id3v2: Option<Tag>,
    vcomment: Option<Vcomment>,
}

pub struct FlacView {
    pub stream_info: StreamInfoView,
    pub audio_len_bytes: u64,
    pub cue_sheet: Option<CueSheetView>,
    pub pictures: Seq<PictureView>,
    pub id3v1: Option<Id3v1View>,
    pub id3v2: Option<TagView>,
    pub vcomment: Option<VcommentView>,
}

impl View for Flac {
    type V = FlacView;

    closed spec fn view(&self) -> FlacView {
        FlacView {
            stream_info: self.stream_info@,
            audio_len_bytes: self.audio_len_bytes,
            cue_sheet: match self.cue_sheet {
                Some(v) => Some(v@),
                None => None,
            },
            pictures: picture_views(self.pictures@),
            id3v1: match self.id3v1 {
                Some(v) => Some(v@),
                None => None,
            },
            id3v2: match self.id3v2 {
                Some(v) => Some(v@),
                None => None,
            },
            vcomment: match self.vcomment {
                Some(v) => Some(v@),
                None => None,
            },
        }
    }
}

/// What is known of the FLAC file `data`: the ID3v1 tag at its end, the
/// stream info as `spec_find_stream` finds it, and what the metadata
/// blocks behind the stream info hold. The length of the audio is what
/// follows the stream marker, less the metadata blocks behind the stream
/// info and the ID3v1 tag.
pub open spec fn spec_read_flac(data: Seq<u8>) -> Result<FlacView, ErrorKind> {
    match spec_find_stream(data, 0, None) {
        Err(e) => Err(e),
        Ok(found) => {
            let id3v1 = match crate::id3::v1::spec_read(data) {
                Ok(t) => Some(t),
                Err(_) => None,
            };
            let empty = BlocksView { cue_sheet: None, pictures: Seq::empty(), vcomment: None };
            match spec_read_blocks(tail(data, found.1 + 42), empty) {
                Err(e) => Err(e),
                Ok(blocks) => Ok(
                    FlacView {
                        stream_info: found.0,
                        audio_len_bytes: minus(
                            data.len() - found.1 - 4 - blocks.1,
                            match id3v1 {
                                Some(t) => if t.ext is Some {
                                    355int
                                } else {
                                    128int
                                },
                                None => 0int,
                            },
                        ) as u64,
                        cue_sheet: blocks.0.cue_sheet,
                        pictures: blocks.0.pictures,
                        id3v1,
                        id3v2: found.2,
                        vcomment: blocks.0.vcomment,
                    },
                ),
            }
        },
    }
}

/// The metadata blocks that were decoded.
struct Blocks {
    cue_sheet: Option<CueSheet>,
    pictures: Vec<Picture>,
    vcomment: Option<Vcomment>,
}

impl View for Blocks {
    type V = BlocksView;

    closed spec fn view(&self) -> BlocksView {
        BlocksView {
            cue_sheet: match self.cue_sheet {
                Some(v) => Some(v@),
                None => None,
            },
            pictures: picture_views(self.pictures@),
            vcomment: match self.vcomment {
                Some(v) => Some(v@),
                None => None,
            },
        }
    }
}

/// Looks at a metadata block of the given kind and body.
fn add_block(blocks: &mut Blocks, kind: BlockKind, body: &[u8])
    ensures
        final(blocks)@ == spec_add_block(old(blocks)@, kind, body@),
{
    reveal(spec_add_block);
    let mut rd: Limited<Cursor<'_>> = Limited::new(Cursor::new(body), body.len() as u64);
    assert(rd.window() =~= body@);
    if kind.0 == BlockKind::CUE_SHEET && blocks.cue_sheet.is_none() {
        match CueSheet::read(&mut rd) {
            Ok(c) => {
                blocks.cue_sheet = Some(c);
            },
            Err(_) => {},
        }
    } else if kind.0 == BlockKind::PICTURE {
        match Picture::read(&mut rd) {
            Ok(p) => {
                let ghost before = picture_views(blocks.pictures@);
                let ghost added = p@;
                blocks.pictures.push(p);
                assert(picture_views(blocks.pictures@) =~= before.push(added));
            },
            Err(_) => {},
        }
    } else if kind.0 == BlockKind::VORBIS_COMMENT && blocks.vcomment.is_none() {
        match Vcomment::read_limited(&mut rd, false) {
            Ok(v) => {
                blocks.vcomment = Some(v);
            },
            Err(_) => {},
        }
    }
}

fn read_block(rd: &mut Limited<Cursor<'_>>, blocks: &mut Blocks) -> (r: Result<bool, Error>)
    requires
        old(rd).backed(),
    ensures
        match r {
            Ok(last) => spec_read_block(old(rd).window(), old(blocks)@) matches Ok(p) && p.0
                == final(blocks)@ && p.2 == last && 4 <= p.1 <= old(rd).window().len()
                    && final(rd).window() == old(rd).window().skip(p.1 as int)
                    && final(rd).backed(),
            Err(e) => spec_read_block(old(rd).window(), old(blocks)@) == Err::<
                (BlocksView, nat, bool),
                ErrorKind,
            >(e.kind),
        },
{
    let ghost w = rd.window();
    let ghost start = *rd;
    let header: BlockHeader = match BlockHeader::read(rd) {
        Ok(h) => h,
        Err(e) => {
            return Err(e);
        },
    };
    proof {
        rd.lemma_advanced_window(&start, 4);
    }
    let ghost mid = *rd;
    let body: &[u8] = match rd.take_exact(header.len as usize) {
        Ok(b) => b,
        Err(e) => {
            return Err(e);
        },
    };
    proof {
        rd.lemma_advanced_window(&mid, header.len as int);
        assert(body@ =~= w.subrange(4, 4 + header.len));
        assert(w.skip(4).skip(header.len as int) =~= w.skip(4 + header.len));
    }
    add_block(blocks, header.kind, body);
    Ok(header.last)
}

#[verifier::rlimit(30)]
fn read_blocks(rd: &mut Limited<Cursor<'_>>) -> (r: Result<(Blocks, u64), Error>)
    requires
        old(rd).backed(),
    ensures
        match r {
            Ok((blocks, left)) => spec_read_blocks(
                old(rd).window(),
                (BlocksView { cue_sheet: None, pictures: Seq::empty(), vcomment: None }),
            ) matches Ok(p) && p.0 == blocks@ && p.1 <= old(rd).window().len()
                && left == old(rd).window().len() - p.1,
            Err(e) => spec_read_blocks(
                old(rd).window(),
                (BlocksView { cue_sheet: None, pictures: Seq::empty(), vcomment: None }),
            ) == Err::<(BlocksView, nat), ErrorKind>(e.kind),
        },
{
    let ghost w = rd.window();
    let ghost empty = BlocksView { cue_sheet: None, pictures: Seq::empty(), vcomment: None };
    let mut blocks: Blocks = Blocks { cue_sheet: None, pictures: Vec::new(), vcomment: None };
    assert(blocks@.pictures =~= Seq::<PictureView>::empty());
    let ghost mut taken: nat = 0;
    assert(w.skip(0) =~= w);
    loop
        invariant
            rd.backed(),
            w == old(rd).window(),
            empty == (BlocksView { cue_sheet: None, pictures: Seq::empty(), vcomment: None }),
            taken <= w.len(),
            rd.window() == w.skip(taken as int),
            match spec_read_blocks(rd.window(), blocks@) {
                Ok(rest) => spec_read_blocks(w, empty) == Ok::<(BlocksView, nat), ErrorKind>(
                    (rest.0, taken + rest.1),
                ),
                Err(e) => spec_read_blocks(w, empty) == Err::<(BlocksView, nat), ErrorKind>(e),
            },
        decreases w.len() - taken,
    {
        let ghost here = rd.window();
        let ghost before = blocks@;
        let last: bool = match read_block(rd, &mut blocks) {
            Ok(last) => last,
            Err(e) => {
                return Err(e);
            },
        };
        proof {
            let step = spec_read_block(here, before)->Ok_0;
            assert(w.skip(taken as int).skip(step.1 as int) =~= w.skip((taken + step.1) as int));
            taken = taken + step.1;
        }
        if last {
            let left: u64 = rd.max_available();
            return Ok((blocks, left));
        }
    }
}

impl Flac {
    pub fn stream_info(&self) -> (r: &StreamInfo)
        ensures
            r@ == self@.stream_info,
    {
        &self.stream_info
    }

    /// The number of bytes of audio.
    pub fn audio_len_bytes(&self) -> (r: u64)
        ensures
            r == self@.audio_len_bytes,
    {
        self.audio_len_bytes
    }

    pub fn cue_sheet(&self) -> (r: Option<&CueSheet>)
        ensures
            match r {
                Some(c) => self@.cue_sheet == Some(c@),
                None => self@.cue_sheet is None,
            },
    {
        self.cue_sheet.as_ref()
    }

    pub fn pictures(&self) -> (r: &Vec<Picture>)
        ensures
            picture_views(r@) == self@.pictures,
    {
        &self.pictures
    }

    /// A view of the tags of the file.
    pub fn tags(&self) -> (r: TagsRef<'_>)
        ensures
            r@.id3v1 == self@.id3v1,
            r@.id3v2 == self@.id3v2,
            r@.vcomment == self@.vcomment,
    {
        TagsRef::new(self.id3v1.as_ref(), self.id3v2.as_ref(), self.vcomment.as_ref())
    }

    /// Reads the stream info block behind a stream marker at `pos` that
    /// has just been read.
    fn stream_info_at(rd: &mut Cursor<'_>, Ghost(pos): Ghost<u64>) -> (r: Option<StreamInfo>)
        requires
            pos + 4 <= old(rd).data().len(),
            old(rd).spec_position() == pos + 4,
        ensures
            final(rd).data() == old(rd).data(),
            match r {
                Some(s) => spec_read_stream_info(old(rd).data().skip(pos + 4)) == Ok::<
                    StreamInfoView,
                    ErrorKind,
                >(s@) && pos + 42 <= old(rd).data().len() && final(rd).spec_position() == pos + 42,
                None => spec_read_stream_info(old(rd).data().skip(pos + 4)) is Err,
            },
    {
        reveal(spec_read_stream_info);
        let source_len: usize = rd.remaining_len();
        let mut limited: Limited<Cursor<'_>> = Limited::new(*rd, u64::MAX);
        assert(limited.window() =~= rd.data().skip(pos + 4));
        match StreamInfo::read_block(&mut limited) {
            Ok(s) => {
                *rd = limited.into_inner();
                Some(s)
            },
            Err(_) => None,
        }
    }

    /// Reads the ID3v2 tag at `pos`, if there is one.
    fn tag_at(rd: &mut Cursor<'_>, pos: u64) -> (r: Result<Option<(Tag, u32)>, Error>)
        requires
            pos <= old(rd).data().len(),
        ensures
            final(rd).data() == old(rd).data(),
            match r {
                Ok(Some((t, n))) => spec_read_tag(old(rd).data().skip(pos as int)) matches Ok(p)
                    && p.0 == t@ && p.1 == n,
                Ok(None) => spec_read_tag(old(rd).data().skip(pos as int)) matches Err(e) && e
                    != ErrorKind::Unsupported,
                Err(e) => spec_read_tag(old(rd).data().skip(pos as int)) == Err::<
                    (TagView, u32, nat),
                    ErrorKind,
                >(ErrorKind::Unsupported) && e.kind == ErrorKind::Unsupported,
            },
    {
        let file_len: usize = rd.len();
        rd.set_position(pos);
        assert(crate::id3::v2::limited_window(*rd, Some((file_len as u64 - pos) as u64))
            =~= rd.data().skip(pos as int));
        match Tag::read(rd, Some(file_len as u64 - pos)) {
            Ok(found) => Ok(Some(found)),
            Err(e) => match e.kind() {
                ErrorKind::Unsupported => Err(e),
                _ => Ok(None),
            },
        }
    }

    /// Tells whether the stream marker stands at `pos`, and leaves the
    /// position behind it.
    fn marker_at(rd: &mut Cursor<'_>, pos: u64) -> (r: Result<bool, Error>)
        ensures
            final(rd).data() == old(rd).data(),
            match r {
                Ok(found) => pos + 4 <= old(rd).data().len() && found == is_marker(
                    old(rd).data(),
                    pos as int,
                ) && final(rd).spec_position() == pos + 4,
                Err(e) => pos + 4 > old(rd).data().len() && e.kind == ErrorKind::UnexpectedEof,
            },
    {
        rd.set_position(pos);
        let magic: &[u8] = match rd.take_exact(4) {
            Ok(b) => b,
            Err(e) => {
                return Err(e);
            },
        };
        let ghost rest = rd.data().skip(pos as int);
        assert(magic@[0] == rest[0] && magic@[1] == rest[1] && magic@[2] == rest[2] && magic@[3]
            == rest[3]);
        Ok(magic[0] == 0x66 && magic[1] == 0x4c && magic[2] == 0x61 && magic[3] == 0x43)
    }

    /// Finds the stream marker and the stream info behind it, and the
    /// ID3v2 tag before them.
    #[verifier::rlimit(30)]
    fn find_stream(rd: &mut Cursor<'_>) -> (r: Result<(StreamInfo, u64, Option<Tag>), Error>)
        ensures
            final(rd).data() == old(rd).data(),
            match r {
                Ok((s, pos, tag)) => spec_find_stream(old(rd).data(), 0, None) == Ok::<
                    (StreamInfoView, int, Option<TagView>),
                    ErrorKind,
                >(
                    (
                        s@,
                        pos as int,
                        match tag {
                            Some(t) => Some(t@),
                            None => None,
                        },
                    ),
                ) && pos < SCAN_LIMIT && pos + 42 <= old(rd).data().len()
                    && final(rd).spec_position() == pos + 42,
                Err(e) => spec_find_stream(old(rd).data(), 0, None) == Err::<
                    (StreamInfoView, int, Option<TagView>),
                    ErrorKind,
                >(e.kind),
            },
    {
        let file_len: usize = rd.get_ref().len();
        let pos_limit: u64 = if (file_len as u64) < SCAN_LIMIT {
            file_len as u64
        } else {
            SCAN_LIMIT
        };
        let ghost data = rd.data();
        let mut id3v2: Option<Tag> = None;
        let mut pos: u64 = 0;
        loop
            invariant
                rd.data() == data,
                data == old(rd).data(),
                file_len == data.len(),
                pos_limit == scan_limit(data),
                spec_find_stream(data, 0, None) == spec_find_stream(
                    data,
                    pos as int,
                    match id3v2 {
                        Some(t) => Some(t@),
                        None => None,
                    },
                ),
            decreases minus(pos_limit as int, pos as int), if id3v2 is None { 1int } else { 0int },
        {
            if pos >= pos_limit {
                return Err(Error::new(ErrorKind::InvalidData, "couldn't stream info block"));
            }
            let found: bool = match Self::marker_at(rd, pos) {
                Ok(f) => f,
                Err(e) => {
                    return Err(e);
                },
            };
            if found {
                match Self::stream_info_at(rd, Ghost(pos)) {
                    Some(s) => {
                        return Ok((s, pos, id3v2));
                    },
                    None => {},
                }
            } else if id3v2.is_none() {
                match Self::tag_at(rd, pos) {
                    Ok(Some((tag, tag_len_bytes))) => {
                        id3v2 = Some(tag);
                        pos = pos + tag_len_bytes as u64;
                        continue ;
                    },
                    Ok(None) => {},
                    Err(e) => {
                        return Err(e);
                    },
                }
            }
            pos = pos + 1;
        }
    }

    /// Reads what is known of a FLAC file from its bytes.
    #[verifier::rlimit(30)]
    pub fn read(rd: &mut Cursor<'_>) -> (r: Result<Flac, Error>)
        ensures
            final(rd).data() == old(rd).data(),
            spec_read_flac(old(rd).data()) == (match r {
                Ok(f) => Ok::<FlacView, ErrorKind>(f@),
                Err(e) => Err::<FlacView, ErrorKind>(e.kind),
            }),
    {
        let ghost data = rd.data();
        let file_len: usize = rd.get_ref().len();
        let id3v1: Option<Id3v1> = match Id3v1::read(rd) {
            Ok(t) => Some(t),
            Err(_) => None,
        };
        let (stream_info, pos, id3v2) = match Self::find_stream(rd) {
            Ok(f) => f,
            Err(e) => {
                return Err(e);
            },
        };
        let left: usize = rd.remaining_len();
        let mut limited: Limited<Cursor<'_>> = Limited::new(*rd, left as u64);
        assert(limited.window() =~= tail(data, pos + 42));
        let (blocks, left) = match read_blocks(&mut limited) {
            Ok(b) => b,
            Err(e) => {
                return Err(e);
            },
        };
        let id3v1_len: u64 = match &id3v1 {
            Some(t) => t.len() as u64,
            None => 0,
        };
        // The stream info block counts as audio: only the later blocks do
        // not.
        let after_marker: u64 = left + 38;
        let audio_len_bytes: u64 = if after_marker >= id3v1_len {
            after_marker - id3v1_len
        } else {
            0
        };
        let Blocks { cue_sheet, pictures, vcomment } = blocks;
        Ok(Flac { stream_info, audio_len_bytes, cue_sheet, pictures, id3v1, id3v2, vcomment })
    }
}

} // verus!
