//! The side information of streams of variable bitrate.

use vstd::prelude::*;

use crate::error::{Error, ErrorKind};
use crate::mpeg::{ChannelMode, Header, Version};
use crate::util::bit_stream::{bits_value, BitReader};
use crate::util::bits::{bit_u32, get_bit_u32, spec_be_u16, spec_be_u32};
use crate::util::limited::{Cursor, Limited};

verus! {

/// The number of bytes that a read of `n` bytes takes of `w`: all `n`
/// where they are there, else all that is left, for a read that meets the
/// end of the data uses it up.
pub open spec fn taken(w: Seq<u8>, n: nat) -> nat {
    if n <= w.len() {
        n
    } else {
        w.len()
    }
}

/// The version text of a LAME encoder: nine bytes that start with `LAME`
/// or `L3.99`.
#[derive(Clone, Copy, Debug, PartialEq, Eq)]
pub struct LameVersion([u8; 9]);

/// Whether nine bytes are the version text of a LAME encoder.
pub open spec fn is_lame_version(b: Seq<u8>) -> bool {
    ||| b[0] == 0x4c && b[1] == 0x41 && b[2] == 0x4d && b[3] == 0x45
    ||| b[0] == 0x4c && b[1] == 0x33 && b[2] == 0x2e && b[3] == 0x39 && b[4] == 0x39
}

/// An ASCII character as it is, a question mark for any other byte.
pub open spec fn printable(b: u8) -> char {
    if b < 0x80 {
        b as char
    } else {
        '?'
    }
}

/// The text that the bytes of a version hold: the bytes up to the first
/// zero byte, each an ASCII character or else a question mark.
pub open spec fn spec_version_text(b: Seq<u8>) -> Seq<char>
    decreases b.len(),
{
    if b.len() == 0 || b[0] == 0 {
        Seq::empty()
    } else {
        seq![printable(b[0])] + spec_version_text(b.skip(1))
    }
}

impl View for LameVersion {
    type V = Seq<u8>;

    closed spec fn view(&self) -> Seq<u8> {
        self.0@
    }
}

impl LameVersion {
    pub fn from_bytes(buf: [u8; 9]) -> (r: Option<LameVersion>)
        ensures
            r is Some <==> is_lame_version(buf@),
            r matches Some(v) ==> v@ == buf@,
    {
        if (buf[0] == 0x4c && buf[1] == 0x41 && buf[2] == 0x4d && buf[3] == 0x45) || (buf[0] == 0x4c
            && buf[1] == 0x33 && buf[2] == 0x2e && buf[3] == 0x39 && buf[4] == 0x39) {
            Some(LameVersion(buf))
        } else {
            None
        }
    }

    /// The text: the bytes up to the first zero byte, each an ASCII
    /// character or else a question mark.
    pub fn to_string(&self) -> (r: String)
        ensures
            r@ == spec_version_text(self@),
    {
        let mut r: String = String::new();
        let mut i: usize = 0;
        assert(self.0@.skip(0) =~= self.0@);
        while i < 9 && self.0[i] != 0
            invariant
                i <= 9,
                self.0@.len() == 9,
                r@ + spec_version_text(self.0@.skip(i as int)) == spec_version_text(self.0@),
            decreases 9 - i,
        {
            let c: u8 = self.0[i];
            let ghost before = r@;
            let ghost rest = self.0@.skip(i as int);
            r.push(if c < 0x80 {
                c as char
            } else {
                '?'
            });
            proof {
                assert(rest.skip(1) =~= self.0@.skip(i + 1));
                assert(before + (seq![printable(c)] + spec_version_text(rest.skip(1))) =~= r@
                    + spec_version_text(self.0@.skip(i + 1)));
            }
            i += 1;
        }
        proof {
            assert(r@ + Seq::<char>::empty() =~= r@);
        }
        r
    }

    /// The nine bytes of the text.
    pub fn to_bytes(&self) -> (r: [u8; 9])
        ensures
            r@ == self@,
    {
        self.0
    }

    /// Reads the nine bytes of a version text.
    pub fn read(rd: &mut Limited<Cursor<'_>>) -> (r: Result<LameVersion, Error>)
        ensures
            match r {
                Ok(v) => old(rd).window().len() >= 9 && is_lame_version(old(rd).window()) && v@
                    == old(rd).window().take(9) && final(rd).advanced(old(rd), 9)
                        && final(rd).window() == old(rd).window().skip(9),
                Err(e) => if old(rd).window().len() < 9 {
                    e.kind == ErrorKind::UnexpectedEof
                } else {
                    !is_lame_version(old(rd).window()) && e.kind == ErrorKind::InvalidData
                },
            },
            final(rd).window() == old(rd).window().skip(taken(old(rd).window(), 9) as int),
    {
        let b: &[u8] = match rd.take_exact(9) {
            Ok(b) => b,
            Err(e) => {
                assert(rd.window() =~= old(rd).window().skip(old(rd).window().len() as int));
                return Err(e);
            },
        };
        let buf: [u8; 9] = [b[0], b[1], b[2], b[3], b[4], b[5], b[6], b[7], b[8]];
        assert(buf@ =~= b@);
        match LameVersion::from_bytes(buf) {
            Some(v) => Ok(v),
            None => Err(Error::new(ErrorKind::InvalidData, "bad LAME version")),
        }
    }
}

/// The record that a LAME encoder leaves behind its version text.
///
/// The peak and the two gain adjustments are held as the integers of the
/// record: the peak in units of `2^-23`, an adjustment in tenths of a
/// decibel.
#[derive(Clone, Copy, Debug, PartialEq, Eq, Structural)]
pub struct Lame {
    pub vbr_method: u8,
    /// The cutoff of the lowpass filter in Hz.
    pub lowpass_filter: u16,
    /// The peak of the track in units of `2^-23`, where it is known.
    pub track_peak: Option<u32>,
    pub track_gain_origin: u8,
    /// The gain adjustment of the track in tenths of a decibel.
    pub track_gain_adjustment: Option<i16>,
    pub album_gain_origin: u8,
    /// The gain adjustment of the album in tenths of a decibel.
    pub album_gain_adjustment: Option<i16>,
    pub encoding_flags: u8,
    pub ath: u8,
    pub kbits_per_sec: u8,
    pub encoder_delay_start: u16,
    pub encoder_padding_end: u16,
    pub source_sample_frequency_enum: u8,
    pub unwise_setting_used: bool,
    pub stereo_mode: u8,
    pub noise_shaping: u8,
    /// Applied MP3 gain -127..127. Factor is 2 ** (mp3_gain / 4).
    pub mp3_gain: i8,
    pub surround_info: u8,
    pub preset_used: u16,
    /// Length in bytes excluding any ID3 tags.
    pub music_length: u32,
    /// CRC16 of the data specified by music_length.
    pub music_crc: u16,
    /// CRC16 of this header and everything before.
    pub header_crc: u16,
}

/// A number from its sign bit and its magnitude.
pub open spec fn signed(sign: nat, magnitude: nat) -> int {
    if sign == 0 {
        magnitude as int
    } else {
        -(magnitude as int)
    }
}

/// A gain adjustment: the ten bits at `at` hold a sign and a magnitude,
/// and count only where the three bits of kind before the origin say that
/// the slot holds a gain of the kind `expected`.
pub open spec fn spec_gain(b: Seq<u8>, at: int, expected: nat) -> Option<i16> {
    if bits_value(b, at, 3) == expected {
        Some(signed(bits_value(b, at + 6, 1), bits_value(b, at + 7, 9)) as i16)
    } else {
        None
    }
}

/// The record that 27 bytes hold, field after field from the first bit
/// on. The first four bits are the revision, which must be 0.
pub open spec fn spec_decode_lame(b: Seq<u8>) -> Result<Lame, ErrorKind> {
    if bits_value(b, 0, 4) != 0 {
        Err(ErrorKind::InvalidData)
    } else {
        Ok(
            Lame {
                vbr_method: bits_value(b, 4, 4) as u8,
                lowpass_filter: (bits_value(b, 8, 8) * 100) as u16,
                track_peak: if bits_value(b, 16, 32) == 0 {
                    None
                } else {
                    Some(bits_value(b, 16, 32) as u32)
                },
                track_gain_origin: bits_value(b, 51, 3) as u8,
                track_gain_adjustment: spec_gain(b, 48, 1),
                album_gain_origin: bits_value(b, 67, 3) as u8,
                album_gain_adjustment: spec_gain(b, 64, 2),
                encoding_flags: bits_value(b, 80, 4) as u8,
                ath: bits_value(b, 84, 4) as u8,
                kbits_per_sec: bits_value(b, 88, 8) as u8,
                encoder_delay_start: bits_value(b, 96, 12) as u16,
                encoder_padding_end: bits_value(b, 108, 12) as u16,
                source_sample_frequency_enum: bits_value(b, 120, 2) as u8,
                unwise_setting_used: bits_value(b, 122, 1) != 0,
                stereo_mode: bits_value(b, 123, 3) as u8,
                noise_shaping: bits_value(b, 126, 2) as u8,
                mp3_gain: signed(bits_value(b, 128, 1), bits_value(b, 129, 7)) as i8,
                surround_info: bits_value(b, 138, 3) as u8,
                preset_used: bits_value(b, 141, 11) as u16,
                music_length: bits_value(b, 152, 32) as u32,
                music_crc: bits_value(b, 184, 16) as u16,
                header_crc: bits_value(b, 200, 16) as u16,
            },
        )
    }
}

fn read_i8(brd: &mut BitReader<'_>) -> (r: i8)
    requires
        old(brd).spec_pos() + 8 <= 8 * old(brd).data().len(),
        old(brd).spec_pos() + 8 <= usize::MAX,
    ensures
        final(brd).data() == old(brd).data(),
        final(brd).spec_pos() == old(brd).spec_pos() + 8,
        r == signed(
            bits_value(old(brd).data(), old(brd).spec_pos() as int, 1),
            bits_value(old(brd).data(), old(brd).spec_pos() + 1, 7),
        ),
{
    let sign: u8 = match brd.read_u8(1) {
        Ok(v) => v,
        Err(_) => 0,
    };
    let v: u8 = match brd.read_u8(7) {
        Ok(v) => v,
        Err(_) => 0,
    };
    proof {
        crate::util::bit_stream::lemma_bits_value_bound(
            old(brd).data(),
            old(brd).spec_pos() + 1,
            7,
        );
        vstd::arithmetic::power2::lemma2_to64();
    }
    if sign == 0 {
        v as i8
    } else {
        -(v as i8)
    }
}

fn read_gain(brd: &mut BitReader<'_>, gain_kind: u8) -> (r: (u8, Option<i16>))
    requires
        old(brd).spec_pos() + 16 <= 8 * old(brd).data().len(),
        old(brd).spec_pos() + 16 <= usize::MAX,
    ensures
        final(brd).data() == old(brd).data(),
        final(brd).spec_pos() == old(brd).spec_pos() + 16,
        r.0 == bits_value(old(brd).data(), old(brd).spec_pos() + 3, 3),
        r.1 == spec_gain(old(brd).data(), old(brd).spec_pos() as int, gain_kind as nat),
{
    let kind: u8 = match brd.read_u8(3) {
        Ok(v) => v,
        Err(_) => 0,
    };
    let origin: u8 = match brd.read_u8(3) {
        Ok(v) => v,
        Err(_) => 0,
    };
    let sign: u8 = match brd.read_u8(1) {
        Ok(v) => v,
        Err(_) => 0,
    };
    let magnitude: u16 = match brd.read_u16(9) {
        Ok(v) => v,
        Err(_) => 0,
    };
    proof {
        crate::util::bit_stream::lemma_bits_value_bound(
            old(brd).data(),
            old(brd).spec_pos() + 7,
            9,
        );
        vstd::arithmetic::power2::lemma2_to64();
    }
    let adjustment: i16 = if sign == 0 {
        magnitude as i16
    } else {
        -(magnitude as i16)
    };
    (
        origin,
        if kind == gain_kind {
            Some(adjustment)
        } else {
            None
        },
    )
}

impl Lame {
    /// Reads the 27 bytes of the record and decodes them.
    pub fn read(rd: &mut Limited<Cursor<'_>>) -> (r: Result<Lame, Error>)
        ensures
            match r {
                Ok(l) => old(rd).window().len() >= 27 && spec_decode_lame(
                    old(rd).window().take(27),
                ) == Ok::<Lame, ErrorKind>(l) && final(rd).advanced(old(rd), 27)
                    && final(rd).window() == old(rd).window().skip(27),
                Err(e) => if old(rd).window().len() < 27 {
                    e.kind == ErrorKind::UnexpectedEof
                } else {
                    spec_decode_lame(old(rd).window().take(27)) == Err::<Lame, ErrorKind>(e.kind)
                },
            },
            final(rd).window() == old(rd).window().skip(taken(old(rd).window(), 27) as int),
    {
        let buf: &[u8] = match rd.take_exact(27) {
            Ok(b) => b,
            Err(e) => {
                assert(rd.window() =~= old(rd).window().skip(old(rd).window().len() as int));
                return Err(e);
            },
        };
        Self::decode(buf)
    }

    /// Decodes the record from its 27 bytes.
    pub fn decode(buf: &[u8]) -> (r: Result<Lame, Error>)
        requires
            buf@.len() >= 27,
        ensures
            spec_decode_lame(buf@) == (match r {
                Ok(l) => Ok::<Lame, ErrorKind>(l),
                Err(e) => Err::<Lame, ErrorKind>(e.kind),
            }),
    {
        let mut brd: BitReader<'_> = BitReader::new(buf);
        let len: usize = buf.len();
        let revision: u8 = Self::bits8(&mut brd, 4);
        if revision != 0 {
            return Err(Error::new(ErrorKind::InvalidData, "bad LAME revision"));
        }
        let vbr_method: u8 = Self::bits8(&mut brd, 4);
        let lowpass: u16 = Self::bits16(&mut brd, 8);
        proof {
            crate::util::bit_stream::lemma_bits_value_bound(buf@, 8, 8);
            vstd::arithmetic::power2::lemma2_to64();
        }
        let lowpass_filter: u16 = lowpass * 100;
        let peak: u32 = Self::bits32(&mut brd, 32);
        let track_peak: Option<u32> = if peak == 0 {
            None
        } else {
            Some(peak)
        };
        let (track_gain_origin, track_gain_adjustment) = read_gain(&mut brd, 1);
        let (album_gain_origin, album_gain_adjustment) = read_gain(&mut brd, 2);
        let encoding_flags: u8 = Self::bits8(&mut brd, 4);
        let ath: u8 = Self::bits8(&mut brd, 4);
        let kbits_per_sec: u8 = Self::bits8(&mut brd, 8);
        let encoder_delay_start: u16 = Self::bits16(&mut brd, 12);
        let encoder_padding_end: u16 = Self::bits16(&mut brd, 12);
        let source_sample_frequency_enum: u8 = Self::bits8(&mut brd, 2);
        let unwise_setting_used: bool = Self::bits8(&mut brd, 1) != 0;
        let stereo_mode: u8 = Self::bits8(&mut brd, 3);
        let noise_shaping: u8 = Self::bits8(&mut brd, 2);
        let mp3_gain: i8 = read_i8(&mut brd);
        let _unused: u8 = Self::bits8(&mut brd, 2);
        let surround_info: u8 = Self::bits8(&mut brd, 3);
        let preset_used: u16 = Self::bits16(&mut brd, 11);
        let music_length: u32 = Self::bits32(&mut brd, 32);
        let music_crc: u16 = Self::bits16(&mut brd, 16);
        let header_crc: u16 = Self::bits16(&mut brd, 16);
        Ok(
            Lame {
                vbr_method,
                lowpass_filter,
                track_peak,
                track_gain_origin,
                track_gain_adjustment,
                album_gain_origin,
                album_gain_adjustment,
                encoding_flags,
                ath,
                kbits_per_sec,
                encoder_delay_start,
                encoder_padding_end,
                source_sample_frequency_enum,
                unwise_setting_used,
                stereo_mode,
                noise_shaping,
                mp3_gain,
                surround_info,
                preset_used,
                music_length,
                music_crc,
                header_crc,
            },
        )
    }

    fn bits8(brd: &mut BitReader<'_>, n: usize) -> (r: u8)
        requires
            0 < n <= 8,
            old(brd).spec_pos() + n <= 8 * old(brd).data().len(),
            old(brd).spec_pos() + n <= usize::MAX,
        ensures
            final(brd).data() == old(brd).data(),
            final(brd).spec_pos() == old(brd).spec_pos() + n,
            r == bits_value(old(brd).data(), old(brd).spec_pos() as int, n as nat),
    {
        match brd.read_u8(n) {
            Ok(v) => v,
            Err(_) => 0,
        }
    }

    fn bits16(brd: &mut BitReader<'_>, n: usize) -> (r: u16)
        requires
            0 < n <= 16,
            old(brd).spec_pos() + n <= 8 * old(brd).data().len(),
            old(brd).spec_pos() + n <= usize::MAX,
        ensures
            final(brd).data() == old(brd).data(),
            final(brd).spec_pos() == old(brd).spec_pos() + n,
            r == bits_value(old(brd).data(), old(brd).spec_pos() as int, n as nat),
    {
        match brd.read_u16(n) {
            Ok(v) => v,
            Err(_) => 0,
        }
    }

    fn bits32(brd: &mut BitReader<'_>, n: usize) -> (r: u32)
        requires
            0 < n <= 32,
            old(brd).spec_pos() + n <= 8 * old(brd).data().len(),
            old(brd).spec_pos() + n <= usize::MAX,
        ensures
            final(brd).data() == old(brd).data(),
            final(brd).spec_pos() == old(brd).spec_pos() + n,
            r == bits_value(old(brd).data(), old(brd).spec_pos() as int, n as nat),
    {
        match brd.read_u32(n) {
            Ok(v) => v,
            Err(_) => 0,
        }
    }
}

/// The side information of the Xing kind.
#[derive(Clone, Copy, Debug, PartialEq, Eq)]
pub struct Xing {
    pub stream_len_frames: Option<u32>,
    pub stream_len_bytes: Option<u32>,
    pub quality: Option<u32>,
    pub lame_version: Option<LameVersion>,
    pub lame: Option<Lame>,
}

pub struct XingView {
    pub stream_len_frames: Option<u32>,
    pub stream_len_bytes: Option<u32>,
    pub quality: Option<u32>,
    pub lame_version: Option<Seq<u8>>,
    pub lame: Option<Lame>,
}

impl View for Xing {
    type V = XingView;

    open spec fn view(&self) -> XingView {
        XingView {
            stream_len_frames: self.stream_len_frames,
            stream_len_bytes: self.stream_len_bytes,
            quality: self.quality,
            lame_version: match self.lame_version {
                Some(v) => Some(v@),
                None => None,
            },
            lame: self.lame,
        }
    }
}

/// An optional number of four bytes at `at`: present where the flag is
/// set. `None` where the bytes are missing, else the number, if any, and
/// the place behind it.
pub open spec fn spec_opt_u32(w: Seq<u8>, at: nat, present: bool) -> Option<(Option<u32>, nat)> {
    if !present {
        Some((None, at))
    } else if w.len() < at + 4 {
        None
    } else {
        Some((Some(spec_be_u32(w.skip(at as int))), at + 4))
    }
}

/// The version text of a LAME encoder at the start of `w`, if there is
/// one.
pub open spec fn spec_lame_version(w: Seq<u8>) -> Option<Seq<u8>> {
    if w.len() >= 9 && is_lame_version(w) {
        Some(w.take(9))
    } else {
        None
    }
}

/// The record of a LAME encoder at the start of `w`, if there is one.
pub open spec fn spec_lame(w: Seq<u8>) -> Option<Lame> {
    if w.len() >= 27 {
        match spec_decode_lame(w.take(27)) {
            Ok(l) => Some(l),
            Err(_) => None,
        }
    } else {
        None
    }
}

/// The numbers of the Xing side information in `w`, behind its magic,
/// and the place behind them. A word of flags says which fields follow,
/// in this order: the length of the stream in frames (bit 0), its length
/// in bytes (bit 1), a seek table of 100 bytes (bit 2), and the quality
/// (bit 3). `None` where the data ends before the last of them.
pub open spec fn spec_xing_fields(w: Seq<u8>) -> Option<
    (Option<u32>, Option<u32>, Option<u32>, nat),
> {
    if w.len() < 4 {
        None
    } else {
        let flags = spec_be_u32(w);
        match spec_opt_u32(w, 4, bit_u32(flags, 0)) {
            None => None,
            Some(frames) => match spec_opt_u32(w, frames.1, bit_u32(flags, 1)) {
                None => None,
                Some(bytes) => {
                    let toc_end = if bit_u32(flags, 2) {
                        bytes.1 + 100
                    } else {
                        bytes.1
                    };
                    if w.len() < toc_end {
                        None
                    } else {
                        match spec_opt_u32(w, toc_end, bit_u32(flags, 3)) {
                            None => None,
                            Some(quality) => Some((frames.0, bytes.0, quality.0, quality.1)),
                        }
                    }
                },
            },
        }
    }
}

/// The Xing side information in `w`, behind its magic: its numbers, and
/// behind them the version text of a LAME encoder and its record, where
/// they are there.
pub open spec fn spec_read_xing(w: Seq<u8>) -> Result<XingView, ErrorKind> {
    match spec_xing_fields(w) {
        None => Err(ErrorKind::UnexpectedEof),
        Some(f) => {
            let lame_version = spec_lame_version(w.skip(f.3 as int));
            Ok(
                XingView {
                    stream_len_frames: f.0,
                    stream_len_bytes: f.1,
                    quality: f.2,
                    lame_version,
                    lame: if lame_version is Some {
                        spec_lame(w.skip((f.3 + 9) as int))
                    } else {
                        None
                    },
                },
            )
        },
    }
}

/// The number of bytes that reading the Xing side information takes of
/// `w`: its numbers, the nine bytes of a version text behind them, and
/// behind a version text of a LAME encoder the 27 bytes of its record.
pub open spec fn spec_xing_len(w: Seq<u8>) -> nat {
    match spec_xing_fields(w) {
        None => w.len(),
        Some(f) => {
            let version_end = f.3 + taken(w.skip(f.3 as int), 9);
            if spec_lame_version(w.skip(f.3 as int)) is Some {
                version_end + taken(w.skip(version_end as int), 27)
            } else {
                version_end
            }
        },
    }
}

fn opt_u32(
    rd: &mut Limited<Cursor<'_>>,
    Ghost(w): Ghost<Seq<u8>>,
    Ghost(at): Ghost<nat>,
    present: bool,
) -> (r: Result<Option<u32>, Error>)
    requires
        at <= w.len(),
        old(rd).window() == w.skip(at as int),
    ensures
        match r {
            Ok(v) => spec_opt_u32(w, at, present) matches Some(p) && p.0 == v && final(rd).window()
                == w.skip(p.1 as int) && p.1 <= w.len(),
            Err(e) => spec_opt_u32(w, at, present) is None && e.kind == ErrorKind::UnexpectedEof,
        },
{
    if present {
        match rd.read_u32_be() {
            Ok(v) => {
                assert(w.skip(at as int).skip(4) =~= w.skip((at + 4) as int));
                Ok(Some(v))
            },
            Err(e) => Err(e),
        }
    } else {
        Ok(None)
    }
}

fn skip_toc(
    rd: &mut Limited<Cursor<'_>>,
    Ghost(w): Ghost<Seq<u8>>,
    Ghost(at): Ghost<nat>,
    present: bool,
) -> (r: Result<(), Error>)
    requires
        at <= w.len(),
        old(rd).window() == w.skip(at as int),
    ensures
        match r {
            Ok(_) => {
                let end = if present {
                    at + 100
                } else {
                    at
                };
                end <= w.len() && final(rd).window() == w.skip(end as int)
            },
            Err(e) => present && w.len() < at + 100 && e.kind == ErrorKind::UnexpectedEof,
        },
{
    if present {
        match rd.take_exact(100) {
            Ok(_) => {
                assert(w.skip(at as int).skip(100) =~= w.skip((at + 100) as int));
                Ok(())
            },
            Err(e) => Err(e),
        }
    } else {
        Ok(())
    }
}

fn xing_fields(rd: &mut Limited<Cursor<'_>>) -> (r: Result<
    (Option<u32>, Option<u32>, Option<u32>),
    Error,
>)
    ensures
        match r {
            Ok(f) => spec_xing_fields(old(rd).window()) matches Some(p) && p.0 == f.0 && p.1 == f.1
                && p.2 == f.2 && p.3 <= old(rd).window().len()
                    && final(rd).window() == old(rd).window().skip(p.3 as int),
            Err(e) => spec_xing_fields(old(rd).window()) is None && e.kind
                == ErrorKind::UnexpectedEof,
        },
{
    let ghost w = rd.window();
    let flags: u32 = match rd.read_u32_be() {
        Ok(v) => v,
        Err(e) => {
            return Err(e);
        },
    };
    let frames: Option<u32> = match opt_u32(rd, Ghost(w), Ghost(4), get_bit_u32(flags, 0)) {
        Ok(v) => v,
        Err(e) => {
            return Err(e);
        },
    };
    let ghost p1 = (spec_opt_u32(w, 4, bit_u32(flags, 0))->0).1;
    let bytes: Option<u32> = match opt_u32(rd, Ghost(w), Ghost(p1), get_bit_u32(flags, 1)) {
        Ok(v) => v,
        Err(e) => {
            return Err(e);
        },
    };
    let ghost p2 = (spec_opt_u32(w, p1, bit_u32(flags, 1))->0).1;
    match skip_toc(rd, Ghost(w), Ghost(p2), get_bit_u32(flags, 2)) {
        Ok(()) => {},
        Err(e) => {
            return Err(e);
        },
    }
    let ghost p3 = if bit_u32(flags, 2) {
        p2 + 100
    } else {
        p2
    };
    let quality: Option<u32> = match opt_u32(rd, Ghost(w), Ghost(p3), get_bit_u32(flags, 3)) {
        Ok(v) => v,
        Err(e) => {
            return Err(e);
        },
    };
    Ok((frames, bytes, quality))
}

impl Xing {
    /// Reads the Xing side information behind its magic.
    pub fn read(rd: &mut Limited<Cursor<'_>>) -> (r: Result<Box<Xing>, Error>)
        ensures
            spec_read_xing(old(rd).window()) == (match r {
                Ok(x) => Ok::<XingView, ErrorKind>(x@),
                Err(e) => Err::<XingView, ErrorKind>(e.kind),
            }),
            r is Ok ==> final(rd).window() == old(rd).window().skip(
                spec_xing_len(old(rd).window()) as int,
            ),
    {
        let ghost w = rd.window();
        let (stream_len_frames, stream_len_bytes, quality) = match xing_fields(rd) {
            Ok(f) => f,
            Err(e) => {
                return Err(e);
            },
        };
        let ghost at = (spec_xing_fields(w)->0).3;
        let lame_version: Option<LameVersion> = match LameVersion::read(rd) {
            Ok(v) => Some(v),
            Err(_) => None,
        };
        let ghost version_end = at + taken(w.skip(at as int), 9);
        assert(rd.window() =~= w.skip(version_end as int));
        let lame: Option<Lame> = if lame_version.is_some() {
            let lame: Option<Lame> = match Lame::read(rd) {
                Ok(v) => Some(v),
                Err(_) => None,
            };
            assert(rd.window() =~= w.skip(
                (version_end + taken(w.skip(version_end as int), 27)) as int,
            ));
            lame
        } else {
            None
        };
        Ok(Box::new(Xing { stream_len_frames, stream_len_bytes, quality, lame_version, lame }))
    }
}

/// The side information of the VBRI kind.
#[derive(Clone, Copy, Debug, PartialEq, Eq, Structural)]
pub struct Vbri {
    pub version: u16,
    pub quality: u16,
    pub stream_len_bytes: u32,
    pub stream_len_frames: u32,
}

/// The VBRI side information in `w`, behind its magic: a record of 22
/// bytes that holds the version, a delay, the quality, the length of the
/// stream in bytes and in frames, and the description of a table of
/// contents, whose entries must have two or four bytes.
pub open spec fn spec_read_vbri(w: Seq<u8>) -> Result<Vbri, ErrorKind> {
    if w.len() < 22 {
        Err(ErrorKind::UnexpectedEof)
    } else if spec_be_u16(w.skip(18)) != 2 && spec_be_u16(w.skip(18)) != 4 {
        Err(ErrorKind::InvalidData)
    } else {
        Ok(
            Vbri {
                version: spec_be_u16(w),
                quality: spec_be_u16(w.skip(4)),
                stream_len_bytes: spec_be_u32(w.skip(6)),
                stream_len_frames: spec_be_u32(w.skip(10)),
            },
        )
    }
}

/// The length of the table of contents that a VBRI record describes: the
/// number of its entries times the bytes of an entry.
pub open spec fn spec_toc_len(w: Seq<u8>) -> nat {
    (spec_be_u16(w.skip(14)) * spec_be_u16(w.skip(18))) as nat
}

/// The number of bytes that reading the VBRI side information takes of
/// `w`: the record of 22 bytes, and the table of contents behind it as far
/// as the data holds it.
pub open spec fn spec_vbri_len(w: Seq<u8>) -> nat {
    22 + taken(w.skip(22), spec_toc_len(w))
}

impl Vbri {
    /// Reads the VBRI side information behind its magic, and reads past
    /// its table of contents as far as the data holds it.
    pub fn read(rd: &mut Limited<Cursor<'_>>) -> (r: Result<Vbri, Error>)
        ensures
            spec_read_vbri(old(rd).window()) == (match r {
                Ok(v) => Ok::<Vbri, ErrorKind>(v),
                Err(e) => Err::<Vbri, ErrorKind>(e.kind),
            }),
            r is Ok ==> final(rd).window() == old(rd).window().skip(
                spec_vbri_len(old(rd).window()) as int,
            ),
    {
        let ghost w = rd.window();
        let buf: &[u8] = match rd.take_exact(22) {
            Ok(b) => b,
            Err(e) => {
                return Err(e);
            },
        };
        let version: u16 = Self::u16_at(buf, 0);
        let _delay: u16 = Self::u16_at(buf, 2);
        let quality: u16 = Self::u16_at(buf, 4);
        let stream_len_bytes: u32 = Self::u32_at(buf, 6);
        let stream_len_frames: u32 = Self::u32_at(buf, 10);
        let toc_entry_count: u16 = Self::u16_at(buf, 14);
        let _toc_scale: u16 = Self::u16_at(buf, 16);
        let toc_entry_len_bytes: u16 = Self::u16_at(buf, 18);
        proof {
            Self::lemma_same_numbers(w, buf@);
        }
        if toc_entry_len_bytes != 2 && toc_entry_len_bytes != 4 {
            return Err(Error::new(ErrorKind::InvalidData, "bad VBRI TOC len"));
        }
        let _toc_entry_len_frames: u16 = Self::u16_at(buf, 20);

        let toc_len: u32 = if toc_entry_len_bytes == 2 {
            2 * toc_entry_count as u32
        } else {
            4 * toc_entry_count as u32
        };
        let _toc: &[u8] = rd.take_up_to(toc_len as usize);
        assert(rd.window() =~= w.skip(spec_vbri_len(w) as int)) by {
            assert(toc_len == spec_toc_len(w)) by (nonlinear_arith)
                requires
                    toc_len == if toc_entry_len_bytes == 2 {
                        2 * toc_entry_count
                    } else {
                        4 * toc_entry_count
                    },
                    toc_entry_len_bytes == 2 || toc_entry_len_bytes == 4,
                    spec_toc_len(w) == toc_entry_count * toc_entry_len_bytes,
            ;
            let n = taken(w.skip(22), spec_toc_len(w));
            assert(w.skip(22).skip(n as int) =~= w.skip((22 + n) as int));
        }

        Ok(Vbri { version, quality, stream_len_bytes, stream_len_frames })
    }

    /// The numbers of the record are those at the same places of the
    /// window that it was taken from.
    proof fn lemma_same_numbers(w: Seq<u8>, buf: Seq<u8>)
        requires
            w.len() >= 22,
            buf == w.take(22),
        ensures
            spec_be_u16(buf) == spec_be_u16(w),
            spec_be_u16(buf.skip(4)) == spec_be_u16(w.skip(4)),
            spec_be_u32(buf.skip(6)) == spec_be_u32(w.skip(6)),
            spec_be_u32(buf.skip(10)) == spec_be_u32(w.skip(10)),
            spec_be_u16(buf.skip(18)) == spec_be_u16(w.skip(18)),
            spec_be_u16(buf.skip(14)) == spec_be_u16(w.skip(14)),
    {
    }

    fn u16_at(buf: &[u8], at: usize) -> (r: u16)
        requires
            at + 2 <= buf@.len(),
        ensures
            r == spec_be_u16(buf@.skip(at as int)),
    {
        let len: usize = buf.len();
        let b: &[u8] = vstd::slice::slice_subrange(buf, at, at + 2);
        assert(b@[0] == buf@.skip(at as int)[0] && b@[1] == buf@.skip(at as int)[1]);
        crate::util::bits::be_u16(b)
    }

    fn u32_at(buf: &[u8], at: usize) -> (r: u32)
        requires
            at + 4 <= buf@.len(),
        ensures
            r == spec_be_u32(buf@.skip(at as int)),
    {
        let len: usize = buf.len();
        let b: &[u8] = vstd::slice::slice_subrange(buf, at, at + 4);
        assert(b@[0] == buf@.skip(at as int)[0] && b@[1] == buf@.skip(at as int)[1] && b@[2]
            == buf@.skip(at as int)[2] && b@[3] == buf@.skip(at as int)[3]);
        crate::util::bits::be_u32(b)
    }
}

/// The side information that a stream of variable bitrate carries in its
/// first frame.
#[derive(Clone, Debug, PartialEq, Eq)]
pub enum Vbr {
    Xing(Box<Xing>),
    Vbri(Vbri),
}

pub enum VbrView {
    Xing(XingView),
    Vbri(Vbri),
}

impl View for Vbr {
    type V = VbrView;

    open spec fn view(&self) -> VbrView {
        match self {
            Vbr::Xing(x) => VbrView::Xing(x@),
            Vbr::Vbri(v) => VbrView::Vbri(*v),
        }
    }
}

impl VbrView {
    pub open spec fn stream_len_bytes(self) -> Option<u32> {
        match self {
            VbrView::Xing(v) => v.stream_len_bytes,
            VbrView::Vbri(v) => Some(v.stream_len_bytes),
        }
    }

    pub open spec fn stream_len_frames(self) -> Option<u32> {
        match self {
            VbrView::Xing(v) => v.stream_len_frames,
            VbrView::Vbri(v) => Some(v.stream_len_frames),
        }
    }

    pub open spec fn lame(self) -> Option<Lame> {
        match self {
            VbrView::Xing(v) => v.lame,
            VbrView::Vbri(_) => None,
        }
    }
}

/// The side information at the start of `w`: of the Xing kind behind the
/// magic `Xing` or `Info`, of the VBRI kind behind the magic `VBRI`.
pub open spec fn spec_read_vbr(w: Seq<u8>) -> Result<VbrView, ErrorKind> {
    if w.len() < 4 {
        Err(ErrorKind::UnexpectedEof)
    } else if (w[0] == 0x58 && w[1] == 0x69 && w[2] == 0x6e && w[3] == 0x67) || (w[0] == 0x49
        && w[1] == 0x6e && w[2] == 0x66 && w[3] == 0x6f) {
        match spec_read_xing(w.skip(4)) {
            Ok(x) => Ok(VbrView::Xing(x)),
            Err(e) => Err(e),
        }
    } else if w[0] == 0x56 && w[1] == 0x42 && w[2] == 0x52 && w[3] == 0x49 {
        match spec_read_vbri(w.skip(4)) {
            Ok(v) => Ok(VbrView::Vbri(v)),
            Err(e) => Err(e),
        }
    } else {
        Err(ErrorKind::BadMagic)
    }
}

/// The number of bytes that reading the side information takes of `w`:
/// the magic and what stands behind it.
pub open spec fn spec_vbr_len(w: Seq<u8>) -> nat {
    if w[0] == 0x56 {
        4 + spec_vbri_len(w.skip(4))
    } else {
        4 + spec_xing_len(w.skip(4))
    }
}

/// The distance of the side information from the start of the first
/// frame, by version and channel mode.
pub open spec fn spec_offset(header: Header) -> u64 {
    if header.version == Version::V1 {
        if header.channel_mode == ChannelMode::Mono {
            21
        } else {
            36
        }
    } else {
        if header.channel_mode == ChannelMode::Mono {
            13
        } else {
            21
        }
    }
}

impl Vbr {
    pub fn stream_len_bytes(&self) -> (r: Option<u32>)
        ensures
            r == self@.stream_len_bytes(),
    {
        match self {
            Vbr::Xing(v) => v.stream_len_bytes,
            Vbr::Vbri(v) => Some(v.stream_len_bytes),
        }
    }

    pub fn stream_len_frames(&self) -> (r: Option<u32>)
        ensures
            r == self@.stream_len_frames(),
    {
        match self {
            Vbr::Xing(v) => v.stream_len_frames,
            Vbr::Vbri(v) => Some(v.stream_len_frames),
        }
    }

    /// The record of the LAME encoder, where the side information holds
    /// one.
    pub fn lame(&self) -> (r: Option<Lame>)
        ensures
            r == self@.lame(),
    {
        match self {
            Vbr::Xing(v) => v.lame,
            Vbr::Vbri(_) => None,
        }
    }

    pub fn as_xing(&self) -> (r: Option<&Xing>)
        ensures
            match r {
                Some(x) => self@ == VbrView::Xing(x@),
                None => self@ is Vbri,
            },
    {
        match self {
            Vbr::Xing(v) => Some(&**v),
            Vbr::Vbri(_) => None,
        }
    }

    pub fn as_vbri(&self) -> (r: Option<&Vbri>)
        ensures
            match r {
                Some(v) => self@ == VbrView::Vbri(*v),
                None => self@ is Xing,
            },
    {
        match self {
            Vbr::Xing(_) => None,
            Vbr::Vbri(v) => Some(v),
        }
    }

    /// Reads the side information at the position of `rd`.
    pub fn read(rd: &mut Limited<Cursor<'_>>) -> (r: Result<Vbr, Error>)
        ensures
            spec_read_vbr(old(rd).window()) == (match r {
                Ok(v) => Ok::<VbrView, ErrorKind>(v@),
                Err(e) => Err::<VbrView, ErrorKind>(e.kind),
            }),
            r is Ok ==> final(rd).window() == old(rd).window().skip(
                spec_vbr_len(old(rd).window()) as int,
            ),
    {
        let ghost w = rd.window();
        let tag: &[u8] = match rd.take_exact(4) {
            Ok(b) => b,
            Err(e) => {
                return Err(e);
            },
        };
        if (tag[0] == 0x58 && tag[1] == 0x69 && tag[2] == 0x6e && tag[3] == 0x67) || (tag[0] == 0x49
            && tag[1] == 0x6e && tag[2] == 0x66 && tag[3] == 0x6f) {
            match Xing::read(rd) {
                Ok(x) => {
                    assert(w.skip(4).skip(spec_xing_len(w.skip(4)) as int) =~= w.skip(
                        (4 + spec_xing_len(w.skip(4))) as int,
                    ));
                    Ok(Vbr::Xing(x))
                },
                Err(e) => Err(e),
            }
        } else if tag[0] == 0x56 && tag[1] == 0x42 && tag[2] == 0x52 && tag[3] == 0x49 {
            match Vbri::read(rd) {
                Ok(v) => {
                    assert(w.skip(4).skip(spec_vbri_len(w.skip(4)) as int) =~= w.skip(
                        (4 + spec_vbri_len(w.skip(4))) as int,
                    ));
                    Ok(Vbr::Vbri(v))
                },
                Err(e) => Err(e),
            }
        } else {
            Err(Error::new(ErrorKind::BadMagic, "bad magic"))
        }
    }

    /// The distance of the side information from the start of the first
    /// frame.
    pub fn offset(header: &Header) -> (r: u64)
        ensures
            r == spec_offset(*header),
    {
        match header.version {
            Version::V1 => match header.channel_mode {
                ChannelMode::Mono => 21,
                _ => 36,
            },
            _ => match header.channel_mode {
                ChannelMode::Mono => 13,
                _ => 21,
            },
        }
    }
}

} // verus!
