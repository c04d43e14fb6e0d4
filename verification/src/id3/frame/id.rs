//! The identifiers of frames.

use vstd::prelude::*;

verus! {

/// The identifier of a frame: four ASCII bytes, or three followed by a zero
/// byte for the short identifiers of version 2.2, packed into one number with
/// the first byte on top. The constants name the packed numbers of the
/// standard frames.
#[derive(Clone, Copy, Debug, PartialEq, Eq, Structural, PartialOrd, Ord, Hash)]
pub struct FrameId(u32);

/// Four bytes packed into one number, the first byte on top.
pub open spec fn pack4(b0: u8, b1: u8, b2: u8, b3: u8) -> u32 {
    (b0 as int * 0x100_0000 + b1 as int * 0x1_0000 + b2 as int * 0x100 + b3 as int) as u32
}

impl FrameId {
    /// The packed identifier.
    pub closed spec fn value(&self) -> u32 {
        self.0
    }

    /// The `i`-th byte of the identifier.
    pub open spec fn byte(&self, i: int) -> u8 {
        if i == 0 {
            (self.value() / 0x100_0000) as u8
        } else if i == 1 {
            ((self.value() / 0x1_0000) % 0x100) as u8
        } else if i == 2 {
            ((self.value() / 0x100) % 0x100) as u8
        } else {
            (self.value() % 0x100) as u8
        }
    }

    pub open spec fn spec_is_v22(&self) -> bool {
        self.byte(3) == 0
    }

    pub open spec fn spec_is_prefixed(&self, prefix: u8) -> bool {
        self.byte(0) == prefix
    }

    pub open spec fn spec_is_text(&self) -> bool {
        self.byte(0) == 0x54 && self.value() != Self::USER_TEXT
    }

    pub open spec fn spec_is_url(&self) -> bool {
        self.byte(0) == 0x57 && self.value() != Self::USER_URL
    }

    // Text frames.

    /// `TBPM`
    pub const BPM: u32 = 0x5442504d;

    /// `TALB`
    pub const ALBUM: u32 = 0x54414c42;

    /// `TCOM`
    pub const COMPOSER: u32 = 0x54434f4d;

    /// `TCON`
    pub const CONTENT_TYPE: u32 = 0x54434f4e;

    /// `TCOP`
    pub const COPYRIGHT: u32 = 0x54434f50;

    /// `TDEN`
    pub const ENCODED_TS: u32 = 0x5444454e;

    /// `TDLY`
    pub const DELAY: u32 = 0x54444c59;

    /// `TDOR`
    pub const ORIGINAL_RELEASE_TS: u32 = 0x54444f52;

    /// `TDRC`: named a recording time by the standard, in practice the release time
    pub const RELEASE_TS: u32 = 0x54445243;

    /// `TDRL`
    pub const RELEASE_TS_RFC: u32 = 0x5444524c;

    /// `TDRL`
    pub const TAGGING_TS: u32 = 0x5444524c;

    /// `TENC`
    pub const ENCODED_BY: u32 = 0x54454e43;

    /// `TEXT`
    pub const LYRICIST: u32 = 0x54455854;

    /// `TFLT`
    pub const FILE_TYPE: u32 = 0x54464c54;

    /// `TIT1`
    pub const GROUP_TITLE: u32 = 0x54495431;

    /// `TIT2`
    pub const TITLE: u32 = 0x54495432;

    /// `TIT3`
    pub const SUBTITLE: u32 = 0x54495433;

    /// `TIPL`
    pub const PEOPLE: u32 = 0x5449504c;

    /// `TKEY`
    pub const INITIAL_KEY: u32 = 0x544b4559;

    /// `TLAN`
    pub const LANGUAGE: u32 = 0x544c414e;

    /// `TLEN`
    pub const LENGTH: u32 = 0x544c454e;

    /// `TMCL`
    pub const PERFORMERS: u32 = 0x544d434c;

    /// `TMED`
    pub const MEDIA_TYPE: u32 = 0x544d4544;

    /// `TMOO`
    pub const MOOD: u32 = 0x544d4f4f;

    /// `TOAL`
    pub const ORIGINAL_ALBUM: u32 = 0x544f414c;

    /// `TOFN`
    pub const ORIGINAL_FILENAME: u32 = 0x544f464e;

    /// `TOLY`
    pub const ORIGINAL_LYRICIST: u32 = 0x544f4c59;

    /// `TOPE`
    pub const ORIGINAL_ARTIST: u32 = 0x544f5045;

    /// `TOWN`
    pub const OWNER: u32 = 0x544f574e;

    /// `TPE1`
    pub const ARTIST: u32 = 0x54504531;

    /// `TPE2`
    pub const ALBUM_ARTIST: u32 = 0x54504532;

    /// `TPE3`
    pub const CONDUCTOR: u32 = 0x54504533;

    /// `TPE4`
    pub const REMIXER: u32 = 0x54504534;

    /// `TPOS`
    pub const DISC: u32 = 0x54504f53;

    /// `TPRO`
    pub const PRODUCED_NOTICE: u32 = 0x5450524f;

    /// `TPUB`
    pub const PUBLISHER: u32 = 0x54505542;

    /// `TRSN`
    pub const RADIO_STATION: u32 = 0x5452534e;

    /// `TRSO`
    pub const RADIO_STATION_NAME: u32 = 0x5452534f;

    /// `TSRC`
    pub const ISRC: u32 = 0x54535243;

    /// `TSST`
    pub const DISC_SUBTITLE: u32 = 0x54535354;

    /// `TRCK`
    pub const TRACK: u32 = 0x5452434b;

    /// `TSOA`
    pub const ALBUM_SORT_ORDER: u32 = 0x54534f41;

    /// `TSOP`
    pub const ARTIST_SORT_ORDER: u32 = 0x54534f50;

    /// `TSOT`
    pub const TITLE_SORT_ORDER: u32 = 0x54534f54;

    /// `TSSE`
    pub const ENCODER_SETTINGS: u32 = 0x54535345;

    /// `TXXX`
    pub const USER_TEXT: u32 = 0x54585858;

    // URL frames.

    /// `WCOM`
    pub const COMMERCIAL_URL: u32 = 0x57434f4d;

    /// `WCOP`
    pub const COPYRIGHT_URL: u32 = 0x57434f50;

    /// `WOAF`
    pub const AUDIO_FILE_URL: u32 = 0x574f4146;

    /// `WOAR`
    pub const ARTIST_URL: u32 = 0x574f4152;

    /// `WOAS`
    pub const AUDIO_SOURCE_URL: u32 = 0x574f4153;

    /// `WORS`
    pub const INTERNET_RADIO_URL: u32 = 0x574f5253;

    /// `WPAY`
    pub const PAYMENT_URL: u32 = 0x57504159;

    /// `WPUB`
    pub const PUBLISHER_URL: u32 = 0x57505542;

    /// `WXXX`
    pub const USER_URL: u32 = 0x57585858;

    // Misc frames.

    /// `AENC`
    pub const AUDIO_ENCRYPTION: u32 = 0x41454e43;

    /// `APIC`
    pub const ATTACHED_PICTURE: u32 = 0x41504943;

    /// `ASPI`
    pub const AUDIO_SEEK_POINT_INDEX: u32 = 0x41535049;

    /// `CHAP`
    pub const CHAPTER: u32 = 0x43484150;

    /// `COMM`
    pub const COMMENT: u32 = 0x434f4d4d;

    /// `COMR`
    pub const COMMERCIAL: u32 = 0x434f4d52;

    /// `ENCR`
    pub const ENCRYPTION: u32 = 0x454e4352;

    /// `EQU2`
    pub const EQUALIZATION: u32 = 0x45515532;

    /// `ETCO`
    pub const EVENT_TIMING_CODES: u32 = 0x4554434f;

    /// `GEOB`
    pub const GENERAL_ENCAP_OBJECT: u32 = 0x47454f42;

    /// `GRID`
    pub const GROUP_ID: u32 = 0x47524944;

    /// `IPLS` (version 2.3)
    pub const INVOLVED_PEOPLE_LIST: u32 = 0x49504c53;

    /// `LINK`
    pub const LINK: u32 = 0x4c494e4b;

    /// `MCDI`
    pub const MUSIC_CD_ID: u32 = 0x4d434449;

    /// `MLLT`
    pub const MPEG_LOCATION_LUT: u32 = 0x4d4c4c54;

    /// `OWNE`
    pub const OWNERSHIP: u32 = 0x4f574e45;

    /// `PRIV`
    pub const PRIVATE: u32 = 0x50524956;

    /// `PCNT`
    pub const PLAY_COUNTER: u32 = 0x50434e54;

    /// `POPM`
    pub const POPULARIMETER: u32 = 0x504f504d;

    /// `POSS`
    pub const POS_SYNC: u32 = 0x504f5353;

    /// `RBUF`
    pub const RECOMMENDED_BUF: u32 = 0x52425546;

    /// `RVA2`
    pub const RELATIVE_VOL_ADJUST: u32 = 0x52564132;

    /// `RVRB`
    pub const REVERB: u32 = 0x52565242;

    /// `SEEK`
    pub const SEEK: u32 = 0x5345454b;

    /// `SIGN`
    pub const SIGNATURE: u32 = 0x5349474e;

    /// `SYLT`
    pub const SYNC_LYRICS: u32 = 0x53594c54;

    /// `SYTC`
    pub const SYNC_TEMPO_CODES: u32 = 0x53595443;

    /// `UFID`
    pub const UNIQUE_FILE_ID: u32 = 0x55464944;

    /// `USER`
    pub const TERMS_OF_USE: u32 = 0x55534552;

    /// `USLT`
    pub const UNSYNC_LYRICS: u32 = 0x55534c54;

    // Obsolete frames.

    /// `TAL`
    pub const V22_ALBUM: u32 = 0x54414c00;

    /// `TBP`
    pub const V22_BPM: u32 = 0x54425000;

    /// `TCM`
    pub const V22_COMPOSER: u32 = 0x54434d00;

    /// `TCO`
    pub const V22_CONTENT_TYPE: u32 = 0x54434f00;

    /// `TCR`
    pub const V22_COPYRIGHT: u32 = 0x54435200;

    /// `TDY`
    pub const V22_DELAY: u32 = 0x54445900;

    /// `TEN`
    pub const V22_ENCODED_BY: u32 = 0x54454e00;

    /// `TXT`
    pub const V22_LYRICIST: u32 = 0x54585400;

    /// `TFT`
    pub const V22_FILE_TYPE: u32 = 0x54465400;

    /// `TT1`
    pub const V22_GROUP_TITLE: u32 = 0x54543100;

    /// `TT2`
    pub const V22_TITLE: u32 = 0x54543200;

    /// `TT3`
    pub const V22_SUBTITLE: u32 = 0x54543300;

    /// `IPL`
    pub const V22_PEOPLE: u32 = 0x49504c00;

    /// `TKE`
    pub const V22_INITIAL_KEY: u32 = 0x544b4500;

    /// `TLA`
    pub const V22_LANGUAGE: u32 = 0x544c4100;

    /// `TLE`
    pub const V22_LENGTH: u32 = 0x544c4500;

    /// `TMT`
    pub const V22_MEDIA_TYPE: u32 = 0x544d5400;

    /// `TOT`
    pub const V22_ORIGINAL_ALBUM: u32 = 0x544f5400;

    /// `TOF`
    pub const V22_ORIGINAL_FILENAME: u32 = 0x544f4600;

    /// `TOL`
    pub const V22_ORIGINAL_LYRICIST: u32 = 0x544f4c00;

    /// `TOA`
    pub const V22_ORIGINAL_ARTIST: u32 = 0x544f4100;

    /// `TORY`
    pub const V23_ORIGINAL_RELEASE_YEAR: u32 = 0x544f5259;

    /// `TP1`
    pub const V22_ARTIST: u32 = 0x54503100;

    /// `TP2`
    pub const V22_ALBUM_ARTIST: u32 = 0x54503200;

    /// `TP3`
    pub const V22_CONDUCTOR: u32 = 0x54503300;

    /// `TP4`
    pub const V22_REMIXER: u32 = 0x54503400;

    /// `TPA`
    pub const V22_DISC: u32 = 0x54504100;

    /// `TPB`
    pub const V22_PUBLISHER: u32 = 0x54504200;

    /// `TRC`
    pub const V22_ISRC: u32 = 0x54524300;

    /// `TRK`
    pub const V22_TRACK: u32 = 0x54524b00;

    /// `TSS`
    pub const V22_ENCODER_SETTINGS: u32 = 0x54535300;

    /// `TXX`
    pub const V22_USER_TEXT: u32 = 0x54585800;

    /// `TDA`
    pub const V22_DATE: u32 = 0x54444100;

    /// `TDAT`
    pub const V23_DATE: u32 = 0x54444154;

    /// `TIM`
    pub const V22_TIME: u32 = 0x54494d00;

    /// `TIME`
    pub const V23_TIME: u32 = 0x54494d45;

    /// `TRD`
    pub const V22_RECORDING_DATES: u32 = 0x54524400;

    /// `TRDA`
    pub const V23_RECORDING_DATES: u32 = 0x54524441;

    /// `TSI`
    pub const V22_SIZE: u32 = 0x54534900;

    /// `TSIZ`
    pub const V23_SIZE: u32 = 0x5453495a;

    /// `TYE`
    pub const V22_YEAR: u32 = 0x54594500;

    /// `TYER`
    pub const V23_YEAR: u32 = 0x54594552;

    /// `WCM`
    pub const V22_COMMERCIAL_URL: u32 = 0x57434d00;

    /// `WCP`
    pub const V22_COPYRIGHT_URL: u32 = 0x57435000;

    /// `WAF`
    pub const V22_AUDIO_FILE_URL: u32 = 0x57414600;

    /// `WAR`
    pub const V22_ARTIST_URL: u32 = 0x57415200;

    /// `WAS`
    pub const V22_AUDIO_SOURCE_URL: u32 = 0x57415300;

    /// `WPB`
    pub const V22_PUBLISHER_URL: u32 = 0x57504200;

    /// `WXX`
    pub const V22_USER_URL: u32 = 0x57585800;

    /// `CRA`
    pub const V22_AUDIO_ENCRYPTION: u32 = 0x43524100;

    /// `PIC`
    pub const V22_ATTACHED_PICTURE: u32 = 0x50494300;

    /// `COM`
    pub const V22_COMMENT: u32 = 0x434f4d00;

    /// `EQU`
    pub const V22_EQUALIZATION: u32 = 0x45515500;

    /// `EQUA`
    pub const V23_EQUALIZATION: u32 = 0x45515541;

    /// `ETC`
    pub const V22_EVENT_TIMING_CODES: u32 = 0x45544300;

    /// `GEO`
    pub const V22_GENERAL_ENCAP_OBJECT: u32 = 0x47454f00;

    /// `LNK`
    pub const V22_LINK: u32 = 0x4c4e4b00;

    /// `MCI`
    pub const V22_MUSIC_CD_ID: u32 = 0x4d434900;

    /// `MLL`
    pub const V22_MPEG_LOCATION_LUT: u32 = 0x4d4c4c00;

    /// `POP`
    pub const V22_POPULARIMETER: u32 = 0x504f5000;

    /// `RVAD`
    pub const V23_RELATIVE_VOL_ADJUST: u32 = 0x52564144;

    /// `RVA`
    pub const V22_RELATIVE_VOL_ADJUST: u32 = 0x52564100;

    /// `REV`
    pub const V22_REVERB: u32 = 0x52455600;

    /// `SLT`
    pub const V22_SYNC_LYRICS: u32 = 0x534c5400;

    /// `STC`
    pub const V22_SYNC_TEMPO_CODES: u32 = 0x53544300;

    /// `UFI`
    pub const V22_UNIQUE_FILE_ID: u32 = 0x55464900;

    /// `ULT`
    pub const V22_UNSYNC_LYRICS: u32 = 0x554c5400;

    /// The identifier with the given packed number.
    pub closed spec fn of(value: u32) -> FrameId {
        FrameId(value)
    }

    /// The identifier with the given packed number, such as one of the
    /// constants above.
    pub fn from_u32(value: u32) -> (r: FrameId)
        ensures
            r == Self::of(value),
            r.value() == value,
    {
        FrameId(value)
    }

    /// The identifier with the given bytes.
    pub closed spec fn spec_new(b0: u8, b1: u8, b2: u8, b3: u8) -> FrameId {
        FrameId(pack4(b0, b1, b2, b3))
    }

    pub fn new(v: [u8; 4]) -> (r: FrameId)
        ensures
            r == Self::spec_new(v[0], v[1], v[2], v[3]),
            r.value() == pack4(v[0], v[1], v[2], v[3]),
            r.byte(0) == v[0],
            r.byte(1) == v[1],
            r.byte(2) == v[2],
            r.byte(3) == v[3],
    {
        let b0: u32 = v[0] as u32;
        let b1: u32 = v[1] as u32;
        let b2: u32 = v[2] as u32;
        let b3: u32 = v[3] as u32;
        assert((b0 << 24 | b1 << 16 | b2 << 8 | b3) == b0 * 0x100_0000 + b1 * 0x1_0000 + b2 * 0x100
            + b3) by (bit_vector)
            requires
                b0 < 256,
                b1 < 256,
                b2 < 256,
                b3 < 256,
        ;
        FrameId(b0 << 24 | b1 << 16 | b2 << 8 | b3)
    }

    pub fn new_v22(v: [u8; 3]) -> (r: FrameId)
        ensures
            r == Self::spec_new(v[0], v[1], v[2], 0),
            r.value() == pack4(v[0], v[1], v[2], 0),
            r.byte(0) == v[0],
            r.byte(1) == v[1],
            r.byte(2) == v[2],
            r.byte(3) == 0,
    {
        Self::new([v[0], v[1], v[2], 0])
    }

    /// The numeric value of the identifier.
    pub fn to_u32(&self) -> (r: u32)
        ensures
            r == self.value(),
    {
        self.0
    }

    pub fn to_bytes(&self) -> (r: [u8; 4])
        ensures
            r[0] == self.byte(0),
            r[1] == self.byte(1),
            r[2] == self.byte(2),
            r[3] == self.byte(3),
            self.value() == pack4(r[0], r[1], r[2], r[3]),
    {
        let v: u32 = self.0;
        assert((v >> 24) as u8 == (v / 0x100_0000) as u8 && (v >> 16) as u8 == ((v / 0x1_0000)
            % 0x100) as u8 && (v >> 8) as u8 == ((v / 0x100) % 0x100) as u8 && v as u8 == (v
            % 0x100) as u8 && v / 0x100_0000 < 0x100) by (bit_vector);
        [(v >> 24) as u8, (v >> 16) as u8, (v >> 8) as u8, v as u8]
    }

    #[verifier::when_used_as_spec(spec_is_v22)]
    pub fn is_v22(&self) -> (r: bool)
        ensures
            r == self.spec_is_v22(),
    {
        self.to_bytes()[3] == 0
    }

    /// The identifier of a text frame: `T` and three more bytes.
    pub fn text(sub_id: [u8; 3]) -> (r: FrameId)
        ensures
            r.value() == pack4(0x54, sub_id[0], sub_id[1], sub_id[2]),
            r.spec_is_prefixed(0x54),
    {
        Self::prefixed(0x54, sub_id)
    }

    /// Whether the frame holds plain text: its identifier starts with `T`
    /// and is not that of a user-defined text frame.
    #[verifier::when_used_as_spec(spec_is_text)]
    pub fn is_text(&self) -> (r: bool)
        ensures
            r == self.spec_is_text(),
    {
        self.is_prefixed(0x54) && self.0 != Self::USER_TEXT
    }

    /// The identifier of a link frame: `W` and three more bytes.
    pub fn url(sub_id: [u8; 3]) -> (r: FrameId)
        ensures
            r.value() == pack4(0x57, sub_id[0], sub_id[1], sub_id[2]),
            r.spec_is_prefixed(0x57),
    {
        Self::prefixed(0x57, sub_id)
    }

    /// Whether the frame holds a link: its identifier starts with `W` and
    /// is not that of a user-defined link frame.
    #[verifier::when_used_as_spec(spec_is_url)]
    pub fn is_url(&self) -> (r: bool)
        ensures
            r == self.spec_is_url(),
    {
        self.is_prefixed(0x57) && self.0 != Self::USER_URL
    }

    fn prefixed(prefix: u8, sub_id: [u8; 3]) -> (r: FrameId)
        ensures
            r.value() == pack4(prefix, sub_id[0], sub_id[1], sub_id[2]),
            r.spec_is_prefixed(prefix),
    {
        Self::new([prefix, sub_id[0], sub_id[1], sub_id[2]])
    }

    #[verifier::when_used_as_spec(spec_is_prefixed)]
    pub fn is_prefixed(&self, prefix: u8) -> (r: bool)
        ensures
            r == self.spec_is_prefixed(prefix),
    {
        self.to_bytes()[0] == prefix
    }
}

} // verus!
