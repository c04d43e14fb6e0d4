//! ID3v1 tags, with the extended block that may stand before them.

use vstd::prelude::*;
use vstd::string::StringExecFns;

use crate::error::{Error, ErrorKind};
use crate::id3::frame::Encoding;
use crate::id3::string::{is_first_null, is_null_at, spec_null_terminated, Decoder};
use crate::timestamp::{number, parse_number, Fields, Timestamp};
use crate::util::limited::Cursor;
use crate::util::text::{chars_of, decimal, push_decimal};

verus! {

/// The length of a tag.
pub const LEN: usize = 128;

/// The length of the extended block that may stand before a tag.
pub const EXT_LEN: usize = 227;

/// The length of a tag with its extended block.
pub const FULL_LEN: usize = 355;

/// The name of a genre by its number: the table has 192 entries.
pub open spec fn spec_genre_str(genre: u8) -> Option<Seq<char>> {
    match genre {
        0 => Some("Blues"@),
        1 => Some("Classic Rock"@),
        2 => Some("Country"@),
        3 => Some("Dance"@),
        4 => Some("Disco"@),
        5 => Some("Funk"@),
        6 => Some("Grunge"@),
        7 => Some("Hip-Hop"@),
        8 => Some("Jazz"@),
        9 => Some("Metal"@),
        10 => Some("New Age"@),
        11 => Some("Oldies"@),
        12 => Some("Other"@),
        13 => Some("Pop"@),
        14 => Some("R&B"@),
        15 => Some("Rap"@),
        16 => Some("Reggae"@),
        17 => Some("Rock"@),
        18 => Some("Techno"@),
        19 => Some("Industrial"@),
        20 => Some("Alternative"@),
        21 => Some("Ska"@),
        22 => Some("Death Metal"@),
        23 => Some("Pranks"@),
        24 => Some("Soundtrack"@),
        25 => Some("Euro-Techno"@),
        26 => Some("Ambient"@),
        27 => Some("Trip-Hop"@),
        28 => Some("Vocal"@),
        29 => Some("Jazz+Funk"@),
        30 => Some("Fusion"@),
        31 => Some("Trance"@),
        32 => Some("Classical"@),
        33 => Some("Instrumental"@),
        34 => Some("Acid"@),
        35 => Some("House"@),
        36 => Some("Game"@),
        37 => Some("Sound Clip"@),
        38 => Some("Gospel"@),
        39 => Some("Noise"@),
        40 => Some("Alt. Rock"@),
        41 => Some("Bass"@),
        42 => Some("Soul"@),
        43 => Some("Punk"@),
        44 => Some("Space"@),
        45 => Some("Meditative"@),
        46 => Some("Instrumental Pop"@),
        47 => Some("Instrumental Rock"@),
        48 => Some("Ethnic"@),
        49 => Some("Gothic"@),
        50 => Some("Darkwave"@),
        51 => Some("Techno-Industrial"@),
        52 => Some("Electronic"@),
        53 => Some("Pop-Folk"@),
        54 => Some("Eurodance"@),
        55 => Some("Dream"@),
        56 => Some("Southern Rock"@),
        57 => Some("Comedy"@),
        58 => Some("Cult"@),
        59 => Some("Gangsta Rap"@),
        60 => Some("Top 40"@),
        61 => Some("Christian Rap"@),
        62 => Some("Pop/Funk"@),
        63 => Some("Jungle"@),
        64 => Some("Native American"@),
        65 => Some("Cabaret"@),
        66 => Some("New Wave"@),
        67 => Some("Psychedelic"@),
        68 => Some("Rave"@),
        69 => Some("Showtunes"@),
        70 => Some("Trailer"@),
        71 => Some("Lo-Fi"@),
        72 => Some("Tribal"@),
        73 => Some("Acid Punk"@),
        74 => Some("Acid Jazz"@),
        75 => Some("Polka"@),
        76 => Some("Retro"@),
        77 => Some("Musical"@),
        78 => Some("Rock & Roll"@),
        79 => Some("Hard Rock"@),
        80 => Some("Folk"@),
        81 => Some("Folk-Rock"@),
        82 => Some("National Folk"@),
        83 => Some("Swing"@),
        84 => Some("Fast-Fusion"@),
        85 => Some("Bebop"@),
        86 => Some("Latin"@),
        87 => Some("Revival"@),
        88 => Some("Celtic"@),
        89 => Some("Bluegrass"@),
        90 => Some("Avantgarde"@),
        91 => Some("Gothic Rock"@),
        92 => Some("Progressive Rock"@),
        93 => Some("Psychedelic Rock"@),
        94 => Some("Symphonic Rock"@),
        95 => Some("Slow Rock"@),
        96 => Some("Big Band"@),
        97 => Some("Chorus"@),
        98 => Some("Easy Listening"@),
        99 => Some("Acoustic"@),
        100 => Some("Humour"@),
        101 => Some("Speech"@),
        102 => Some("Chanson"@),
        103 => Some("Opera"@),
        104 => Some("Chamber Music"@),
        105 => Some("Sonata"@),
        106 => Some("Symphony"@),
        107 => Some("Booty Bass"@),
        108 => Some("Primus"@),
        109 => Some("Porn Groove"@),
        110 => Some("Satire"@),
        111 => Some("Slow Jam"@),
        112 => Some("Club"@),
        113 => Some("Tango"@),
        114 => Some("Samba"@),
        115 => Some("Folklore"@),
        116 => Some("Ballad"@),
        117 => Some("Power Ballad"@),
        118 => Some("Rhythmic Soul"@),
        119 => Some("Freestyle"@),
        120 => Some("Duet"@),
        121 => Some("Punk Rock"@),
        122 => Some("Drum Solo"@),
        123 => Some("A Cappella"@),
        124 => Some("Euro-House"@),
        125 => Some("Dance Hall"@),
        126 => Some("Goa"@),
        127 => Some("Drum & Bass"@),
        128 => Some("Club-House"@),
        129 => Some("Hardcore"@),
        130 => Some("Terror"@),
        131 => Some("Indie"@),
        132 => Some("BritPop"@),
        133 => Some("Afro-Punk"@),
        134 => Some("Polsk Punk"@),
        135 => Some("Beat"@),
        136 => Some("Christian Gangsta Rap"@),
        137 => Some("Heavy Metal"@),
        138 => Some("Black Metal"@),
        139 => Some("Crossover"@),
        140 => Some("Contemporary Christian"@),
        141 => Some("Christian Rock"@),
        142 => Some("Merengue"@),
        143 => Some("Salsa"@),
        144 => Some("Thrash Metal"@),
        145 => Some("Anime"@),
        146 => Some("JPop"@),
        147 => Some("Synthpop"@),
        148 => Some("Abstract"@),
        149 => Some("Art Rock"@),
        150 => Some("Baroque"@),
        151 => Some("Bhangra"@),
        152 => Some("Big Beat"@),
        153 => Some("Breakbeat"@),
        154 => Some("Chillout"@),
        155 => Some("Downtempo"@),
        156 => Some("Dub"@),
        157 => Some("EBM"@),
        158 => Some("Eclectic"@),
        159 => Some("Electro"@),
        160 => Some("Electroclash"@),
        161 => Some("Emo"@),
        162 => Some("Experimental"@),
        163 => Some("Garage"@),
        164 => Some("Global"@),
        165 => Some("IDM"@),
        166 => Some("Illbient"@),
        167 => Some("Industro-Goth"@),
        168 => Some("Jam Band"@),
        169 => Some("Krautrock"@),
        170 => Some("Leftfield"@),
        171 => Some("Lounge"@),
        172 => Some("Math Rock"@),
        173 => Some("New Romantic"@),
        174 => Some("Nu-Breakz"@),
        175 => Some("Post-Punk"@),
        176 => Some("Post-Rock"@),
        177 => Some("Psytrance"@),
        178 => Some("Shoegaze"@),
        179 => Some("Space Rock"@),
        180 => Some("Trop Rock"@),
        181 => Some("World Music"@),
        182 => Some("Neoclassical"@),
        183 => Some("Audiobook"@),
        184 => Some("Audio Theatre"@),
        185 => Some("Neue Deutsche Welle"@),
        186 => Some("Podcast"@),
        187 => Some("Indie Rock"@),
        188 => Some("G-Funk"@),
        189 => Some("Dubstep"@),
        190 => Some("Garage Rock"@),
        191 => Some("Psybient"@),
        _ => None,
    }
}

/// The name of a genre by its number.
pub fn genre_str(genre: u8) -> (r: Option<&'static str>)
    ensures
        opt_str(r) == spec_genre_str(genre),
        r is Some <==> genre < 192,
{
    match genre {
        0 => Some("Blues"),
        1 => Some("Classic Rock"),
        2 => Some("Country"),
        3 => Some("Dance"),
        4 => Some("Disco"),
        5 => Some("Funk"),
        6 => Some("Grunge"),
        7 => Some("Hip-Hop"),
        8 => Some("Jazz"),
        9 => Some("Metal"),
        10 => Some("New Age"),
        11 => Some("Oldies"),
        12 => Some("Other"),
        13 => Some("Pop"),
        14 => Some("R&B"),
        15 => Some("Rap"),
        16 => Some("Reggae"),
        17 => Some("Rock"),
        18 => Some("Techno"),
        19 => Some("Industrial"),
        20 => Some("Alternative"),
        21 => Some("Ska"),
        22 => Some("Death Metal"),
        23 => Some("Pranks"),
        24 => Some("Soundtrack"),
        25 => Some("Euro-Techno"),
        26 => Some("Ambient"),
        27 => Some("Trip-Hop"),
        28 => Some("Vocal"),
        29 => Some("Jazz+Funk"),
        30 => Some("Fusion"),
        31 => Some("Trance"),
        32 => Some("Classical"),
        33 => Some("Instrumental"),
        34 => Some("Acid"),
        35 => Some("House"),
        36 => Some("Game"),
        37 => Some("Sound Clip"),
        38 => Some("Gospel"),
        39 => Some("Noise"),
        40 => Some("Alt. Rock"),
        41 => Some("Bass"),
        42 => Some("Soul"),
        43 => Some("Punk"),
        44 => Some("Space"),
        45 => Some("Meditative"),
        46 => Some("Instrumental Pop"),
        47 => Some("Instrumental Rock"),
        48 => Some("Ethnic"),
        49 => Some("Gothic"),
        50 => Some("Darkwave"),
        51 => Some("Techno-Industrial"),
        52 => Some("Electronic"),
        53 => Some("Pop-Folk"),
        54 => Some("Eurodance"),
        55 => Some("Dream"),
        56 => Some("Southern Rock"),
        57 => Some("Comedy"),
        58 => Some("Cult"),
        59 => Some("Gangsta Rap"),
        60 => Some("Top 40"),
        61 => Some("Christian Rap"),
        62 => Some("Pop/Funk"),
        63 => Some("Jungle"),
        64 => Some("Native American"),
        65 => Some("Cabaret"),
        66 => Some("New Wave"),
        67 => Some("Psychedelic"),
        68 => Some("Rave"),
        69 => Some("Showtunes"),
        70 => Some("Trailer"),
        71 => Some("Lo-Fi"),
        72 => Some("Tribal"),
        73 => Some("Acid Punk"),
        74 => Some("Acid Jazz"),
        75 => Some("Polka"),
        76 => Some("Retro"),
        77 => Some("Musical"),
        78 => Some("Rock & Roll"),
        79 => Some("Hard Rock"),
        80 => Some("Folk"),
        81 => Some("Folk-Rock"),
        82 => Some("National Folk"),
        83 => Some("Swing"),
        84 => Some("Fast-Fusion"),
        85 => Some("Bebop"),
        86 => Some("Latin"),
        87 => Some("Revival"),
        88 => Some("Celtic"),
        89 => Some("Bluegrass"),
        90 => Some("Avantgarde"),
        91 => Some("Gothic Rock"),
        92 => Some("Progressive Rock"),
        93 => Some("Psychedelic Rock"),
        94 => Some("Symphonic Rock"),
        95 => Some("Slow Rock"),
        96 => Some("Big Band"),
        97 => Some("Chorus"),
        98 => Some("Easy Listening"),
        99 => Some("Acoustic"),
        100 => Some("Humour"),
        101 => Some("Speech"),
        102 => Some("Chanson"),
        103 => Some("Opera"),
        104 => Some("Chamber Music"),
        105 => Some("Sonata"),
        106 => Some("Symphony"),
        107 => Some("Booty Bass"),
        108 => Some("Primus"),
        109 => Some("Porn Groove"),
        110 => Some("Satire"),
        111 => Some("Slow Jam"),
        112 => Some("Club"),
        113 => Some("Tango"),
        114 => Some("Samba"),
        115 => Some("Folklore"),
        116 => Some("Ballad"),
        117 => Some("Power Ballad"),
        118 => Some("Rhythmic Soul"),
        119 => Some("Freestyle"),
        120 => Some("Duet"),
        121 => Some("Punk Rock"),
        122 => Some("Drum Solo"),
        123 => Some("A Cappella"),
        124 => Some("Euro-House"),
        125 => Some("Dance Hall"),
        126 => Some("Goa"),
        127 => Some("Drum & Bass"),
        128 => Some("Club-House"),
        129 => Some("Hardcore"),
        130 => Some("Terror"),
        131 => Some("Indie"),
        132 => Some("BritPop"),
        133 => Some("Afro-Punk"),
        134 => Some("Polsk Punk"),
        135 => Some("Beat"),
        136 => Some("Christian Gangsta Rap"),
        137 => Some("Heavy Metal"),
        138 => Some("Black Metal"),
        139 => Some("Crossover"),
        140 => Some("Contemporary Christian"),
        141 => Some("Christian Rock"),
        142 => Some("Merengue"),
        143 => Some("Salsa"),
        144 => Some("Thrash Metal"),
        145 => Some("Anime"),
        146 => Some("JPop"),
        147 => Some("Synthpop"),
        148 => Some("Abstract"),
        149 => Some("Art Rock"),
        150 => Some("Baroque"),
        151 => Some("Bhangra"),
        152 => Some("Big Beat"),
        153 => Some("Breakbeat"),
        154 => Some("Chillout"),
        155 => Some("Downtempo"),
        156 => Some("Dub"),
        157 => Some("EBM"),
        158 => Some("Eclectic"),
        159 => Some("Electro"),
        160 => Some("Electroclash"),
        161 => Some("Emo"),
        162 => Some("Experimental"),
        163 => Some("Garage"),
        164 => Some("Global"),
        165 => Some("IDM"),
        166 => Some("Illbient"),
        167 => Some("Industro-Goth"),
        168 => Some("Jam Band"),
        169 => Some("Krautrock"),
        170 => Some("Leftfield"),
        171 => Some("Lounge"),
        172 => Some("Math Rock"),
        173 => Some("New Romantic"),
        174 => Some("Nu-Breakz"),
        175 => Some("Post-Punk"),
        176 => Some("Post-Rock"),
        177 => Some("Psytrance"),
        178 => Some("Shoegaze"),
        179 => Some("Space Rock"),
        180 => Some("Trop Rock"),
        181 => Some("World Music"),
        182 => Some("Neoclassical"),
        183 => Some("Audiobook"),
        184 => Some("Audio Theatre"),
        185 => Some("Neue Deutsche Welle"),
        186 => Some("Podcast"),
        187 => Some("Indie Rock"),
        188 => Some("G-Funk"),
        189 => Some("Dubstep"),
        190 => Some("Garage Rock"),
        191 => Some("Psybient"),
        _ => None,
    }
}

pub open spec fn opt_str(s: Option<&str>) -> Option<Seq<char>> {
    match s {
        Some(t) => Some(t@),
        None => None,
    }
}

/// A genre, as the number that the tag holds. The constants name the
/// numbers of the table.
#[derive(Clone, Copy, Debug, PartialEq, Eq, Structural)]
pub struct Genre(u8);

impl View for Genre {
    type V = u8;

    closed spec fn view(&self) -> u8 {
        self.0
    }
}

impl Genre {
    pub const BLUES: u8 = 0;

    pub const CLASSIC_ROCK: u8 = 1;

    pub const COUNTRY: u8 = 2;

    pub const DANCE: u8 = 3;

    pub const DISCO: u8 = 4;

    pub const FUNK: u8 = 5;

    pub const GRUNGE: u8 = 6;

    pub const HIP_HOP: u8 = 7;

    pub const JAZZ: u8 = 8;

    pub const METAL: u8 = 9;

    pub const NEW_AGE: u8 = 10;

    pub const OLDIES: u8 = 11;

    pub const OTHER: u8 = 12;

    pub const POP: u8 = 13;

    pub const R_B: u8 = 14;

    pub const RAP: u8 = 15;

    pub const REGGAE: u8 = 16;

    pub const ROCK: u8 = 17;

    pub const TECHNO: u8 = 18;

    pub const INDUSTRIAL: u8 = 19;

    pub const ALTERNATIVE: u8 = 20;

    pub const SKA: u8 = 21;

    pub const DEATH_METAL: u8 = 22;

    pub const PRANKS: u8 = 23;

    pub const SOUNDTRACK: u8 = 24;

    pub const EURO_TECHNO: u8 = 25;

    pub const AMBIENT: u8 = 26;

    pub const TRIP_HOP: u8 = 27;

    pub const VOCAL: u8 = 28;

    pub const JAZZ_FUNK: u8 = 29;

    pub const FUSION: u8 = 30;

    pub const TRANCE: u8 = 31;

    pub const CLASSICAL: u8 = 32;

    pub const INSTRUMENTAL: u8 = 33;

    pub const ACID: u8 = 34;

    pub const HOUSE: u8 = 35;

    pub const GAME: u8 = 36;

    pub const SOUND_CLIP: u8 = 37;

    pub const GOSPEL: u8 = 38;

    pub const NOISE: u8 = 39;

    pub const ALT_ROCK: u8 = 40;

    pub const BASS: u8 = 41;

    pub const SOUL: u8 = 42;

    pub const PUNK: u8 = 43;

    pub const SPACE: u8 = 44;

    pub const MEDITATIVE: u8 = 45;

    pub const INSTRUMENTAL_POP: u8 = 46;

    pub const INSTRUMENTAL_ROCK: u8 = 47;

    pub const ETHNIC: u8 = 48;

    pub const GOTHIC: u8 = 49;

    pub const DARKWAVE: u8 = 50;

    pub const TECHNO_INDUSTRIAL: u8 = 51;

    pub const ELECTRONIC: u8 = 52;

    pub const POP_FOLK: u8 = 53;

    pub const EURODANCE: u8 = 54;

    pub const DREAM: u8 = 55;

    pub const SOUTHERN_ROCK: u8 = 56;

    pub const COMEDY: u8 = 57;

    pub const CULT: u8 = 58;

    pub const GANGSTA_RAP: u8 = 59;

    pub const TOP_40: u8 = 60;

    pub const CHRISTIAN_RAP: u8 = 61;

    pub const POP_FUNK: u8 = 62;

    pub const JUNGLE: u8 = 63;

    pub const NATIVE_AMERICAN: u8 = 64;

    pub const CABARET: u8 = 65;

    pub const NEW_WAVE: u8 = 66;

    pub const PSYCHEDELIC: u8 = 67;

    pub const RAVE: u8 = 68;

    pub const SHOWTUNES: u8 = 69;

    pub const TRAILER: u8 = 70;

    pub const LO_FI: u8 = 71;

    pub const TRIBAL: u8 = 72;

    pub const ACID_PUNK: u8 = 73;

    pub const ACID_JAZZ: u8 = 74;

    pub const POLKA: u8 = 75;

    pub const RETRO: u8 = 76;

    pub const MUSICAL: u8 = 77;

    pub const ROCK_N_ROLL: u8 = 78;

    pub const HARD_ROCK: u8 = 79;

    pub const FOLK: u8 = 80;

    pub const FOLK_ROCK: u8 = 81;

    pub const NATIONAL_FOLK: u8 = 82;

    pub const SWING: u8 = 83;

    pub const FAST_FUSION: u8 = 84;

    pub const BEBOP: u8 = 85;

    pub const LATIN: u8 = 86;

    pub const REVIVAL: u8 = 87;

    pub const CELTIC: u8 = 88;

    pub const BLUEGRASS: u8 = 89;

    pub const AVANTGARDE: u8 = 90;

    pub const GOTHIC_ROCK: u8 = 91;

    pub const PROGRESSIVE_ROCK: u8 = 92;

    pub const PSYCHEDELIC_ROCK: u8 = 93;

    pub const SYMPHONIC_ROCK: u8 = 94;

    pub const SLOW_ROCK: u8 = 95;

    pub const BIG_BAND: u8 = 96;

    pub const CHORUS: u8 = 97;

    pub const EASY_LISTENING: u8 = 98;

    pub const ACOUSTIC: u8 = 99;

    pub const HUMOUR: u8 = 100;

    pub const SPEECH: u8 = 101;

    pub const CHANSON: u8 = 102;

    pub const OPERA: u8 = 103;

    pub const CHAMBER_MUSIC: u8 = 104;

    pub const SONATA: u8 = 105;

    pub const SYMPHONY: u8 = 106;

    pub const BOOTY_BASS: u8 = 107;

    pub const PRIMUS: u8 = 108;

    pub const PORN_GROOVE: u8 = 109;

    pub const SATIRE: u8 = 110;

    pub const SLOW_JAM: u8 = 111;

    pub const CLUB: u8 = 112;

    pub const TANGO: u8 = 113;

    pub const SAMBA: u8 = 114;

    pub const FOLKLORE: u8 = 115;

    pub const BALLAD: u8 = 116;

    pub const POWER_BALLAD: u8 = 117;

    pub const RHYTHMIC_SOUL: u8 = 118;

    pub const FREESTYLE: u8 = 119;

    pub const DUET: u8 = 120;

    pub const PUNK_ROCK: u8 = 121;

    pub const DRUM_SOLO: u8 = 122;

    pub const A_CAPPELLA: u8 = 123;

    pub const EURO_HOUSE: u8 = 124;

    pub const DANCE_HALL: u8 = 125;

    pub const GOA: u8 = 126;

    pub const DRUM_N_BASS: u8 = 127;

    pub const CLUB_HOUSE: u8 = 128;

    pub const HARDCORE: u8 = 129;

    pub const TERROR: u8 = 130;

    pub const INDIE: u8 = 131;

    pub const BRIT_POP: u8 = 132;

    pub const AFRO_PUNK: u8 = 133;

    pub const POLSK_PUNK: u8 = 134;

    pub const BEAT: u8 = 135;

    pub const CHRISTIAN_GANGSTA_RAP: u8 = 136;

    pub const HEAVY_METAL: u8 = 137;

    pub const BLACK_METAL: u8 = 138;

    pub const CROSSOVER: u8 = 139;

    pub const CONTEMPORARY_CHRISTIAN: u8 = 140;

    pub const CHRISTIAN_ROCK: u8 = 141;

    pub const MERENGUE: u8 = 142;

    pub const SALSA: u8 = 143;

    pub const THRASH_METAL: u8 = 144;

    pub const ANIME: u8 = 145;

    pub const JPOP: u8 = 146;

    pub const SYNTHPOP: u8 = 147;

    pub const ABSTRACT: u8 = 148;

    pub const ART_ROCK: u8 = 149;

    pub const BAROQUE: u8 = 150;

    pub const BHANGRA: u8 = 151;

    pub const BIG_BEAT: u8 = 152;

    pub const BREAKBEAT: u8 = 153;

    pub const CHILLOUT: u8 = 154;

    pub const DOWNTEMPO: u8 = 155;

    pub const DUB: u8 = 156;

    pub const EBM: u8 = 157;

    pub const ECLECTIC: u8 = 158;

    pub const ELECTRO: u8 = 159;

    pub const ELECTROCLASH: u8 = 160;

    pub const EMO: u8 = 161;

    pub const EXPERIMENTAL: u8 = 162;

    pub const GARAGE: u8 = 163;

    pub const GLOBAL: u8 = 164;

    pub const IDM: u8 = 165;

    pub const ILLBIENT: u8 = 166;

    pub const INDUSTRO_GOTH: u8 = 167;

    pub const JAM_BAND: u8 = 168;

    pub const KRAUTROCK: u8 = 169;

    pub const LEFTFIELD: u8 = 170;

    pub const LOUNGE: u8 = 171;

    pub const MATH_ROCK: u8 = 172;

    pub const NEW_ROMANTIC: u8 = 173;

    pub const NU_BREAKZ: u8 = 174;

    pub const POST_PUNK: u8 = 175;

    pub const POST_ROCK: u8 = 176;

    pub const PSYTRANCE: u8 = 177;

    pub const SHOEGAZE: u8 = 178;

    pub const SPACE_ROCK: u8 = 179;

    pub const TROP_ROCK: u8 = 180;

    pub const WORLD_MUSIC: u8 = 181;

    pub const NEOCLASSICAL: u8 = 182;

    pub const AUDIOBOOK: u8 = 183;

    pub const AUDIO_THEATRE: u8 = 184;

    pub const NEUE_DEUTSCHE_WELLE: u8 = 185;

    pub const PODCAST: u8 = 186;

    pub const INDIE_ROCK: u8 = 187;

    pub const G_FUNK: u8 = 188;

    pub const DUBSTEP: u8 = 189;

    pub const GARAGE_ROCK: u8 = 190;

    pub const PSYBIENT: u8 = 191;

    /// The text of a genre: its name, or `Unknown (N)` for a number
    /// beyond the table.
    pub open spec fn spec_text(v: u8) -> Seq<char> {
        match spec_genre_str(v) {
            Some(s) => s,
            None => "Unknown ("@ + decimal(v as nat) + ")"@,
        }
    }

    /// The genre with the given number: none for 255, which stands for
    /// "no genre".
    pub fn new(v: u8) -> (r: Option<Genre>)
        ensures
            r is Some <==> v != 255,
            r matches Some(g) ==> g@ == v,
    {
        if v == 255 {
            None
        } else {
            Some(Genre(v))
        }
    }

    /// The number of the genre.
    pub fn number(&self) -> (r: u8)
        ensures
            r == self@,
    {
        self.0
    }

    /// The name of the genre, where the table holds one.
    pub fn description(&self) -> (r: Option<&'static str>)
        ensures
            opt_str(r) == spec_genre_str(self@),
            r is Some <==> self@ < 192,
    {
        genre_str(self.0)
    }

    /// The text of the genre.
    pub fn to_string(&self) -> (r: String)
        ensures
            r@ == Self::spec_text(self@),
    {
        match self.description() {
            Some(s) => String::from_str(s),
            None => {
                let mut r: String = String::from_str("Unknown (");
                push_decimal(&mut r, self.0);
                r.append(")");
                r
            },
        }
    }
}

/// The text of a field: Latin-1, up to the first zero byte or to the end
/// of the field.
pub open spec fn spec_str(field: Seq<u8>) -> Seq<char> {
    match spec_null_terminated(Encoding::Latin1, field, false) {
        Ok(p) => p.0,
        Err(_) => Seq::empty(),
    }
}

fn decode_str(buf: &[u8]) -> (r: String)
    ensures
        r@ == spec_str(buf@),
{
    match Decoder::new(Encoding::Latin1).decode_maybe_null_terminated(buf) {
        Ok(s) => s,
        Err(_) => String::new(),
    }
}

fn field(buf: &[u8], from: usize, to: usize) -> (r: String)
    requires
        from <= to <= buf@.len(),
    ensures
        r@ == spec_str(buf@.subrange(from as int, to as int)),
{
    decode_str(vstd::slice::slice_subrange(buf, from, to))
}

/// The extended block of a tag: longer texts that override those of the
/// tag, and a few fields more.
#[derive(Clone, Debug, PartialEq, Eq)]
pub struct Ext {
    pub title: String,
    pub artist: String,
    pub album: String,
    pub speed: Option<u8>,
    pub genre: String,
    pub start_time: String,
    pub end_time: String,
}

pub struct ExtView {
    pub title: Seq<char>,
    pub artist: Seq<char>,
    pub album: Seq<char>,
    pub speed: Option<u8>,
    pub genre: Seq<char>,
    pub start_time: Seq<char>,
    pub end_time: Seq<char>,
}

impl View for Ext {
    type V = ExtView;

    open spec fn view(&self) -> ExtView {
        ExtView {
            title: self.title@,
            artist: self.artist@,
            album: self.album@,
            speed: self.speed,
            genre: self.genre@,
            start_time: self.start_time@,
            end_time: self.end_time@,
        }
    }
}

/// The extended block at the start of `buf`: three texts of 60 bytes
/// behind its four leading bytes, the speed byte (0 for none), the genre
/// in 30 bytes, and the start and the end time in six bytes each.
pub open spec fn spec_decode_ext(buf: Seq<u8>) -> ExtView {
    ExtView {
        title: spec_str(buf.subrange(4, 64)),
        artist: spec_str(buf.subrange(64, 124)),
        album: spec_str(buf.subrange(124, 184)),
        speed: if buf[184] == 0 {
            None
        } else {
            Some(buf[184])
        },
        genre: spec_str(buf.subrange(185, 215)),
        start_time: spec_str(buf.subrange(215, 221)),
        end_time: spec_str(buf.subrange(221, 227)),
    }
}

impl Ext {
    fn decode(buf: &[u8]) -> (r: Ext)
        requires
            buf@.len() >= 227,
        ensures
            r@ == spec_decode_ext(buf@),
    {
        let title: String = field(buf, 4, 64);
        let artist: String = field(buf, 64, 124);
        let album: String = field(buf, 124, 184);
        let speed: Option<u8> = if buf[184] == 0 {
            None
        } else {
            Some(buf[184])
        };
        let genre: String = field(buf, 185, 215);
        let start_time: String = field(buf, 215, 221);
        let end_time: String = field(buf, 221, 227);
        Ext { title, artist, album, speed, genre, start_time, end_time }
    }
}

/// An ID3v1 tag.
#[derive(Clone, Debug, PartialEq, Eq)]
pub struct Id3v1 {
    pub title: String,
    pub artist: String,
    pub album: String,
    pub year: String,
    pub comment: String,
    pub track: Option<u8>,
    pub genre: Option<Genre>,
    pub ext: Option<Ext>,
}

pub struct Id3v1View {
    pub title: Seq<char>,
    pub artist: Seq<char>,
    pub album: Seq<char>,
    pub year: Seq<char>,
    pub comment: Seq<char>,
    pub track: Option<u8>,
    pub genre: Option<u8>,
    pub ext: Option<ExtView>,
}

impl View for Id3v1 {
    type V = Id3v1View;

    open spec fn view(&self) -> Id3v1View {
        Id3v1View {
            title: self.title@,
            artist: self.artist@,
            album: self.album@,
            year: self.year@,
            comment: self.comment@,
            track: self.track,
            genre: match self.genre {
                Some(g) => Some(g@),
                None => None,
            },
            ext: match self.ext {
                Some(e) => Some(e@),
                None => None,
            },
        }
    }
}

/// Whether the three bytes from `at` on are the magic `TAG`.
pub open spec fn has_magic(buf: Seq<u8>, at: int) -> bool {
    buf[at] == 0x54 && buf[at + 1] == 0x41 && buf[at + 2] == 0x47
}

/// The tag that the 128 bytes at the start of `buf` hold, with the
/// extended block `ext`. The texts stand at fixed places. Where byte 125
/// is zero and byte 126 is not, byte 126 is the track and the comment has
/// 28 bytes; else the comment has 30 bytes and there is no track. The
/// genre byte 255 stands for no genre.
pub open spec fn spec_decode0(buf: Seq<u8>, ext: Option<ExtView>) -> Id3v1View {
    let with_track = buf[125] == 0 && buf[126] != 0;
    Id3v1View {
        title: spec_str(buf.subrange(3, 33)),
        artist: spec_str(buf.subrange(33, 63)),
        album: spec_str(buf.subrange(63, 93)),
        year: spec_str(buf.subrange(93, 97)),
        comment: if with_track {
            spec_str(buf.subrange(97, 125))
        } else {
            spec_str(buf.subrange(97, 127))
        },
        track: if with_track {
            Some(buf[126])
        } else {
            None
        },
        genre: if buf[127] == 255 {
            None
        } else {
            Some(buf[127])
        },
        ext,
    }
}

/// The tag at the start of `buf`. A `+` as its fifth byte announces an
/// extended block of 227 bytes, and the tag proper stands behind it.
pub open spec fn spec_decode(buf: Seq<u8>) -> Result<Id3v1View, ErrorKind> {
    if buf.len() < 128 || !has_magic(buf, 0) {
        Err(ErrorKind::BadMagic)
    } else if buf[4] == 0x2b {
        if buf.len() < 355 || !has_magic(buf, 227) {
            Err(ErrorKind::BadMagic)
        } else {
            Ok(spec_decode0(buf.skip(227), Some(spec_decode_ext(buf))))
        }
    } else {
        Ok(spec_decode0(buf, None))
    }
}

/// The text of a field is no longer than the field.
pub proof fn lemma_str_len(field: Seq<u8>)
    ensures
        spec_str(field).len() <= field.len(),
{
    let enc = Encoding::Latin1;
    if exists|i: int| is_first_null(enc, field, i) {
        let i = choose|i: int| is_first_null(enc, field, i);
        assert(is_null_at(enc, field, i));
    }
}

/// The last two bytes of the comment field may hold a track number: in a
/// tag without an extended block, where byte 125 is zero and byte 126 is
/// not, byte 126 is the track and the comment is the text of the 28 bytes
/// before them; else there is no track, and the comment is the text of all
/// 30 bytes.
pub proof fn lemma_track_convention(buf: Seq<u8>)
    requires
        buf.len() >= 128,
        has_magic(buf, 0),
        buf[4] != 0x2b,
    ensures
        spec_decode(buf) matches Ok(t) && if buf[125] == 0 && buf[126] != 0 {
            t.track == Some(buf[126]) && t.comment == spec_str(buf.subrange(97, 125))
                && t.comment.len() <= 28
        } else {
            t.track is None && t.comment == spec_str(buf.subrange(97, 127)) && t.comment.len()
                <= 30
        },
{
    lemma_str_len(buf.subrange(97, 125));
    lemma_str_len(buf.subrange(97, 127));
}

/// The tag at the end of a file: the one that its last 355 bytes hold,
/// or else the one that its last 128 bytes hold.
pub open spec fn spec_read(data: Seq<u8>) -> Result<Id3v1View, ErrorKind> {
    if data.len() >= 355 && spec_decode(data.skip(data.len() - 355)) is Ok {
        spec_decode(data.skip(data.len() - 355))
    } else if data.len() >= 128 {
        spec_decode(data.skip(data.len() - 128))
    } else {
        Err(ErrorKind::BadMagic)
    }
}

/// The year of a tag as a timestamp, where its text is a number of at
/// most 9999.
pub open spec fn spec_date(t: Id3v1View) -> Option<Fields> {
    match parse_number(t.year, 0xffff) {
        Some(y) => if y <= 9999 {
            Some(
                Fields {
                    year: y as u16,
                    month: None,
                    day: None,
                    hour: None,
                    minute: None,
                    second: None,
                },
            )
        } else {
            None
        },
        None => None,
    }
}

pub open spec fn opt_fields(t: Option<Timestamp>) -> Option<Fields> {
    match t {
        Some(t) => Some(t@),
        None => None,
    }
}

impl Id3v1 {
    /// The title of the extended block where there is one, else that of
    /// the tag.
    pub fn best_title(&self) -> (r: &str)
        ensures
            r@ == (match self@.ext {
                Some(e) => e.title,
                None => self@.title,
            }),
    {
        match &self.ext {
            Some(e) => e.title.as_str(),
            None => self.title.as_str(),
        }
    }

    /// The artist of the extended block where there is one, else that of
    /// the tag.
    pub fn best_artist(&self) -> (r: &str)
        ensures
            r@ == (match self@.ext {
                Some(e) => e.artist,
                None => self@.artist,
            }),
    {
        match &self.ext {
            Some(e) => e.artist.as_str(),
            None => self.artist.as_str(),
        }
    }

    /// The album of the extended block where there is one, else that of
    /// the tag.
    pub fn best_album(&self) -> (r: &str)
        ensures
            r@ == (match self@.ext {
                Some(e) => e.album,
                None => self@.album,
            }),
    {
        match &self.ext {
            Some(e) => e.album.as_str(),
            None => self.album.as_str(),
        }
    }

    pub fn date(&self) -> (r: Option<Timestamp>)
        ensures
            opt_fields(r) == spec_date(self@),
    {
        match number(&chars_of(self.year.as_str()), 0xffff) {
            Some(y) => Timestamp::new_y(y as u16),
            None => None,
        }
    }

    /// The number of bytes that the tag takes at the end of its file.
    pub fn len(&self) -> (r: u32)
        ensures
            r == if self@.ext is Some {
                355u32
            } else {
                128u32
            },
    {
        if self.ext.is_some() {
            FULL_LEN as u32
        } else {
            LEN as u32
        }
    }

    /// Reads the tag at the end of the data of `rd`, wherever its
    /// position stands.
    pub fn read(rd: &Cursor<'_>) -> (r: Result<Id3v1, Error>)
        ensures
            spec_read(rd.data()) == (match r {
                Ok(t) => Ok::<Id3v1View, ErrorKind>(t@),
                Err(e) => Err::<Id3v1View, ErrorKind>(e.kind),
            }),
    {
        let data: &[u8] = rd.get_ref();
        let len: usize = data.len();
        if len >= FULL_LEN {
            let tail: &[u8] = vstd::slice::slice_subrange(data, len - FULL_LEN, len);
            assert(tail@ =~= data@.skip(len - 355));
            match Self::decode(tail) {
                Ok(v) => {
                    return Ok(v);
                },
                Err(_) => {},
            }
        }
        if len >= LEN {
            let tail: &[u8] = vstd::slice::slice_subrange(data, len - LEN, len);
            assert(tail@ =~= data@.skip(len - 128));
            return Self::decode(tail);
        }
        Err(Error::new(ErrorKind::BadMagic, "couldn't find ID3v1 magic"))
    }

    /// Decodes the tag at the start of `buf`.
    pub fn decode(buf: &[u8]) -> (r: Result<Id3v1, Error>)
        ensures
            spec_decode(buf@) == (match r {
                Ok(t) => Ok::<Id3v1View, ErrorKind>(t@),
                Err(e) => Err::<Id3v1View, ErrorKind>(e.kind),
            }),
    {
        if buf.len() < LEN || buf[0] != 0x54 || buf[1] != 0x41 || buf[2] != 0x47 {
            return Err(Error::new(ErrorKind::BadMagic, "couldn't find ID3v1 magic"));
        }
        if buf[4] == 0x2b {
            if buf.len() < FULL_LEN || buf[EXT_LEN] != 0x54 || buf[EXT_LEN + 1] != 0x41
                || buf[EXT_LEN + 2] != 0x47 {
                return Err(Error::new(ErrorKind::BadMagic, "couldn't find ID3v1 magic"));
            }
            let ext: Ext = Ext::decode(buf);
            let base: &[u8] = vstd::slice::slice_subrange(buf, EXT_LEN, buf.len());
            assert(base@ =~= buf@.skip(227));
            Ok(Self::decode0(base, Some(ext)))
        } else {
            Ok(Self::decode0(buf, None))
        }
    }

    fn decode0(buf: &[u8], ext: Option<Ext>) -> (r: Id3v1)
        requires
            buf@.len() >= 128,
        ensures
            r@ == spec_decode0(
                buf@,
                match ext {
                    Some(e) => Some(e@),
                    None => None,
                },
            ),
    {
        let title: String = field(buf, 3, 33);
        let artist: String = field(buf, 33, 63);
        let album: String = field(buf, 63, 93);
        let year: String = field(buf, 93, 97);
        let (comment, track): (String, Option<u8>) = if buf[125] == 0 && buf[126] != 0 {
            (field(buf, 97, 125), Some(buf[126]))
        } else {
            (field(buf, 97, 127), None)
        };
        let genre: Option<Genre> = Genre::new(buf[127]);
        Id3v1 { title, artist, album, year, comment, track, genre, ext }
    }
}

} // verus!
