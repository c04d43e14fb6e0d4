//! Read-only decoding of audio metadata: MPEG audio stream parameters with
//! their Xing/LAME and VBRI side information, and the ID3v1 and ID3v2 tag
//! families. Every decoder works on bytes held in memory, under a bounded
//! reader that never lets one structure read into the next.

pub mod error;
pub mod flac;
pub mod id3;
pub mod meta;
pub mod mpeg;
pub mod tags;
pub mod timestamp;
pub mod util;
pub mod vcomment;
