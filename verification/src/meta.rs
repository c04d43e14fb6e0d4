//! What is known of an audio file, of whichever format it is.

use vstd::prelude::*;
use vstd::string::StringExecFns;

use crate::error::{Error, ErrorKind};
use crate::flac::{spec_read_flac, Flac, FlacView};
use crate::mpeg::{spec_read_mpeg, Mpeg, MpegView};
use crate::tags::TagsRef;
use crate::util::limited::Cursor;

verus! {

/// The formats that are decoded.
#[derive(Clone, Copy, Debug, PartialEq, Eq, Structural)]
pub enum FormatKind {
    Flac,
    Mpeg,
}

/// What is known of a file, by its format.
#[derive(Clone, Copy, Debug)]
pub enum FormatRef<'a> {
    Flac(&'a Flac),
    Mpeg(&'a Mpeg),
}

impl FormatRef<'_> {
    pub fn kind(&self) -> (r: FormatKind)
        ensures
            r == (match self {
                FormatRef::Flac(_) => FormatKind::Flac,
                FormatRef::Mpeg(_) => FormatKind::Mpeg,
            }),
    {
        match self {
            FormatRef::Flac(_) => FormatKind::Flac,
            FormatRef::Mpeg(_) => FormatKind::Mpeg,
        }
    }

    pub fn as_flac(&self) -> (r: Option<&Flac>)
        ensures
            r == (match self {
                FormatRef::Flac(f) => Some(*f),
                FormatRef::Mpeg(_) => None,
            }),
    {
        match self {
            FormatRef::Flac(f) => Some(*f),
            FormatRef::Mpeg(_) => None,
        }
    }

    pub fn as_mpeg(&self) -> (r: Option<&Mpeg>)
        ensures
            r == (match self {
                FormatRef::Flac(_) => None,
                FormatRef::Mpeg(m) => Some(*m),
            }),
    {
        match self {
            FormatRef::Flac(_) => None,
            FormatRef::Mpeg(m) => Some(*m),
        }
    }

    /// The name of the format: `FLAC`, or `MPEG` with its version and
    /// layer.
    pub fn name(&self) -> (r: String)
        ensures
            r@ == (match self {
                FormatRef::Flac(_) => "FLAC"@,
                FormatRef::Mpeg(m) => "MPEG "@ + m@.header.version.spec_name() + " Layer "@
                    + m@.header.layer.spec_name(),
            }),
    {
        match self {
            FormatRef::Flac(_) => String::from_str("FLAC"),
            FormatRef::Mpeg(m) => {
                let mut r: String = String::from_str("MPEG ");
                r.append(m.header().version.name());
                r.append(" Layer ");
                r.append(m.header().layer.name());
                r
            },
        }
    }
}

enum Format {
    Flac(Flac),
    Mpeg(Mpeg),
}

pub enum FormatView {
    Flac(FlacView),
    Mpeg(MpegView),
}

/// What is known of an audio file.
pub struct Meta {
    format: Format,
}

impl View for Meta {
    type V = FormatView;

    closed spec fn view(&self) -> FormatView {
        match self.format {
            Format::Flac(f) => FormatView::Flac(f@),
            Format::Mpeg(m) => FormatView::Mpeg(m@),
        }
    }
}

/// Whether a failure only says that a file is not of a format.
pub open spec fn is_absence(e: ErrorKind) -> bool {
    e == ErrorKind::BadMagic || e == ErrorKind::InvalidData || e == ErrorKind::UnexpectedEof || e
        == ErrorKind::InvalidEncoding
}

/// What is known of the audio file `data`: what the MPEG decoder finds,
/// or else what the FLAC decoder finds, or nothing where the file is of
/// neither format.
pub open spec fn spec_read_meta(data: Seq<u8>) -> Result<Option<FormatView>, ErrorKind> {
    match spec_read_mpeg(data) {
        Ok(m) => Ok(Some(FormatView::Mpeg(m))),
        Err(e) => if !is_absence(e) {
            Err(e)
        } else {
            match spec_read_flac(data) {
                Ok(f) => Ok(Some(FormatView::Flac(f))),
                Err(e) => if !is_absence(e) {
                    Err(e)
                } else {
                    Ok(None)
                },
            }
        },
    }
}

impl Meta {
    /// Reads what is known of an audio file from its bytes: `None` where
    /// it is of no format that is decoded.
    pub fn read(rd: &mut Cursor<'_>) -> (r: Result<Option<Meta>, Error>)
        ensures
            final(rd).data() == old(rd).data(),
            spec_read_meta(old(rd).data()) == (match r {
                Ok(Some(m)) => Ok::<Option<FormatView>, ErrorKind>(Some(m@)),
                Ok(None) => Ok::<Option<FormatView>, ErrorKind>(None),
                Err(e) => Err::<Option<FormatView>, ErrorKind>(e.kind),
            }),
    {
        match Mpeg::read(rd) {
            Ok(m) => {
                return Ok(Some(Meta { format: Format::Mpeg(m) }));
            },
            Err(e) => if !e.is_absence() {
                return Err(e);
            },
        }
        match Flac::read(rd) {
            Ok(f) => Ok(Some(Meta { format: Format::Flac(f) })),
            Err(e) => if !e.is_absence() {
                Err(e)
            } else {
                Ok(None)
            },
        }
    }

    pub fn format(&self) -> (r: FormatRef<'_>)
        ensures
            match r {
                FormatRef::Flac(f) => self@ == FormatView::Flac(f@),
                FormatRef::Mpeg(m) => self@ == FormatView::Mpeg(m@),
            },
    {
        match &self.format {
            Format::Flac(v) => FormatRef::Flac(v),
            Format::Mpeg(v) => FormatRef::Mpeg(v),
        }
    }

    pub fn channel_count(&self) -> (r: u32)
        ensures
            r == (match self@ {
                FormatView::Flac(f) => f.stream_info.channel_count as u32,
                FormatView::Mpeg(m) => m.header.channel_mode.spec_count(),
            }),
    {
        match &self.format {
            Format::Flac(v) => v.stream_info().channel_count as u32,
            Format::Mpeg(v) => v.header().channel_mode.count(),
        }
    }

    pub fn samples_per_sec(&self) -> (r: u32)
        ensures
            r == (match self@ {
                FormatView::Flac(f) => f.stream_info.samples_per_sec,
                FormatView::Mpeg(m) => m.header.samples_per_sec as u32,
            }),
    {
        match &self.format {
            Format::Flac(v) => v.stream_info().samples_per_sec,
            Format::Mpeg(v) => v.header().samples_per_sec as u32,
        }
    }

    pub fn bits_per_sample(&self) -> (r: Option<u32>)
        ensures
            r == (match self@ {
                FormatView::Flac(f) => Some(f.stream_info.bits_per_sample as u32),
                FormatView::Mpeg(_) => None,
            }),
    {
        match &self.format {
            Format::Flac(v) => Some(v.stream_info().bits_per_sample as u32),
            Format::Mpeg(_) => None,
        }
    }

    pub fn tags(&self) -> (r: TagsRef<'_>)
        ensures
            match self@ {
                FormatView::Flac(f) => r@.id3v1 == f.id3v1 && r@.id3v2 == f.id3v2 && r@.vcomment
                    == f.vcomment,
                FormatView::Mpeg(m) => r@.id3v1 == m.id3v1 && r@.id3v2 == m.id3v2 && r@.vcomment
                    is None,
            },
    {
        match &self.format {
            Format::Flac(v) => v.tags(),
            Format::Mpeg(v) => v.tags(),
        }
    }
}

} // verus!
