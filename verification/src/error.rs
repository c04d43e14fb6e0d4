//! The failures that the decoders report.

use vstd::prelude::*;

verus! {

/// The kinds of failure a decoder reports.
#[derive(Clone, Copy, Debug, PartialEq, Eq, Structural)]
pub enum ErrorKind {
    /// The magic of the structure is missing: nothing of its kind starts
    /// here.
    BadMagic,
    /// A header or field is malformed: bad version, illegal flag bits or a
    /// reserved value.
    InvalidData,
    /// The data ended before a required field.
    UnexpectedEof,
    /// A string does not match its declared encoding.
    InvalidEncoding,
    /// The input uses a feature that is deliberately not decoded.
    Unsupported,
    /// A seek was asked to leave the region it is confined to.
    InvalidInput,
}

/// A decoding failure: its kind and a short description.
#[derive(Clone, Copy, Debug)]
pub struct Error {
    pub kind: ErrorKind,
    pub msg: &'static str,
}

impl Error {
    pub fn new(kind: ErrorKind, msg: &'static str) -> (e: Error)
        ensures
            e.kind == kind,
            e.msg == msg,
    {
        Error { kind, msg }
    }

    pub fn kind(&self) -> (k: ErrorKind)
        ensures
            k == self.kind,
    {
        self.kind
    }

    pub fn message(&self) -> (m: &'static str)
        ensures
            m == self.msg,
    {
        self.msg
    }

    /// Whether a caller probing for an optional structure may treat this
    /// failure as "the structure is absent".
    pub open spec fn spec_is_absence(&self) -> bool {
        self.kind == ErrorKind::BadMagic || self.kind == ErrorKind::InvalidData || self.kind
            == ErrorKind::UnexpectedEof || self.kind == ErrorKind::InvalidEncoding
    }

    #[verifier::when_used_as_spec(spec_is_absence)]
    pub fn is_absence(&self) -> (b: bool)
        ensures
            b == self.spec_is_absence(),
    {
        match self.kind {
            ErrorKind::BadMagic
            | ErrorKind::InvalidData
            | ErrorKind::UnexpectedEof
            | ErrorKind::InvalidEncoding => true,
            _ => false,
        }
    }
}

} // verus!
