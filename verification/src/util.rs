//! Readers and helpers that the decoders share.

pub mod bit_stream;
pub mod bits;
pub mod limited;
pub mod text;

use vstd::prelude::*;

use crate::error::{Error, ErrorKind};
use crate::util::limited::{Cursor, Limited};

verus! {

/// The failure of a read that met the end of the data.
pub fn unexpected_eof_err(msg: &'static str) -> (e: Error)
    ensures
        e.kind == ErrorKind::UnexpectedEof,
        e.msg == msg,
{
    Error::new(ErrorKind::UnexpectedEof, msg)
}

/// Reads `len` bytes into a vector, as far as the source holds them. It
/// fails, before anything is read or allocated, where the budget of the
/// reader is below `len`.
pub fn read_vec_limited(rd: &mut Limited<Cursor<'_>>, len: usize, err: &'static str) -> (r: Result<
    Vec<u8>,
    Error,
>)
    ensures
        r is Ok <==> len <= old(rd).spec_max_available(),
        r matches Ok(v) ==> {
            &&& v@.len() == if len <= old(rd).window().len() {
                len as nat
            } else {
                old(rd).window().len()
            }
            &&& v@ == old(rd).window().take(v@.len() as int)
            &&& final(rd).advanced(old(rd), v@.len() as int)
            &&& final(rd).window() == old(rd).window().skip(v@.len() as int)
        },
        r matches Err(e) ==> e.kind == ErrorKind::UnexpectedEof && e.msg == err && *final(rd)
            == *old(rd),
{
    if rd.max_available() < len as u64 {
        return Err(unexpected_eof_err(err));
    }
    let bytes: &[u8] = rd.take_up_to(len);
    Ok(vstd::slice::slice_to_vec(bytes))
}

/// Turning the failure of a probe for an optional structure into its
/// absence.
pub trait IoResultExt<T>: Sized {
    /// The result that this value stands for.
    spec fn as_result(self) -> Result<T, Error>;

    /// `Ok(None)` for a failure that only says that the structure is not
    /// there or is damaged; any other failure stays one.
    fn into_opt(self) -> (r: Result<Option<T>, Error>)
        ensures
            into_opt_spec(self.as_result(), r),
    ;

    /// The same result, but with the failure that `f` makes of it where it
    /// is a failure of the kind `UnexpectedEof`.
    fn map_err_eof<F: FnOnce(Error) -> Error>(self, f: F) -> (r: Self)
        requires
            forall|e: Error| #[trigger] f.requires((e,)),
        ensures
            map_err_eof_spec(self.as_result(), f, r.as_result()),
    ;
}

pub open spec fn map_err_eof_spec<T, F: FnOnce(Error) -> Error>(
    this: Result<T, Error>,
    f: F,
    r: Result<T, Error>,
) -> bool {
    match this {
        Ok(v) => r == Ok::<T, Error>(v),
        Err(e) => if e.kind == ErrorKind::UnexpectedEof {
            r matches Err(mapped) && f.ensures((e,), mapped)
        } else {
            r == Err::<T, Error>(e)
        },
    }
}

impl<T> IoResultExt<T> for Result<T, Error> {
    open spec fn as_result(self) -> Result<T, Error> {
        self
    }

    fn into_opt(self) -> (r: Result<Option<T>, Error>) {
        match self {
            Ok(v) => Ok(Some(v)),
            Err(e) => if e.is_absence() {
                Ok(None)
            } else {
                Err(e)
            },
        }
    }

    fn map_err_eof<F: FnOnce(Error) -> Error>(self, f: F) -> (r: Self) {
        match self {
            Ok(v) => Ok(v),
            Err(e) => match e.kind() {
                ErrorKind::UnexpectedEof => Err(f(e)),
                _ => Err(e),
            },
        }
    }
}

pub open spec fn into_opt_spec<T>(this: Result<T, Error>, r: Result<Option<T>, Error>) -> bool {
    match this {
        Ok(v) => r == Ok::<Option<T>, Error>(Some(v)),
        Err(e) => if e.spec_is_absence() {
            r == Ok::<Option<T>, Error>(None)
        } else {
            r == Err::<Option<T>, Error>(e)
        },
    }
}

} // verus!
