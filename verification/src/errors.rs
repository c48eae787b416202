//! Common error types for the decoding library.

use vstd::prelude::*;

verus! {

/// `Error` enumerates all failures reported by the library.
#[derive(Debug, Clone, Copy)]
pub enum Error {
    /// The stream ended before a complete structure could be read.
    IoError(&'static str),
    /// The stream contained malformed data and could not be parsed.
    ParseError(&'static str),
    /// The stream asks for something the decoder refuses to handle.
    Unsupported(&'static str),
}

impl Error {
    /// True of every end-of-stream failure.
    pub open spec fn is_io(self) -> bool {
        self is IoError
    }

    /// True of every malformed-data failure.
    pub open spec fn is_parse(self) -> bool {
        self is ParseError
    }

    /// True of every refused-feature failure.
    pub open spec fn is_unsupported(self) -> bool {
        self is Unsupported
    }

    /// A short label naming the kind of failure.
    pub fn kind(&self) -> (r: &'static str)
        ensures
            self.is_io() ==> r@ == "io"@,
            self.is_parse() ==> r@ == "parse"@,
            self.is_unsupported() ==> r@ == "unsupported"@,
    {
        match self {
            Error::IoError(_) => "io",
            Error::ParseError(_) => "parse",
            Error::Unsupported(_) => "unsupported",
        }
    }

    /// The message carried by the error.
    pub fn message(&self) -> (r: &'static str)
        ensures
            forall|m: &'static str| self == Error::IoError(m) ==> r == m,
            forall|m: &'static str| self == Error::ParseError(m) ==> r == m,
            forall|m: &'static str| self == Error::Unsupported(m) ==> r == m,
    {
        match self {
            Error::IoError(m) => m,
            Error::ParseError(m) => m,
            Error::Unsupported(m) => m,
        }
    }
}

/// Builds a malformed-stream error.
pub fn parse_error<T>(desc: &'static str) -> (r: Result<T, Error>)
    ensures
        r == Result::<T, Error>::Err(Error::ParseError(desc)),
{
    Err(Error::ParseError(desc))
}

/// Builds a refused-feature error.
pub fn unsupported_error<T>(desc: &'static str) -> (r: Result<T, Error>)
    ensures
        r == Result::<T, Error>::Err(Error::Unsupported(desc)),
{
    Err(Error::Unsupported(desc))
}

/// Builds an end-of-stream error.
pub fn io_error<T>(desc: &'static str) -> (r: Result<T, Error>)
    ensures
        r == Result::<T, Error>::Err(Error::IoError(desc)),
{
    Err(Error::IoError(desc))
}

} // verus!
