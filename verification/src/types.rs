//! Error and dimension types shared by every format reader.

use vstd::prelude::*;

verus! {

/// The two ways a metadata read can fail.
///
/// Contracts speak of the kind alone; the optional message only makes a
/// failure diagnosable and is never part of a specification.
#[derive(Clone, Copy, PartialEq, Eq, Debug)]
pub enum ErrorKind {
    /// The bytes could be read but violate a rule of the format.
    InvalidFormat,
    /// Fewer bytes were available than a fixed-size field or a declared
    /// length requires.
    UnexpectedEndOfFile,
}

/// Error returned by metadata loading operations.
#[derive(Clone, Copy, PartialEq, Eq, Debug)]
pub enum Error {
    /// The image format is invalid: wrong magic bytes, an unrecognized
    /// enumerated code, a zero-entry directory, a wrong fixed block size.
    InvalidFormat(Option<&'static str>),
    /// The file ended in the middle of a structure; the message names what
    /// was being read.
    UnexpectedEndOfFile(Option<&'static str>),
}

impl Error {
    /// The kind of this error, with the context message stripped.
    pub open spec fn kind(self) -> ErrorKind {
        match self {
            Error::InvalidFormat(_) => ErrorKind::InvalidFormat,
            Error::UnexpectedEndOfFile(_) => ErrorKind::UnexpectedEndOfFile,
        }
    }

    /// Executable twin of `kind`.
    pub fn kind_of(&self) -> (k: ErrorKind)
        ensures
            k == self.kind(),
    {
        match self {
            Error::InvalidFormat(_) => ErrorKind::InvalidFormat,
            Error::UnexpectedEndOfFile(_) => ErrorKind::UnexpectedEndOfFile,
        }
    }

    /// The context message, if one was attached.
    pub fn message(&self) -> (m: Option<&'static str>)
        ensures
            m == match *self {
                Error::InvalidFormat(s) => s,
                Error::UnexpectedEndOfFile(s) => s,
            },
    {
        match self {
            Error::InvalidFormat(s) => *s,
            Error::UnexpectedEndOfFile(s) => *s,
        }
    }
}

/// Image dimensions in pixels: the one piece of metadata every format shares.
#[derive(Clone, Copy, PartialEq, Eq, Structural, Debug)]
pub struct Dimensions {
    /// Image width in pixels.
    pub width: u32,
    /// Image height in pixels.
    pub height: u32,
}

} // verus!
