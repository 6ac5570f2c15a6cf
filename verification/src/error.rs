//! The ways in which decoding or writing a file can fail.

use vstd::prelude::*;

verus! {

/// `core::str::Utf8Error`, which is handed on and never looked into.
#[verifier::external_type_specification]
#[verifier::external_body]
pub struct ExUtf8Error(core::str::Utf8Error);

pub type I2Result<T> = Result<T, I2Error>;

/// How reading from an in-memory source can fail.
#[derive(Debug, Clone, Copy, PartialEq, Eq, Hash, Structural)]
pub enum IoErrorKind {
    /// The source ended before the requested number of bytes was read.
    UnexpectedEof,
}

/// Why a file could not be decoded or written.
#[derive(Debug, Clone, Copy, PartialEq, Eq, Hash, Structural)]
pub enum I2Error {
    /// The byte stream itself failed.
    IOError(IoErrorKind),
    /// The first four bytes of the file are not the format's marker.
    InvalidHeaderMarker { found: u32, expected: u32 },
    /// A channel record names a sample representation that is not known.
    UnrecognizedDatatype { _type: u16, size: u16 },
    /// A text field, cut at its first zero byte, is not UTF-8.
    NonUtf8String,
    /// The list of channel records does not end.
    CyclicChannelList,
    /// A file cannot be finished when no channel went into it.
    NoChannelsWritten,
}

impl From<IoErrorKind> for I2Error {
    fn from(e: IoErrorKind) -> (r: I2Error) {
        I2Error::IOError(e)
    }
}

impl vstd::std_specs::convert::FromSpecImpl<IoErrorKind> for I2Error {
    open spec fn obeys_from_spec() -> bool {
        true
    }

    open spec fn from_spec(e: IoErrorKind) -> I2Error {
        I2Error::IOError(e)
    }
}

impl From<core::str::Utf8Error> for I2Error {
    fn from(e: core::str::Utf8Error) -> (r: I2Error) {
        I2Error::NonUtf8String
    }
}

impl vstd::std_specs::convert::FromSpecImpl<core::str::Utf8Error> for I2Error {
    open spec fn obeys_from_spec() -> bool {
        true
    }

    open spec fn from_spec(e: core::str::Utf8Error) -> I2Error {
        I2Error::NonUtf8String
    }
}

} // verus!
