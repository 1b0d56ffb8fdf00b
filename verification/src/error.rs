//! The errors that the library reports.

use vstd::prelude::*;

verus! {

/// Why an operation of the library failed.
#[derive(Debug, Clone, Copy, PartialEq, Eq, Structural)]
pub enum Error {
    /// The text is not one of the HTTP methods.
    InvalidMethod,
    /// The text names no supported HTTP version or protocol.
    UnsupportedProtocol,
    /// A header line holds no `": "` separator.
    HeaderSeparatorMissing,
    /// The input holds no more bytes where a request should start.
    WouldBlock,
    /// Bytes that should be text are not valid UTF-8.
    InvalidUtf8,
    /// A request line holds no space.
    InvalidRequestLine,
    /// The value of a `content-length` header is not a number.
    InvalidContentLength,
    /// The input ends before the announced bytes.
    UnexpectedEof,
    /// A response is built without a version.
    MissingVersion,
    /// A response is built without a status.
    MissingStatus,
    /// A response is built without headers.
    MissingHeaders,
    /// A request is already being encoded.
    Inflight,
    /// A line does not fit the codec's length limit.
    LineTooLong,
    /// An HPACK header block could not be decoded.
    InvalidHeaderBlock,
    /// A WINDOW_UPDATE frame carries a zero increment.
    ZeroWindowIncrement,
    /// A WINDOW_UPDATE frame payload is not four bytes long.
    WindowUpdateLength,
    /// A SETTINGS entry carries an unknown identifier.
    InvalidSettingIdentifier,
    /// The peer reset a stream.
    StreamReset,
    /// The connection does not start with the HTTP/2 preface.
    InvalidPreface,
}

/// The class of an error, in the terms of the I/O layer that reports it.
#[derive(Debug, Clone, Copy, PartialEq, Eq, Structural)]
pub enum ErrorKind {
    InvalidInput,
    InvalidData,
    WouldBlock,
    UnexpectedEof,
    ConnectionReset,
}

impl Error {
    /// The I/O class under which the error is reported.
    pub fn kind(&self) -> (k: ErrorKind)
        ensures
            k == spec_error_kind(*self),
    {
        match self {
            Error::InvalidMethod => ErrorKind::InvalidInput,
            Error::InvalidRequestLine => ErrorKind::InvalidInput,
            Error::MissingVersion => ErrorKind::InvalidInput,
            Error::MissingStatus => ErrorKind::InvalidInput,
            Error::MissingHeaders => ErrorKind::InvalidInput,
            Error::WouldBlock => ErrorKind::WouldBlock,
            Error::Inflight => ErrorKind::WouldBlock,
            Error::UnexpectedEof => ErrorKind::UnexpectedEof,
            Error::StreamReset => ErrorKind::ConnectionReset,
            _ => ErrorKind::InvalidData,
        }
    }
}

/// The I/O class of each error.
pub open spec fn spec_error_kind(e: Error) -> ErrorKind {
    match e {
        Error::InvalidMethod | Error::InvalidRequestLine | Error::MissingVersion
        | Error::MissingStatus | Error::MissingHeaders => ErrorKind::InvalidInput,
        Error::WouldBlock | Error::Inflight => ErrorKind::WouldBlock,
        Error::UnexpectedEof => ErrorKind::UnexpectedEof,
        Error::StreamReset => ErrorKind::ConnectionReset,
        _ => ErrorKind::InvalidData,
    }
}

} // verus!
