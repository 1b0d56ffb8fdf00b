//! HTTP/2 error codes.

use vstd::prelude::*;

verus! {

/// An HTTP/2 error code.
#[derive(Debug, Clone, Copy, PartialEq, Eq, Structural)]
pub enum Error {
    NoError,
    ProtocolError,
    InternalError,
    FlowControlError,
    SettingsTimeout,
    StreamClosed,
    FrameSizeError,
    RefusedStream,
    Cancel,
    CompressionError,
    ConnectError,
    EnhanceYourCalm,
    InadequateSecurity,
    Http11Required,
}

/// The code of each error on the wire.
pub open spec fn spec_error_value(e: Error) -> u32 {
    match e {
        Error::NoError => 0x00,
        Error::ProtocolError => 0x01,
        Error::InternalError => 0x02,
        Error::FlowControlError => 0x03,
        Error::SettingsTimeout => 0x04,
        Error::StreamClosed => 0x05,
        Error::FrameSizeError => 0x06,
        Error::RefusedStream => 0x07,
        Error::Cancel => 0x08,
        Error::CompressionError => 0x09,
        Error::ConnectError => 0x0a,
        Error::EnhanceYourCalm => 0x0b,
        Error::InadequateSecurity => 0x0c,
        Error::Http11Required => 0x0d,
    }
}

/// The error that a code on the wire names. Codes the protocol does not
/// define are read as `InternalError`, as RFC 9113 (section 7) allows for
/// unknown codes.
pub open spec fn spec_error_from(v: u32) -> Error {
    match v {
        0x00 => Error::NoError,
        0x01 => Error::ProtocolError,
        0x02 => Error::InternalError,
        0x03 => Error::FlowControlError,
        0x04 => Error::SettingsTimeout,
        0x05 => Error::StreamClosed,
        0x06 => Error::FrameSizeError,
        0x07 => Error::RefusedStream,
        0x08 => Error::Cancel,
        0x09 => Error::CompressionError,
        0x0a => Error::ConnectError,
        0x0b => Error::EnhanceYourCalm,
        0x0c => Error::InadequateSecurity,
        0x0d => Error::Http11Required,
        _ => Error::InternalError,
    }
}

impl Error {
    /// The error that a code on the wire names.
    pub fn from_value(v: u32) -> (e: Error)
        ensures
            e == spec_error_from(v),
    {
        match v {
            0x00 => Error::NoError,
            0x01 => Error::ProtocolError,
            0x02 => Error::InternalError,
            0x03 => Error::FlowControlError,
            0x04 => Error::SettingsTimeout,
            0x05 => Error::StreamClosed,
            0x06 => Error::FrameSizeError,
            0x07 => Error::RefusedStream,
            0x08 => Error::Cancel,
            0x09 => Error::CompressionError,
            0x0a => Error::ConnectError,
            0x0b => Error::EnhanceYourCalm,
            0x0c => Error::InadequateSecurity,
            0x0d => Error::Http11Required,
            _ => Error::InternalError,
        }
    }

    /// The code of the error on the wire.
    pub fn value(&self) -> (v: u32)
        ensures
            v == spec_error_value(*self),
    {
        match self {
            Error::NoError => 0x00,
            Error::ProtocolError => 0x01,
            Error::InternalError => 0x02,
            Error::FlowControlError => 0x03,
            Error::SettingsTimeout => 0x04,
            Error::StreamClosed => 0x05,
            Error::FrameSizeError => 0x06,
            Error::RefusedStream => 0x07,
            Error::Cancel => 0x08,
            Error::CompressionError => 0x09,
            Error::ConnectError => 0x0a,
            Error::EnhanceYourCalm => 0x0b,
            Error::InadequateSecurity => 0x0c,
            Error::Http11Required => 0x0d,
        }
    }
}

impl From<u32> for Error {
    fn from(v: u32) -> (e: Error) {
        Error::from_value(v)
    }
}

impl vstd::std_specs::convert::FromSpecImpl<u32> for Error {
    open spec fn obeys_from_spec() -> bool {
        true
    }

    open spec fn from_spec(v: u32) -> Error {
        spec_error_from(v)
    }
}

impl From<Error> for u32 {
    fn from(e: Error) -> (v: u32) {
        e.value()
    }
}

impl vstd::std_specs::convert::FromSpecImpl<Error> for u32 {
    open spec fn obeys_from_spec() -> bool {
        true
    }

    open spec fn from_spec(e: Error) -> u32 {
        spec_error_value(e)
    }
}

/// Every error survives the trip through its code.
pub proof fn lemma_error_roundtrip(e: Error)
    ensures
        spec_error_from(spec_error_value(e)) == e,
{
}

/// Every code the protocol defines survives the trip through its error.
pub proof fn lemma_error_value_roundtrip(v: u32)
    requires
        v <= 0x0d,
    ensures
        spec_error_value(spec_error_from(v)) == v,
{
}

} // verus!
