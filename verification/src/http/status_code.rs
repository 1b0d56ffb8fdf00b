//! Status codes as named values.

use crate::text::{decimal, u64_to_decimal};
use vstd::prelude::*;

verus! {

/// An HTTP status code, named where the library knows it.
#[derive(Debug, Clone, Copy, PartialEq, Eq, Structural)]
pub enum StatusCode {
    Continue,
    SwitchingProtocols,
    OK,
    Created,
    Accepted,
    NonAuthoritativeInformation,
    NoContent,
    ResetContent,
    PartialContent,
    MultipleChoices,
    MovedPermanently,
    Found,
    SeeOther,
    NotModified,
    UseProxy,
    TemporaryRedirect,
    BadRequest,
    Unauthorized,
    PaymentRequired,
    Forbidden,
    NotFound,
    MethodNotAllowed,
    NotAccetable,
    ProxyAuthenticationRequired,
    RequestTimeout,
    Conflict,
    Gone,
    LengthRequired,
    PreconditionFailed,
    PayloadTooLarge,
    URITooLong,
    UnsupportedMediaType,
    RangeNotSatisfiable,
    ExpectationFailed,
    TooManyRequests,
    MisdirectedRequest,
    UpgradeRequired,
    InternalServerError,
    NotImplemented,
    BadGateway,
    ServiceUnavailable,
    GatewayTimeout,
    HTTPVersionNotSupported,
    Unknown(u16),
}

/// The named status for a number; numbers without a name are `Unknown`.
pub open spec fn spec_status_code(value: u16) -> StatusCode {
    match value {
        100 => StatusCode::Continue,
        101 => StatusCode::SwitchingProtocols,
        200 => StatusCode::OK,
        201 => StatusCode::Created,
        202 => StatusCode::Accepted,
        203 => StatusCode::NonAuthoritativeInformation,
        204 => StatusCode::NoContent,
        205 => StatusCode::ResetContent,
        206 => StatusCode::PartialContent,
        300 => StatusCode::MultipleChoices,
        301 => StatusCode::MovedPermanently,
        302 => StatusCode::Found,
        303 => StatusCode::SeeOther,
        304 => StatusCode::NotModified,
        305 => StatusCode::UseProxy,
        307 => StatusCode::TemporaryRedirect,
        400 => StatusCode::BadRequest,
        401 => StatusCode::Unauthorized,
        402 => StatusCode::PaymentRequired,
        403 => StatusCode::Forbidden,
        404 => StatusCode::NotFound,
        405 => StatusCode::MethodNotAllowed,
        406 => StatusCode::NotAccetable,
        407 => StatusCode::ProxyAuthenticationRequired,
        408 => StatusCode::RequestTimeout,
        409 => StatusCode::Conflict,
        410 => StatusCode::Gone,
        411 => StatusCode::LengthRequired,
        412 => StatusCode::PreconditionFailed,
        413 => StatusCode::PayloadTooLarge,
        414 => StatusCode::URITooLong,
        415 => StatusCode::UnsupportedMediaType,
        416 => StatusCode::RangeNotSatisfiable,
        417 => StatusCode::ExpectationFailed,
        419 => StatusCode::TooManyRequests,
        421 => StatusCode::MisdirectedRequest,
        426 => StatusCode::UpgradeRequired,
        500 => StatusCode::InternalServerError,
        501 => StatusCode::NotImplemented,
        502 => StatusCode::BadGateway,
        503 => StatusCode::ServiceUnavailable,
        504 => StatusCode::GatewayTimeout,
        505 => StatusCode::HTTPVersionNotSupported,
        _ => StatusCode::Unknown(value),
    }
}

/// The number of a status.
pub open spec fn spec_code(status: StatusCode) -> u16 {
    match status {
        StatusCode::Continue => 100,
        StatusCode::SwitchingProtocols => 101,
        StatusCode::OK => 200,
        StatusCode::Created => 201,
        StatusCode::Accepted => 202,
        StatusCode::NonAuthoritativeInformation => 203,
        StatusCode::NoContent => 204,
        StatusCode::ResetContent => 205,
        StatusCode::PartialContent => 206,
        StatusCode::MultipleChoices => 300,
        StatusCode::MovedPermanently => 301,
        StatusCode::Found => 302,
        StatusCode::SeeOther => 303,
        StatusCode::NotModified => 304,
        StatusCode::UseProxy => 305,
        StatusCode::TemporaryRedirect => 307,
        StatusCode::BadRequest => 400,
        StatusCode::Unauthorized => 401,
        StatusCode::PaymentRequired => 402,
        StatusCode::Forbidden => 403,
        StatusCode::NotFound => 404,
        StatusCode::MethodNotAllowed => 405,
        StatusCode::NotAccetable => 406,
        StatusCode::ProxyAuthenticationRequired => 407,
        StatusCode::RequestTimeout => 408,
        StatusCode::Conflict => 409,
        StatusCode::Gone => 410,
        StatusCode::LengthRequired => 411,
        StatusCode::PreconditionFailed => 412,
        StatusCode::PayloadTooLarge => 413,
        StatusCode::URITooLong => 414,
        StatusCode::UnsupportedMediaType => 415,
        StatusCode::RangeNotSatisfiable => 416,
        StatusCode::ExpectationFailed => 417,
        StatusCode::TooManyRequests => 419,
        StatusCode::MisdirectedRequest => 421,
        StatusCode::UpgradeRequired => 426,
        StatusCode::InternalServerError => 500,
        StatusCode::NotImplemented => 501,
        StatusCode::BadGateway => 502,
        StatusCode::ServiceUnavailable => 503,
        StatusCode::GatewayTimeout => 504,
        StatusCode::HTTPVersionNotSupported => 505,
        StatusCode::Unknown(value) => value,
    }
}

/// A status that is not a number which has a name of its own.
pub open spec fn is_canonical(status: StatusCode) -> bool {
    match status {
        StatusCode::Unknown(value) => spec_status_code(value) == StatusCode::Unknown(value),
        _ => true,
    }
}

impl StatusCode {
    /// The named status for a number.
    pub fn from_code(value: u16) -> (s: StatusCode)
        ensures
            s == spec_status_code(value),
    {
        match value {
            100 => StatusCode::Continue,
            101 => StatusCode::SwitchingProtocols,
            200 => StatusCode::OK,
            201 => StatusCode::Created,
            202 => StatusCode::Accepted,
            203 => StatusCode::NonAuthoritativeInformation,
            204 => StatusCode::NoContent,
            205 => StatusCode::ResetContent,
            206 => StatusCode::PartialContent,
            300 => StatusCode::MultipleChoices,
            301 => StatusCode::MovedPermanently,
            302 => StatusCode::Found,
            303 => StatusCode::SeeOther,
            304 => StatusCode::NotModified,
            305 => StatusCode::UseProxy,
            307 => StatusCode::TemporaryRedirect,
            400 => StatusCode::BadRequest,
            401 => StatusCode::Unauthorized,
            402 => StatusCode::PaymentRequired,
            403 => StatusCode::Forbidden,
            404 => StatusCode::NotFound,
            405 => StatusCode::MethodNotAllowed,
            406 => StatusCode::NotAccetable,
            407 => StatusCode::ProxyAuthenticationRequired,
            408 => StatusCode::RequestTimeout,
            409 => StatusCode::Conflict,
            410 => StatusCode::Gone,
            411 => StatusCode::LengthRequired,
            412 => StatusCode::PreconditionFailed,
            413 => StatusCode::PayloadTooLarge,
            414 => StatusCode::URITooLong,
            415 => StatusCode::UnsupportedMediaType,
            416 => StatusCode::RangeNotSatisfiable,
            417 => StatusCode::ExpectationFailed,
            419 => StatusCode::TooManyRequests,
            421 => StatusCode::MisdirectedRequest,
            426 => StatusCode::UpgradeRequired,
            500 => StatusCode::InternalServerError,
            501 => StatusCode::NotImplemented,
            502 => StatusCode::BadGateway,
            503 => StatusCode::ServiceUnavailable,
            504 => StatusCode::GatewayTimeout,
            505 => StatusCode::HTTPVersionNotSupported,
            _ => StatusCode::Unknown(value),
        }
    }

    /// The number of the status.
    pub fn code(&self) -> (v: u16)
        ensures
            v == spec_code(*self),
    {
        match self {
            StatusCode::Continue => 100,
            StatusCode::SwitchingProtocols => 101,
            StatusCode::OK => 200,
            StatusCode::Created => 201,
            StatusCode::Accepted => 202,
            StatusCode::NonAuthoritativeInformation => 203,
            StatusCode::NoContent => 204,
            StatusCode::ResetContent => 205,
            StatusCode::PartialContent => 206,
            StatusCode::MultipleChoices => 300,
            StatusCode::MovedPermanently => 301,
            StatusCode::Found => 302,
            StatusCode::SeeOther => 303,
            StatusCode::NotModified => 304,
            StatusCode::UseProxy => 305,
            StatusCode::TemporaryRedirect => 307,
            StatusCode::BadRequest => 400,
            StatusCode::Unauthorized => 401,
            StatusCode::PaymentRequired => 402,
            StatusCode::Forbidden => 403,
            StatusCode::NotFound => 404,
            StatusCode::MethodNotAllowed => 405,
            StatusCode::NotAccetable => 406,
            StatusCode::ProxyAuthenticationRequired => 407,
            StatusCode::RequestTimeout => 408,
            StatusCode::Conflict => 409,
            StatusCode::Gone => 410,
            StatusCode::LengthRequired => 411,
            StatusCode::PreconditionFailed => 412,
            StatusCode::PayloadTooLarge => 413,
            StatusCode::URITooLong => 414,
            StatusCode::UnsupportedMediaType => 415,
            StatusCode::RangeNotSatisfiable => 416,
            StatusCode::ExpectationFailed => 417,
            StatusCode::TooManyRequests => 419,
            StatusCode::MisdirectedRequest => 421,
            StatusCode::UpgradeRequired => 426,
            StatusCode::InternalServerError => 500,
            StatusCode::NotImplemented => 501,
            StatusCode::BadGateway => 502,
            StatusCode::ServiceUnavailable => 503,
            StatusCode::GatewayTimeout => 504,
            StatusCode::HTTPVersionNotSupported => 505,
            StatusCode::Unknown(value) => *value,
        }
    }

    /// The number of the status in decimal, as in `200`.
    pub fn to_string(&self) -> (s: String)
        ensures
            s@ == decimal(spec_code(*self) as nat),
    {
        u64_to_decimal(self.code() as u64)
    }
}

impl From<u16> for StatusCode {
    fn from(value: u16) -> (s: StatusCode) {
        StatusCode::from_code(value)
    }
}

impl vstd::std_specs::convert::FromSpecImpl<u16> for StatusCode {
    open spec fn obeys_from_spec() -> bool {
        true
    }

    open spec fn from_spec(value: u16) -> StatusCode {
        spec_status_code(value)
    }
}

impl From<StatusCode> for u16 {
    fn from(status: StatusCode) -> (v: u16) {
        status.code()
    }
}

impl vstd::std_specs::convert::FromSpecImpl<StatusCode> for u16 {
    open spec fn obeys_from_spec() -> bool {
        true
    }

    open spec fn from_spec(status: StatusCode) -> u16 {
        spec_code(status)
    }
}

/// A number turned into a status and back is the same number.
pub proof fn lemma_code_roundtrip(value: u16)
    ensures
        spec_code(spec_status_code(value)) == value,
{
}

/// A status that is not an unnamed alias of a named number survives the
/// trip through its number.
pub proof fn lemma_status_roundtrip(status: StatusCode)
    requires
        is_canonical(status),
    ensures
        spec_status_code(spec_code(status)) == status,
{
}

/// Law: every named status carries the number it is named after
/// (`BadRequest` is 400, `Unauthorized` 401, `NotFound` 404, ...), and each
/// of those numbers is read as its named status.
pub proof fn lemma_status_numbers(status: StatusCode)
    ensures
        status == StatusCode::Continue ==> spec_code(status) == 100,
        status == StatusCode::SwitchingProtocols ==> spec_code(status) == 101,
        status == StatusCode::OK ==> spec_code(status) == 200,
        status == StatusCode::Created ==> spec_code(status) == 201,
        status == StatusCode::Accepted ==> spec_code(status) == 202,
        status == StatusCode::NonAuthoritativeInformation ==> spec_code(status) == 203,
        status == StatusCode::NoContent ==> spec_code(status) == 204,
        status == StatusCode::ResetContent ==> spec_code(status) == 205,
        status == StatusCode::PartialContent ==> spec_code(status) == 206,
        status == StatusCode::MultipleChoices ==> spec_code(status) == 300,
        status == StatusCode::MovedPermanently ==> spec_code(status) == 301,
        status == StatusCode::Found ==> spec_code(status) == 302,
        status == StatusCode::SeeOther ==> spec_code(status) == 303,
        status == StatusCode::NotModified ==> spec_code(status) == 304,
        status == StatusCode::UseProxy ==> spec_code(status) == 305,
        status == StatusCode::TemporaryRedirect ==> spec_code(status) == 307,
        status == StatusCode::BadRequest ==> spec_code(status) == 400,
        status == StatusCode::Unauthorized ==> spec_code(status) == 401,
        status == StatusCode::PaymentRequired ==> spec_code(status) == 402,
        status == StatusCode::Forbidden ==> spec_code(status) == 403,
        status == StatusCode::NotFound ==> spec_code(status) == 404,
        status == StatusCode::MethodNotAllowed ==> spec_code(status) == 405,
        status == StatusCode::NotAccetable ==> spec_code(status) == 406,
        status == StatusCode::ProxyAuthenticationRequired ==> spec_code(status) == 407,
        status == StatusCode::RequestTimeout ==> spec_code(status) == 408,
        status == StatusCode::Conflict ==> spec_code(status) == 409,
        status == StatusCode::Gone ==> spec_code(status) == 410,
        status == StatusCode::LengthRequired ==> spec_code(status) == 411,
        status == StatusCode::PreconditionFailed ==> spec_code(status) == 412,
        status == StatusCode::PayloadTooLarge ==> spec_code(status) == 413,
        status == StatusCode::URITooLong ==> spec_code(status) == 414,
        status == StatusCode::UnsupportedMediaType ==> spec_code(status) == 415,
        status == StatusCode::RangeNotSatisfiable ==> spec_code(status) == 416,
        status == StatusCode::ExpectationFailed ==> spec_code(status) == 417,
        status == StatusCode::TooManyRequests ==> spec_code(status) == 419,
        status == StatusCode::MisdirectedRequest ==> spec_code(status) == 421,
        status == StatusCode::UpgradeRequired ==> spec_code(status) == 426,
        status == StatusCode::InternalServerError ==> spec_code(status) == 500,
        status == StatusCode::NotImplemented ==> spec_code(status) == 501,
        status == StatusCode::BadGateway ==> spec_code(status) == 502,
        status == StatusCode::ServiceUnavailable ==> spec_code(status) == 503,
        status == StatusCode::GatewayTimeout ==> spec_code(status) == 504,
        status == StatusCode::HTTPVersionNotSupported ==> spec_code(status) == 505,
        spec_status_code(100) == StatusCode::Continue,
        spec_status_code(101) == StatusCode::SwitchingProtocols,
        spec_status_code(200) == StatusCode::OK,
        spec_status_code(201) == StatusCode::Created,
        spec_status_code(202) == StatusCode::Accepted,
        spec_status_code(203) == StatusCode::NonAuthoritativeInformation,
        spec_status_code(204) == StatusCode::NoContent,
        spec_status_code(205) == StatusCode::ResetContent,
        spec_status_code(206) == StatusCode::PartialContent,
        spec_status_code(300) == StatusCode::MultipleChoices,
        spec_status_code(301) == StatusCode::MovedPermanently,
        spec_status_code(302) == StatusCode::Found,
        spec_status_code(303) == StatusCode::SeeOther,
        spec_status_code(304) == StatusCode::NotModified,
        spec_status_code(305) == StatusCode::UseProxy,
        spec_status_code(307) == StatusCode::TemporaryRedirect,
        spec_status_code(400) == StatusCode::BadRequest,
        spec_status_code(401) == StatusCode::Unauthorized,
        spec_status_code(402) == StatusCode::PaymentRequired,
        spec_status_code(403) == StatusCode::Forbidden,
        spec_status_code(404) == StatusCode::NotFound,
        spec_status_code(405) == StatusCode::MethodNotAllowed,
        spec_status_code(406) == StatusCode::NotAccetable,
        spec_status_code(407) == StatusCode::ProxyAuthenticationRequired,
        spec_status_code(408) == StatusCode::RequestTimeout,
        spec_status_code(409) == StatusCode::Conflict,
        spec_status_code(410) == StatusCode::Gone,
        spec_status_code(411) == StatusCode::LengthRequired,
        spec_status_code(412) == StatusCode::PreconditionFailed,
        spec_status_code(413) == StatusCode::PayloadTooLarge,
        spec_status_code(414) == StatusCode::URITooLong,
        spec_status_code(415) == StatusCode::UnsupportedMediaType,
        spec_status_code(416) == StatusCode::RangeNotSatisfiable,
        spec_status_code(417) == StatusCode::ExpectationFailed,
        spec_status_code(419) == StatusCode::TooManyRequests,
        spec_status_code(421) == StatusCode::MisdirectedRequest,
        spec_status_code(426) == StatusCode::UpgradeRequired,
        spec_status_code(500) == StatusCode::InternalServerError,
        spec_status_code(501) == StatusCode::NotImplemented,
        spec_status_code(502) == StatusCode::BadGateway,
        spec_status_code(503) == StatusCode::ServiceUnavailable,
        spec_status_code(504) == StatusCode::GatewayTimeout,
        spec_status_code(505) == StatusCode::HTTPVersionNotSupported,
{
}

} // verus!
