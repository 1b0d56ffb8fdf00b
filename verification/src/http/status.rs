//! Numeric status codes and their reason phrases.

use crate::text::{decimal, u64_to_decimal};
use vstd::prelude::*;

verus! {

/// A numeric HTTP status code.
#[derive(Debug, Clone, Copy, PartialEq, Eq, Structural)]
pub struct Status(pub u16);

impl Status {
    // Named codes, one function each.
    // 1xx Informational
    #[allow(non_snake_case)]
    pub fn CONTINUE() -> (s: Status)
        ensures
            s.0 == 100,
    {
        Status(100)
    }

    #[allow(non_snake_case)]
    pub fn SWITCHING_PROTOCOLS() -> (s: Status)
        ensures
            s.0 == 101,
    {
        Status(101)
    }

    // 2xx Success
    #[allow(non_snake_case)]
    pub fn OK() -> (s: Status)
        ensures
            s.0 == 200,
    {
        Status(200)
    }

    #[allow(non_snake_case)]
    pub fn CREATED() -> (s: Status)
        ensures
            s.0 == 201,
    {
        Status(201)
    }

    #[allow(non_snake_case)]
    pub fn ACCEPTED() -> (s: Status)
        ensures
            s.0 == 202,
    {
        Status(202)
    }

    #[allow(non_snake_case)]
    pub fn NON_AUTHORITATIVE_INFORMATION() -> (s: Status)
        ensures
            s.0 == 203,
    {
        Status(203)
    }

    #[allow(non_snake_case)]
    pub fn NO_CONTENT() -> (s: Status)
        ensures
            s.0 == 204,
    {
        Status(204)
    }

    #[allow(non_snake_case)]
    pub fn RESET_CONTENT() -> (s: Status)
        ensures
            s.0 == 205,
    {
        Status(205)
    }

    #[allow(non_snake_case)]
    pub fn PARTIAL_CONTENT() -> (s: Status)
        ensures
            s.0 == 206,
    {
        Status(206)
    }

    // 3xx Redirection
    #[allow(non_snake_case)]
    pub fn MULTIPLE_CHOICES() -> (s: Status)
        ensures
            s.0 == 300,
    {
        Status(300)
    }

    #[allow(non_snake_case)]
    pub fn MOVED_PERMANENTLY() -> (s: Status)
        ensures
            s.0 == 301,
    {
        Status(301)
    }

    #[allow(non_snake_case)]
    pub fn FOUND() -> (s: Status)
        ensures
            s.0 == 302,
    {
        Status(302)
    }

    #[allow(non_snake_case)]
    pub fn SEE_OTHER() -> (s: Status)
        ensures
            s.0 == 303,
    {
        Status(303)
    }

    #[allow(non_snake_case)]
    pub fn NOT_MODIFIED() -> (s: Status)
        ensures
            s.0 == 304,
    {
        Status(304)
    }

    #[allow(non_snake_case)]
    pub fn USE_PROXY() -> (s: Status)
        ensures
            s.0 == 305,
    {
        Status(305)
    }

    #[allow(non_snake_case)]
    pub fn TEMPORARY_REDIRECT() -> (s: Status)
        ensures
            s.0 == 307,
    {
        Status(307)
    }

    // 4xx Client Error
    #[allow(non_snake_case)]
    pub fn BAD_REQUEST() -> (s: Status)
        ensures
            s.0 == 400,
    {
        Status(400)
    }

    #[allow(non_snake_case)]
    pub fn UNAUTHORIZED() -> (s: Status)
        ensures
            s.0 == 401,
    {
        Status(401)
    }

    #[allow(non_snake_case)]
    pub fn PAYMENT_REQUIRED() -> (s: Status)
        ensures
            s.0 == 402,
    {
        Status(402)
    }

    #[allow(non_snake_case)]
    pub fn FORBIDDEN() -> (s: Status)
        ensures
            s.0 == 403,
    {
        Status(403)
    }

    #[allow(non_snake_case)]
    pub fn NOT_FOUND() -> (s: Status)
        ensures
            s.0 == 404,
    {
        Status(404)
    }

    #[allow(non_snake_case)]
    pub fn METHOD_NOT_ALLOWED() -> (s: Status)
        ensures
            s.0 == 405,
    {
        Status(405)
    }

    #[allow(non_snake_case)]
    pub fn NOT_ACCEPTABLE() -> (s: Status)
        ensures
            s.0 == 406,
    {
        Status(406)
    }

    #[allow(non_snake_case)]
    pub fn PROXY_AUTHENTICATION_REQUIRED() -> (s: Status)
        ensures
            s.0 == 407,
    {
        Status(407)
    }

    #[allow(non_snake_case)]
    pub fn REQUEST_TIMEOUT() -> (s: Status)
        ensures
            s.0 == 408,
    {
        Status(408)
    }

    #[allow(non_snake_case)]
    pub fn CONFLICT() -> (s: Status)
        ensures
            s.0 == 409,
    {
        Status(409)
    }

    #[allow(non_snake_case)]
    pub fn GONE() -> (s: Status)
        ensures
            s.0 == 410,
    {
        Status(410)
    }

    #[allow(non_snake_case)]
    pub fn LENGTH_REQUIRED() -> (s: Status)
        ensures
            s.0 == 411,
    {
        Status(411)
    }

    #[allow(non_snake_case)]
    pub fn PRECONDITION_FAILED() -> (s: Status)
        ensures
            s.0 == 412,
    {
        Status(412)
    }

    #[allow(non_snake_case)]
    pub fn PAYLOAD_TOO_LARGE() -> (s: Status)
        ensures
            s.0 == 413,
    {
        Status(413)
    }

    #[allow(non_snake_case)]
    pub fn URI_TOO_LONG() -> (s: Status)
        ensures
            s.0 == 414,
    {
        Status(414)
    }

    #[allow(non_snake_case)]
    pub fn UNSUPPORTED_MEDIA_TYPE() -> (s: Status)
        ensures
            s.0 == 415,
    {
        Status(415)
    }

    #[allow(non_snake_case)]
    pub fn RANGE_NOT_SATISFIABLE() -> (s: Status)
        ensures
            s.0 == 416,
    {
        Status(416)
    }

    #[allow(non_snake_case)]
    pub fn EXPECTATION_FAILED() -> (s: Status)
        ensures
            s.0 == 417,
    {
        Status(417)
    }

    #[allow(non_snake_case)]
    pub fn TOO_MANY_REQUESTS() -> (s: Status)
        ensures
            s.0 == 429,
    {
        Status(429)
    }

    #[allow(non_snake_case)]
    pub fn MISDIRECTED_REQUEST() -> (s: Status)
        ensures
            s.0 == 421,
    {
        Status(421)
    }

    #[allow(non_snake_case)]
    pub fn UPGRADE_REQUIRED() -> (s: Status)
        ensures
            s.0 == 426,
    {
        Status(426)
    }

    // 5xx Server Error
    #[allow(non_snake_case)]
    pub fn INTERNAL_SERVER_ERROR() -> (s: Status)
        ensures
            s.0 == 500,
    {
        Status(500)
    }

    #[allow(non_snake_case)]
    pub fn NOT_IMPLEMENTED() -> (s: Status)
        ensures
            s.0 == 501,
    {
        Status(501)
    }

    #[allow(non_snake_case)]
    pub fn BAD_GATEWAY() -> (s: Status)
        ensures
            s.0 == 502,
    {
        Status(502)
    }

    #[allow(non_snake_case)]
    pub fn SERVICE_UNAVAILABLE() -> (s: Status)
        ensures
            s.0 == 503,
    {
        Status(503)
    }

    #[allow(non_snake_case)]
    pub fn GATEWAY_TIMEOUT() -> (s: Status)
        ensures
            s.0 == 504,
    {
        Status(504)
    }

    #[allow(non_snake_case)]
    pub fn HTTP_VERSION_NOT_SUPPORTED() -> (s: Status)
        ensures
            s.0 == 505,
    {
        Status(505)
    }


    /// The reason phrase of the code; empty for codes without one.
    pub fn reason_phrase(&self) -> (r: &'static str)
        ensures
            r@ == spec_reason_phrase(self.0),
    {
        match self.0 {
            100 => "Continue",
            101 => "Switching Protocols",
            200 => "OK",
            201 => "Created",
            202 => "Accepted",
            203 => "Non-Authoritative Information",
            204 => "No Content",
            205 => "Reset Content",
            206 => "Partial Content",
            300 => "Multiple Choices",
            301 => "Moved Permanently",
            302 => "Found",
            303 => "See Other",
            304 => "Not Modified",
            305 => "Use Proxy",
            307 => "Temporary Redirect",
            400 => "Bad Request",
            401 => "Unauthorized",
            402 => "Payment Required",
            403 => "Forbidden",
            404 => "Not Found",
            405 => "Method Not Allowed",
            406 => "Not Acceptable",
            407 => "Proxy Authentication Required",
            408 => "Request Timeout",
            409 => "Conflict",
            410 => "Gone",
            411 => "Length Required",
            412 => "Precondition Failed",
            413 => "Payload Too Large",
            414 => "URI Too Long",
            415 => "Unsupported Media Type",
            416 => "Range Not Satisfiable",
            417 => "Expectation Failed",
            421 => "Misdirected Request",
            426 => "Upgrade Required",
            429 => "Too Many Requests",
            500 => "Internal Server Error",
            501 => "Not Implemented",
            502 => "Bad Gateway",
            503 => "Service Unavailable",
            504 => "Gateway Timeout",
            505 => "HTTP Version Not Supported",
            _ => "",
        }
    }

    /// The code in decimal, as in `200`.
    pub fn to_string(&self) -> (s: String)
        ensures
            s@ == decimal(self.0 as nat),
    {
        u64_to_decimal(self.0 as u64)
    }
}

/// The reason phrase of each code; the empty text for codes without one.
pub open spec fn spec_reason_phrase(code: u16) -> Seq<char> {
    match code {
        100 => "Continue"@,
        101 => "Switching Protocols"@,
        200 => "OK"@,
        201 => "Created"@,
        202 => "Accepted"@,
        203 => "Non-Authoritative Information"@,
        204 => "No Content"@,
        205 => "Reset Content"@,
        206 => "Partial Content"@,
        300 => "Multiple Choices"@,
        301 => "Moved Permanently"@,
        302 => "Found"@,
        303 => "See Other"@,
        304 => "Not Modified"@,
        305 => "Use Proxy"@,
        307 => "Temporary Redirect"@,
        400 => "Bad Request"@,
        401 => "Unauthorized"@,
        402 => "Payment Required"@,
        403 => "Forbidden"@,
        404 => "Not Found"@,
        405 => "Method Not Allowed"@,
        406 => "Not Acceptable"@,
        407 => "Proxy Authentication Required"@,
        408 => "Request Timeout"@,
        409 => "Conflict"@,
        410 => "Gone"@,
        411 => "Length Required"@,
        412 => "Precondition Failed"@,
        413 => "Payload Too Large"@,
        414 => "URI Too Long"@,
        415 => "Unsupported Media Type"@,
        416 => "Range Not Satisfiable"@,
        417 => "Expectation Failed"@,
        421 => "Misdirected Request"@,
        426 => "Upgrade Required"@,
        429 => "Too Many Requests"@,
        500 => "Internal Server Error"@,
        501 => "Not Implemented"@,
        502 => "Bad Gateway"@,
        503 => "Service Unavailable"@,
        504 => "Gateway Timeout"@,
        505 => "HTTP Version Not Supported"@,
        _ => ""@,
    }
}

} // verus!
