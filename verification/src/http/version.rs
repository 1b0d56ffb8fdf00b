//! HTTP versions.

use crate::error::Error;
use crate::text::str_eq;
use vstd::prelude::*;

verus! {

/// An HTTP protocol version.
#[derive(Debug, PartialEq, Eq, Clone, Copy, Structural)]
pub enum Version {
    Http10,
    Http11,
    Http2,
    Http3,
}

/// The text of each version as it is written out.
pub open spec fn version_name(v: Version) -> Seq<char> {
    match v {
        Version::Http10 => "HTTP/1.0"@,
        Version::Http11 => "HTTP/1.1"@,
        Version::Http2 => "HTTP/2.0"@,
        Version::Http3 => "HTTP/3.0"@,
    }
}

/// The version that a text names; the short forms `HTTP/2` and `HTTP/3` are
/// accepted too.
pub open spec fn spec_parse_version(s: Seq<char>) -> Option<Version> {
    if s == "HTTP/1.0"@ {
        Some(Version::Http10)
    } else if s == "HTTP/1.1"@ {
        Some(Version::Http11)
    } else if s == "HTTP/2"@ || s == "HTTP/2.0"@ {
        Some(Version::Http2)
    } else if s == "HTTP/3"@ || s == "HTTP/3.0"@ {
        Some(Version::Http3)
    } else {
        None
    }
}

/// The result of parsing a version.
pub open spec fn spec_version_result(s: Seq<char>) -> Result<Version, Error> {
    match spec_parse_version(s) {
        Some(v) => Ok(v),
        None => Err(Error::UnsupportedProtocol),
    }
}

impl Version {
    /// The version that `s` names; `Error::UnsupportedProtocol` otherwise.
    pub fn parse(s: &str) -> (r: Result<Version, Error>)
        ensures
            r == spec_version_result(s@),
    {
        if str_eq(s, "HTTP/1.0") {
            Ok(Version::Http10)
        } else if str_eq(s, "HTTP/1.1") {
            Ok(Version::Http11)
        } else if str_eq(s, "HTTP/2") || str_eq(s, "HTTP/2.0") {
            Ok(Version::Http2)
        } else if str_eq(s, "HTTP/3") || str_eq(s, "HTTP/3.0") {
            Ok(Version::Http3)
        } else {
            Err(Error::UnsupportedProtocol)
        }
    }

    /// The text of the version, as in `HTTP/1.1`.
    pub fn to_string(&self) -> (s: String)
        ensures
            s@ == version_name(*self),
    {
        match self {
            Version::Http10 => "HTTP/1.0".to_owned(),
            Version::Http11 => "HTTP/1.1".to_owned(),
            Version::Http2 => "HTTP/2.0".to_owned(),
            Version::Http3 => "HTTP/3.0".to_owned(),
        }
    }
}

impl std::str::FromStr for Version {
    type Err = Error;

    fn from_str(s: &str) -> (r: Result<Version, Error>)
        ensures
            r == spec_version_result(s@),
    {
        Version::parse(s)
    }
}

/// Every version is read back from the text it is written as.
pub proof fn lemma_version_roundtrip(v: Version)
    ensures
        spec_parse_version(version_name(v)) == Some(v),
{
    reveal_strlit("HTTP/1.0");
    reveal_strlit("HTTP/1.1");
    reveal_strlit("HTTP/2");
    reveal_strlit("HTTP/2.0");
    reveal_strlit("HTTP/3");
    reveal_strlit("HTTP/3.0");
    assert("HTTP/1.0"@[7] == '0' && "HTTP/1.1"@[7] == '1');
    assert("HTTP/1.0"@ != "HTTP/1.1"@);
    assert("HTTP/2.0"@[5] == '2' && "HTTP/3.0"@[5] == '3' && "HTTP/1.0"@[5] == '1'
        && "HTTP/1.1"@[5] == '1');
    assert("HTTP/2.0"@ != "HTTP/1.0"@ && "HTTP/2.0"@ != "HTTP/1.1"@);
    assert("HTTP/3.0"@ != "HTTP/1.0"@ && "HTTP/3.0"@ != "HTTP/1.1"@ && "HTTP/3.0"@
        != "HTTP/2.0"@);
    assert("HTTP/2"@.len() == 6 && "HTTP/3"@.len() == 6 && "HTTP/3.0"@.len() == 8);
}

} // verus!
