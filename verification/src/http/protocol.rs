//! Protocol names of a request line.

use crate::error::Error;
use crate::text::str_eq;
use vstd::prelude::*;
use vstd::string::StringExecFns;

verus! {

/// A protocol and its version, as named in a request line.
#[derive(Debug)]
pub enum Protocol {
    Http(String),
}

/// The version part of a supported protocol name.
pub open spec fn spec_parse_protocol(s: Seq<char>) -> Option<Seq<char>> {
    if s == "HTTP/1.1"@ {
        Some("1.1"@)
    } else if s == "HTTP/2.0"@ {
        Some("2.0"@)
    } else {
        None
    }
}

impl Protocol {
    /// The protocol that `s` names; `Error::UnsupportedProtocol` for anything
    /// but `HTTP/1.1` and `HTTP/2.0`.
    pub fn parse(s: &str) -> (r: Result<Protocol, Error>)
        ensures
            match (r, spec_parse_protocol(s@)) {
                (Ok(Protocol::Http(v)), Some(w)) => v@ == w,
                (Err(e), None) => e == Error::UnsupportedProtocol,
                _ => false,
            },
    {
        if str_eq(s, "HTTP/1.1") {
            Ok(Protocol::Http("1.1".to_owned()))
        } else if str_eq(s, "HTTP/2.0") {
            Ok(Protocol::Http("2.0".to_owned()))
        } else {
            Err(Error::UnsupportedProtocol)
        }
    }

    /// The protocol name, as in `HTTP/1.1`.
    pub fn to_string(&self) -> (s: String)
        ensures
            match self {
                Protocol::Http(v) => s@ == "HTTP/"@ + v@,
            },
    {
        match self {
            Protocol::Http(v) => {
                let mut s = "HTTP/".to_owned();
                s.append(v.as_str());
                s
            },
        }
    }
}

impl std::str::FromStr for Protocol {
    type Err = Error;

    fn from_str(s: &str) -> (r: Result<Protocol, Error>)
        ensures
            match (r, spec_parse_protocol(s@)) {
                (Ok(Protocol::Http(v)), Some(w)) => v@ == w,
                (Err(e), None) => e == Error::UnsupportedProtocol,
                _ => false,
            },
    {
        Protocol::parse(s)
    }
}

/// A parsed protocol is written back as the text it was read from.
pub proof fn lemma_protocol_roundtrip(s: Seq<char>)
    requires
        spec_parse_protocol(s) is Some,
    ensures
        "HTTP/"@ + spec_parse_protocol(s).unwrap() == s,
{
    reveal_strlit("HTTP/1.1");
    reveal_strlit("HTTP/2.0");
    reveal_strlit("HTTP/");
    reveal_strlit("1.1");
    reveal_strlit("2.0");
    if s == "HTTP/1.1"@ {
        assert("HTTP/"@ + "1.1"@ =~= "HTTP/1.1"@);
    } else {
        assert("HTTP/"@ + "2.0"@ =~= "HTTP/2.0"@);
    }
}

} // verus!
