//! Request methods.

use crate::error::Error;
use crate::text::str_eq;
use vstd::prelude::*;

verus! {

/// An HTTP request method.
#[derive(Debug, PartialEq, Eq, Clone, Copy, Structural)]
pub enum Method {
    HEAD,
    OPTIONS,
    GET,
    POST,
    PUT,
    DELETE,
    CONNECT,
    PATCH,
    TRACE,
}

/// The token that names each method on the wire.
pub open spec fn method_name(m: Method) -> Seq<char> {
    match m {
        Method::HEAD => "HEAD"@,
        Method::OPTIONS => "OPTIONS"@,
        Method::GET => "GET"@,
        Method::POST => "POST"@,
        Method::PUT => "PUT"@,
        Method::DELETE => "DELETE"@,
        Method::CONNECT => "CONNECT"@,
        Method::PATCH => "PATCH"@,
        Method::TRACE => "TRACE"@,
    }
}

/// The method that a token names, if any; tokens are case-sensitive.
pub open spec fn spec_parse_method(s: Seq<char>) -> Option<Method> {
    if s == "HEAD"@ {
        Some(Method::HEAD)
    } else if s == "OPTIONS"@ {
        Some(Method::OPTIONS)
    } else if s == "GET"@ {
        Some(Method::GET)
    } else if s == "POST"@ {
        Some(Method::POST)
    } else if s == "PUT"@ {
        Some(Method::PUT)
    } else if s == "DELETE"@ {
        Some(Method::DELETE)
    } else if s == "CONNECT"@ {
        Some(Method::CONNECT)
    } else if s == "PATCH"@ {
        Some(Method::PATCH)
    } else if s == "TRACE"@ {
        Some(Method::TRACE)
    } else {
        None
    }
}

/// The result of parsing a method token.
pub open spec fn spec_method_result(s: Seq<char>) -> Result<Method, Error> {
    match spec_parse_method(s) {
        Some(m) => Ok(m),
        None => Err(Error::InvalidMethod),
    }
}

impl Method {
    /// The method that `s` names; `Error::InvalidMethod` for any other text.
    pub fn parse(s: &str) -> (r: Result<Method, Error>)
        ensures
            r == spec_method_result(s@),
    {
        if str_eq(s, "HEAD") {
            Ok(Method::HEAD)
        } else if str_eq(s, "OPTIONS") {
            Ok(Method::OPTIONS)
        } else if str_eq(s, "GET") {
            Ok(Method::GET)
        } else if str_eq(s, "POST") {
            Ok(Method::POST)
        } else if str_eq(s, "PUT") {
            Ok(Method::PUT)
        } else if str_eq(s, "DELETE") {
            Ok(Method::DELETE)
        } else if str_eq(s, "CONNECT") {
            Ok(Method::CONNECT)
        } else if str_eq(s, "PATCH") {
            Ok(Method::PATCH)
        } else if str_eq(s, "TRACE") {
            Ok(Method::TRACE)
        } else {
            Err(Error::InvalidMethod)
        }
    }

    /// The token that names the method.
    pub fn to_string(&self) -> (s: String)
        ensures
            s@ == method_name(*self),
    {
        match self {
            Method::HEAD => "HEAD".to_owned(),
            Method::OPTIONS => "OPTIONS".to_owned(),
            Method::GET => "GET".to_owned(),
            Method::POST => "POST".to_owned(),
            Method::PUT => "PUT".to_owned(),
            Method::DELETE => "DELETE".to_owned(),
            Method::CONNECT => "CONNECT".to_owned(),
            Method::PATCH => "PATCH".to_owned(),
            Method::TRACE => "TRACE".to_owned(),
        }
    }
}

impl std::str::FromStr for Method {
    type Err = Error;

    fn from_str(s: &str) -> (r: Result<Method, Error>)
        ensures
            r == spec_method_result(s@),
    {
        Method::parse(s)
    }
}

/// Every method is read back from the token that names it.
pub proof fn lemma_method_roundtrip(m: Method)
    ensures
        spec_parse_method(method_name(m)) == Some(m),
{
    reveal_strlit("HEAD");
    reveal_strlit("OPTIONS");
    reveal_strlit("GET");
    reveal_strlit("POST");
    reveal_strlit("PUT");
    reveal_strlit("DELETE");
    reveal_strlit("CONNECT");
    reveal_strlit("PATCH");
    reveal_strlit("TRACE");
    assert("HEAD"@.len() == 4);
    assert("OPTIONS"@.len() == 7);
    assert("GET"@.len() == 3);
    assert("POST"@.len() == 4);
    assert("PUT"@.len() == 3);
    assert("DELETE"@.len() == 6);
    assert("CONNECT"@.len() == 7);
    assert("PATCH"@.len() == 5);
    assert("TRACE"@.len() == 5);
    assert("HEAD"@[0] == 'H' && "POST"@[0] == 'P');
    assert("HEAD"@ != "POST"@);
    assert("OPTIONS"@[0] == 'O' && "CONNECT"@[0] == 'C');
    assert("OPTIONS"@ != "CONNECT"@);
    assert("GET"@[0] == 'G' && "PUT"@[0] == 'P');
    assert("GET"@ != "PUT"@);
    assert("PATCH"@[0] == 'P' && "TRACE"@[0] == 'T');
    assert("PATCH"@ != "TRACE"@);
}

/// Law: every method goes on the wire as its own name in capitals, and no
/// other method does (`PUT` as "PUT", `DELETE` as "DELETE", ...); each of
/// those nine tokens is read as the method it names.
pub proof fn lemma_method_tokens(m: Method)
    ensures
        m == Method::HEAD <==> method_name(m) == "HEAD"@,
        m == Method::OPTIONS <==> method_name(m) == "OPTIONS"@,
        m == Method::GET <==> method_name(m) == "GET"@,
        m == Method::POST <==> method_name(m) == "POST"@,
        m == Method::PUT <==> method_name(m) == "PUT"@,
        m == Method::DELETE <==> method_name(m) == "DELETE"@,
        m == Method::CONNECT <==> method_name(m) == "CONNECT"@,
        m == Method::PATCH <==> method_name(m) == "PATCH"@,
        m == Method::TRACE <==> method_name(m) == "TRACE"@,
        spec_parse_method("HEAD"@) == Some(Method::HEAD),
        spec_parse_method("OPTIONS"@) == Some(Method::OPTIONS),
        spec_parse_method("GET"@) == Some(Method::GET),
        spec_parse_method("POST"@) == Some(Method::POST),
        spec_parse_method("PUT"@) == Some(Method::PUT),
        spec_parse_method("DELETE"@) == Some(Method::DELETE),
        spec_parse_method("CONNECT"@) == Some(Method::CONNECT),
        spec_parse_method("PATCH"@) == Some(Method::PATCH),
        spec_parse_method("TRACE"@) == Some(Method::TRACE),
{
    lemma_method_roundtrip(Method::HEAD);
    lemma_method_roundtrip(Method::OPTIONS);
    lemma_method_roundtrip(Method::GET);
    lemma_method_roundtrip(Method::POST);
    lemma_method_roundtrip(Method::PUT);
    lemma_method_roundtrip(Method::DELETE);
    lemma_method_roundtrip(Method::CONNECT);
    lemma_method_roundtrip(Method::PATCH);
    lemma_method_roundtrip(Method::TRACE);
}

} // verus!
