//! Header fields.

use crate::error::Error;
use crate::text::{ascii_lowercase, make_ascii_lowercase, spec_split_once, split_once};
use vstd::prelude::*;
use vstd::string::StrSliceExecFns;

verus! {

/// A header field: a pseudo-header of HTTP/2 (its name starts with `:`) or an
/// ordinary one.
#[derive(Debug)]
pub enum Header {
    Pseudo { name: String, value: String },
    Literal { name: String, value: String },
}

/// A header field seen as characters.
pub struct HeaderView {
    pub pseudo: bool,
    pub name: Seq<char>,
    pub value: Seq<char>,
}

impl View for Header {
    type V = HeaderView;

    open spec fn view(&self) -> HeaderView {
        match self {
            Header::Pseudo { name, value } => HeaderView { pseudo: true, name: name@, value: value@ },
            Header::Literal { name, value } => HeaderView {
                pseudo: false,
                name: name@,
                value: value@,
            },
        }
    }
}

/// The field that `Header::new` makes: the name in ASCII lower case, and a
/// pseudo-header exactly when the name starts with `:`.
pub open spec fn spec_header_new(name: Seq<char>, value: Seq<char>) -> HeaderView {
    let n = ascii_lowercase(name);
    HeaderView { pseudo: n.len() > 0 && n[0] == ':', name: n, value: value }
}

/// The field that a `name: value` line holds, split at the first `": "`.
pub open spec fn spec_parse_header(s: Seq<char>) -> Result<HeaderView, Error> {
    match spec_split_once(s, ": "@) {
        Some((n, v)) => Ok(spec_header_new(n, v)),
        None => Err(Error::HeaderSeparatorMissing),
    }
}

/// A parse result seen as characters.
pub open spec fn header_result_view(r: Result<Header, Error>) -> Result<HeaderView, Error> {
    match r {
        Ok(h) => Ok(h@),
        Err(e) => Err(e),
    }
}

impl Header {
    /// A field with the given name, lowered to ASCII lower case, and value.
    pub fn new(name: &str, value: &str) -> (h: Header)
        ensures
            h@ == spec_header_new(name@, value@),
    {
        let mut name: String = name.to_owned();
        make_ascii_lowercase(&mut name);
        let value: String = value.to_owned();
        let n = name.as_str();
        if n.unicode_len() > 0 && n.get_char(0) == ':' {
            Header::Pseudo { name, value }
        } else {
            Header::Literal { name, value }
        }
    }

    /// The name of the field.
    pub fn name(&self) -> (r: &str)
        ensures
            r@ == self@.name,
    {
        match self {
            Header::Pseudo { name, value: _ } => name.as_str(),
            Header::Literal { name, value: _ } => name.as_str(),
        }
    }

    /// The value of the field.
    pub fn value(&self) -> (r: &str)
        ensures
            r@ == self@.value,
    {
        match self {
            Header::Pseudo { name: _, value } => value.as_str(),
            Header::Literal { name: _, value } => value.as_str(),
        }
    }

    /// The field of a `name: value` line; `Error::HeaderSeparatorMissing`
    /// when the line holds no `": "`.
    pub fn parse(s: &str) -> (r: Result<Header, Error>)
        ensures
            header_result_view(r) == spec_parse_header(s@),
    {
        proof {
            reveal_strlit(": ");
        }
        match split_once(s, ": ") {
            Some((name, value)) => Ok(Header::new(name, value)),
            None => Err(Error::HeaderSeparatorMissing),
        }
    }
}

impl std::str::FromStr for Header {
    type Err = Error;

    fn from_str(s: &str) -> (r: Result<Header, Error>)
        ensures
            header_result_view(r) == spec_parse_header(s@),
    {
        Header::parse(s)
    }
}

} // verus!
