//! URI schemes.

use crate::text::str_eq;
use vstd::prelude::*;

verus! {

/// The scheme of a request target.
#[derive(Debug)]
pub enum Scheme {
    Http,
    Https,
    Custom(String),
}

/// A scheme, with a custom name seen as its characters.
pub enum SchemeView {
    Http,
    Https,
    Custom(Seq<char>),
}

impl View for Scheme {
    type V = SchemeView;

    open spec fn view(&self) -> SchemeView {
        match self {
            Scheme::Http => SchemeView::Http,
            Scheme::Https => SchemeView::Https,
            Scheme::Custom(s) => SchemeView::Custom(s@),
        }
    }
}

/// The scheme that a text names: `http` and `https`, any other text as a
/// custom scheme.
pub open spec fn spec_parse_scheme(s: Seq<char>) -> SchemeView {
    if s == "http"@ {
        SchemeView::Http
    } else if s == "https"@ {
        SchemeView::Https
    } else {
        SchemeView::Custom(s)
    }
}

impl Scheme {
    /// The scheme that `s` names; parsing never fails.
    pub fn parse(s: &str) -> (r: Scheme)
        ensures
            r@ == spec_parse_scheme(s@),
    {
        if str_eq(s, "http") {
            Scheme::Http
        } else if str_eq(s, "https") {
            Scheme::Https
        } else {
            Scheme::Custom(s.to_owned())
        }
    }
}

impl std::str::FromStr for Scheme {
    type Err = ();

    fn from_str(s: &str) -> (r: Result<Scheme, ()>)
        ensures
            r matches Ok(sc) && sc@ == spec_parse_scheme(s@),
    {
        Ok(Scheme::parse(s))
    }
}

} // verus!
