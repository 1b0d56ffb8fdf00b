//! Requests, responses and their builders.

pub mod request;
pub mod response;

pub use request::{Request, RequestBuilder};
pub use response::{Response, ResponseBuilder};

use crate::error::Error;
use vstd::prelude::*;

verus! {

/// Values that are read off the front of a byte sequence and written to the
/// end of a byte buffer.
pub trait SerDe: Sized {
    /// `read` takes `input`.
    spec fn readable(input: Seq<u8>) -> bool;

    /// `write` takes the value.
    spec fn writable(&self) -> bool;

    /// The value at the front of `input` and the number of bytes it takes.
    fn read(input: &[u8]) -> (r: Result<(Self, usize), Error>)
        requires
            Self::readable(input@),
    ;

    /// Appends the bytes of the value to `out`.
    fn write(&self, out: &mut Vec<u8>) -> (r: Result<(), Error>)
        requires
            self.writable(),
        ensures
            r is Ok,
    ;
}

} // verus!
