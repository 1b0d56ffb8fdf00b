//! The exchange of requests and responses over a connection.

use crate::http::message::{Request, Response};
use vstd::prelude::*;

verus! {

/// A connection that hands over the requests it receives and sends the
/// responses to them; each transport implements it with the errors of its
/// own I/O.
pub trait Protocol {
    /// Why receiving or sending failed.
    type Error;

    /// The next request that arrives on the connection.
    fn recv_request(&mut self) -> Result<Request, Self::Error>;

    /// Sends `response` on the connection.
    fn send_response(&mut self, response: &Response) -> Result<(), Self::Error>;
}

} // verus!
