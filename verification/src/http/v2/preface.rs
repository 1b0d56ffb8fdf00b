//! The connection preface that opens every HTTP/2 connection.

use crate::error::Error;
use vstd::prelude::*;

verus! {

/// The 24 bytes a client sends first: `PRI * HTTP/2.0\r\n\r\nSM\r\n\r\n`.
pub open spec fn preface_bytes() -> Seq<u8> {
    seq![0x50, 0x52, 0x49, 0x20, 0x2a, 0x20, 0x48, 0x54, 0x54, 0x50, 0x2f, 0x32, 0x2e, 0x30, 0x0d, 0x0a, 0x0d, 0x0a, 0x53, 0x4d, 0x0d, 0x0a, 0x0d, 0x0a]
}

/// The bytes of the connection preface.
pub fn preface() -> (b: [u8; 24])
    ensures
        b@ == preface_bytes(),
{
    let b: [u8; 24] = [0x50, 0x52, 0x49, 0x20, 0x2a, 0x20, 0x48, 0x54, 0x54, 0x50, 0x2f, 0x32, 0x2e, 0x30, 0x0d, 0x0a, 0x0d, 0x0a, 0x53, 0x4d, 0x0d, 0x0a, 0x0d, 0x0a];
    assert(b@ =~= preface_bytes());
    b
}

/// A connection preface that was read and checked.
#[derive(Debug)]
pub struct Preface;

impl Preface {
    /// Checks the preface at the front of `input` and says how many bytes it
    /// takes: `Error::UnexpectedEof` when fewer than 24 bytes are there,
    /// `Error::InvalidPreface` when they are not the preface.
    pub fn read(input: &[u8]) -> (r: Result<(Preface, usize), Error>)
        ensures
            match r {
                Ok((_, n)) => n == 24 && input@.len() >= 24 && input@.subrange(0, 24)
                    == preface_bytes(),
                Err(e) => (e == Error::UnexpectedEof && input@.len() < 24) || (e
                    == Error::InvalidPreface && input@.len() >= 24 && input@.subrange(0, 24)
                    != preface_bytes()),
            },
    {
        if input.len() < 24 {
            return Err(Error::UnexpectedEof);
        }
        let expected = preface();
        let mut i: usize = 0;
        while i < 24
            invariant
                i <= 24,
                input@.len() >= 24,
                expected@ == preface_bytes(),
                forall|j: int| 0 <= j < i ==> input@[j] == expected@[j],
            decreases 24 - i,
        {
            if input[i] != expected[i] {
                assert(input@.subrange(0, 24)[i as int] != preface_bytes()[i as int]);
                return Err(Error::InvalidPreface);
            }
            i = i + 1;
        }
        assert(input@.subrange(0, 24) =~= preface_bytes());
        Ok((Preface, 24))
    }
}

} // verus!
