//! Codecs that append items to a byte buffer and take them off it again.

pub mod v1;
pub mod v2;

use crate::error::Error;
use crate::wire::buf_contents;
use vstd::prelude::*;

verus! {

/// Appends items to a byte buffer.
pub trait Encode<Item>: Sized {
    /// `item` can be appended to a buffer that holds `buffered`.
    spec fn can_encode(&self, item: Item, buffered: Seq<u8>) -> bool;

    /// Appends `item` to `stream`.
    fn encode(&mut self, item: Item, stream: &mut bytes::BytesMut) -> (r: Result<(), Error>)
        requires
            old(self).can_encode(item, buf_contents(*old(stream))),
    ;
}

/// Takes items off the front of a byte buffer.
pub trait Decode<Item>: Sized {
    /// The decoder can look at a buffer that holds `buffered`.
    spec fn can_decode(&self, buffered: Seq<u8>) -> bool;

    /// The next item at the front of `stream`, or `None` while it is not
    /// complete.
    fn decode(&mut self, stream: &mut bytes::BytesMut) -> (r: Result<Option<Item>, Error>)
        requires
            old(self).can_decode(buf_contents(*old(stream))),
    ;
}

/// Encodes and decodes the same kind of item.
pub trait Codec<Item>: Encode<Item> + Decode<Item> {

}

} // verus!
