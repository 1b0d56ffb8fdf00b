//! Byte-level building blocks: big-endian integers, and the outside buffer and
//! HPACK types that the codecs write into and read from.

use crate::header_block::hpack_block_safe;
use vstd::prelude::*;

verus! {

/// The two big-endian bytes of `v`.
pub open spec fn be16(v: u16) -> Seq<u8> {
    seq![(v >> 8u16) as u8, v as u8]
}

/// The four big-endian bytes of `v`.
pub open spec fn be32(v: u32) -> Seq<u8> {
    seq![(v >> 24u32) as u8, (v >> 16u32) as u8, (v >> 8u32) as u8, v as u8]
}

/// The low three bytes of `v`, big-endian.
pub open spec fn be24(v: u32) -> Seq<u8> {
    seq![(v >> 16u32) as u8, (v >> 8u32) as u8, v as u8]
}

/// The number that two big-endian bytes denote.
pub open spec fn from_be16(b0: u8, b1: u8) -> u16 {
    ((b0 as u16) << 8u16) | (b1 as u16)
}

/// The number that four big-endian bytes denote.
pub open spec fn from_be32(b0: u8, b1: u8, b2: u8, b3: u8) -> u32 {
    ((b0 as u32) << 24u32) | ((b1 as u32) << 16u32) | ((b2 as u32) << 8u32) | (b3 as u32)
}

/// The number that three big-endian bytes denote.
pub open spec fn from_be24(b0: u8, b1: u8, b2: u8) -> u32 {
    ((b0 as u32) << 16u32) | ((b1 as u32) << 8u32) | (b2 as u32)
}

/// The four big-endian bytes of `v`.
pub fn u32_to_be(v: u32) -> (r: [u8; 4])
    ensures
        r@ == be32(v),
{
    [(v >> 24u32) as u8, (v >> 16u32) as u8, (v >> 8u32) as u8, v as u8]
}

/// The number that the first four bytes of `s` denote, big-endian.
pub fn u32_from_be(s: &[u8]) -> (v: u32)
    requires
        s@.len() >= 4,
    ensures
        v == from_be32(s@[0], s@[1], s@[2], s@[3]),
{
    ((s[0] as u32) << 24u32) | ((s[1] as u32) << 16u32) | ((s[2] as u32) << 8u32) | (s[3] as u32)
}

/// Reading back the bytes of a number gives the number.
pub proof fn lemma_be32_roundtrip(v: u32)
    ensures
        from_be32(be32(v)[0], be32(v)[1], be32(v)[2], be32(v)[3]) == v,
{
    let b0 = (v >> 24u32) as u8;
    let b1 = (v >> 16u32) as u8;
    let b2 = (v >> 8u32) as u8;
    let b3 = v as u8;
    assert(((b0 as u32) << 24u32) | ((b1 as u32) << 16u32) | ((b2 as u32) << 8u32) | (b3 as u32)
        == v) by (bit_vector)
        requires
            b0 == (v >> 24u32) as u8,
            b1 == (v >> 16u32) as u8,
            b2 == (v >> 8u32) as u8,
            b3 == v as u8,
    ;
}

/// Writing the number that four bytes denote gives back the bytes.
pub proof fn lemma_from_be32_roundtrip(b0: u8, b1: u8, b2: u8, b3: u8)
    ensures
        be32(from_be32(b0, b1, b2, b3)) == seq![b0, b1, b2, b3],
{
    let v = from_be32(b0, b1, b2, b3);
    assert((v >> 24u32) as u8 == b0 && (v >> 16u32) as u8 == b1 && (v >> 8u32) as u8 == b2 && v
        as u8 == b3) by (bit_vector)
        requires
            v == ((b0 as u32) << 24u32) | ((b1 as u32) << 16u32) | ((b2 as u32) << 8u32) | (
            b3 as u32),
    ;
}

/// Reading back the bytes of a 16-bit number gives the number.
pub proof fn lemma_be16_roundtrip(v: u16)
    ensures
        from_be16(be16(v)[0], be16(v)[1]) == v,
{
    let b0 = (v >> 8u16) as u8;
    let b1 = v as u8;
    assert(((b0 as u16) << 8u16) | (b1 as u16) == v) by (bit_vector)
        requires
            b0 == (v >> 8u16) as u8,
            b1 == v as u8,
    ;
}

/// Writing the 16-bit number that two bytes denote gives back the bytes.
pub proof fn lemma_from_be16_roundtrip(b0: u8, b1: u8)
    ensures
        be16(from_be16(b0, b1)) == seq![b0, b1],
{
    let v = from_be16(b0, b1);
    assert((v >> 8u16) as u8 == b0 && v as u8 == b1) by (bit_vector)
        requires
            v == ((b0 as u16) << 8u16) | (b1 as u16),
    ;
}

/// Appends the bytes of `src` to `v`.
pub fn append_bytes(v: &mut Vec<u8>, src: &[u8])
    ensures
        final(v)@ == old(v)@ + src@,
{
    let mut i: usize = 0;
    while i < src.len()
        invariant
            i <= src@.len(),
            v@ == old(v)@ + src@.take(i as int),
        decreases src@.len() - i,
    {
        v.push(src[i]);
        i = i + 1;
        assert(v@ =~= old(v)@ + src@.take(i as int));
    }
    assert(src@.take(src@.len() as int) =~= src@);
}

/// A copy of the bytes of `src`.
pub fn bytes_to_vec(src: &[u8]) -> (v: Vec<u8>)
    ensures
        v@ == src@,
{
    let mut v = Vec::new();
    append_bytes(&mut v, src);
    assert(v@ =~= src@);
    v
}

// ---------------------------------------------------------------------------
// bytes::BytesMut
// ---------------------------------------------------------------------------

#[verifier::external_type_specification]
#[verifier::external_body]
pub struct ExBytesMut(bytes::BytesMut);

/// The bytes that a `BytesMut` holds, in order.
pub uninterp spec fn buf_contents(b: bytes::BytesMut) -> Seq<u8>;

/// `<BytesMut as Deref>::deref`: the bytes the buffer holds.
#[verifier::external_body]
pub(crate) fn buf_bytes(b: &bytes::BytesMut) -> (s: &[u8])
    ensures
        s@ == buf_contents(*b),
{
    b
}

/// `BytesMut::reserve`: room for more bytes; the contents stay as they are.
#[verifier::external_body]
pub(crate) fn buf_reserve(b: &mut bytes::BytesMut, additional: usize)
    requires
        buf_contents(*old(b)).len() + additional <= isize::MAX,
    ensures
        buf_contents(*final(b)) == buf_contents(*old(b)),
{
    b.reserve(additional)
}

/// `<BytesMut as BufMut>::put`, with a byte slice: appends the bytes.
#[verifier::external_body]
pub(crate) fn buf_put(b: &mut bytes::BytesMut, src: &[u8])
    requires
        buf_contents(*old(b)).len() + src@.len() <= isize::MAX,
    ensures
        buf_contents(*final(b)) == buf_contents(*old(b)) + src@,
{
    bytes::BufMut::put(b, src)
}

/// `BytesMut::split_to`: removes the first `at` bytes and returns them.
#[verifier::external_body]
pub(crate) fn buf_split_to(b: &mut bytes::BytesMut, at: usize) -> (head: bytes::BytesMut)
    requires
        at <= buf_contents(*old(b)).len(),
    ensures
        buf_contents(head) == buf_contents(*old(b)).take(at as int),
        buf_contents(*final(b)) == buf_contents(*old(b)).skip(at as int),
{
    b.split_to(at)
}

/// `<Vec<u8> as BufMut>::put_u32`: appends the big-endian bytes of `n`.
#[verifier::external_body]
pub(crate) fn vec_put_u32(v: &mut Vec<u8>, n: u32)
    requires
        old(v)@.len() + 4 <= isize::MAX,
    ensures
        final(v)@ == old(v)@ + be32(n),
{
    bytes::BufMut::put_u32(v, n)
}

// ---------------------------------------------------------------------------
// hpack
// ---------------------------------------------------------------------------

#[verifier::external_type_specification]
#[verifier::external_body]
pub struct ExHpackEncoder<'a>(hpack::Encoder<'a>);

#[verifier::external_type_specification]
#[verifier::external_body]
pub struct ExHpackDecoder<'a>(hpack::Decoder<'a>);

/// The dynamic table of an HPACK encoder: its entries as (name, value)
/// bytes, newest first, and its size limit in octets.
pub uninterp spec fn encoder_table(e: hpack::Encoder<'static>) -> (Seq<(Seq<u8>, Seq<u8>)>, nat);

/// The dynamic table of an HPACK decoder, seen as for an encoder.
pub uninterp spec fn decoder_table(d: hpack::Decoder<'static>) -> (Seq<(Seq<u8>, Seq<u8>)>, nat);

/// The table that `hpack::Encoder::new` and `hpack::Decoder::new` start
/// with: no entries, and the default limit of 4096 octets.
pub open spec fn fresh_table() -> (Seq<(Seq<u8>, Seq<u8>)>, nat) {
    (Seq::empty(), 4096)
}

/// The header block that an HPACK encoder with dynamic table `table` writes
/// for `headers`.
pub uninterp spec fn hpack_encoded(table: (Seq<(Seq<u8>, Seq<u8>)>, nat), headers: Seq<(Seq<u8>, Seq<u8>)>) -> Seq<u8>;

/// The (name, value) pairs that an HPACK decoder with dynamic table `table`
/// reads from `block`, or `None` where the block does not decode.
pub uninterp spec fn hpack_decoded(table: (Seq<(Seq<u8>, Seq<u8>)>, nat), block: Seq<u8>) -> Option<
    Seq<(Seq<u8>, Seq<u8>)>,
>;

/// `hpack::Encoder::new`: an encoder whose dynamic table is empty, with the
/// default limit (`DynamicTable::new`).
#[verifier::external_body]
pub(crate) fn hpack_encoder_new() -> (e: hpack::Encoder<'static>)
    ensures
        encoder_table(e) == fresh_table(),
{
    hpack::Encoder::new()
}

/// `hpack::Decoder::new`: a decoder whose dynamic table is empty, with the
/// default limit (`DynamicTable::new`).
#[verifier::external_body]
pub(crate) fn hpack_decoder_new() -> (d: hpack::Decoder<'static>)
    ensures
        decoder_table(d) == fresh_table(),
{
    hpack::Decoder::new()
}

/// (Name, value) byte pairs seen as sequences.
pub open spec fn byte_pairs(d: Seq<(Vec<u8>, Vec<u8>)>) -> Seq<(Seq<u8>, Seq<u8>)> {
    d.map_values(|p: (Vec<u8>, Vec<u8>)| (p.0@, p.1@))
}

/// An upper bound on the size of an HPACK header block: each field takes at
/// most a type byte, two integers of at most 11 bytes each, its name and its
/// value.
pub open spec fn hpack_bound(headers: Seq<(Seq<u8>, Seq<u8>)>) -> nat
    decreases headers.len(),
{
    if headers.len() == 0 {
        0
    } else {
        hpack_bound(headers.drop_last()) + 23 + headers.last().0.len() + headers.last().1.len()
    }
}

/// `hpack::Encoder::encode`: the header block that encodes `headers`, given
/// as (name, value) byte pairs, from the encoder's dynamic table as it was
/// before the call. Also stated: an empty list encodes to no bytes, and each
/// field takes at most `23` bytes besides its name and value
/// (`encode_header_into` writes an indexed field, an indexed name with a
/// literal value, or a type byte and two literals, each integer in at most
/// 11 bytes). The table after the call is left unsaid.
#[verifier::external_body]
pub(crate) fn hpack_encode(encoder: &mut hpack::Encoder<'static>, headers: &Vec<(Vec<u8>, Vec<u8>)>)
    -> (r: Vec<u8>)
    ensures
        r@ == hpack_encoded(encoder_table(*old(encoder)), byte_pairs(headers@)),
        headers@.len() == 0 ==> r@.len() == 0,
        r@.len() <= hpack_bound(byte_pairs(headers@)),
{
    encoder.encode(headers.iter().map(|h| (h.0.as_slice(), h.1.as_slice())))
}

/// Decoded (name, value) byte pairs seen as sequences.
pub open spec fn opt_byte_pairs(r: Option<Vec<(Vec<u8>, Vec<u8>)>>) -> Option<
    Seq<(Seq<u8>, Seq<u8>)>,
> {
    match r {
        Some(v) => Some(byte_pairs(v@)),
        None => None,
    }
}

/// `hpack::Decoder::decode`: the (name, value) byte pairs that a header block
/// encodes, read against the decoder's dynamic table as it was before the
/// call, or `None` where the block is malformed. Also stated: an empty block
/// decodes to no pairs. The table after the call is left unsaid. The crate
/// unwraps the integer of a dynamic table size update, so a block in which a
/// size update is cut short would panic there: `hpack_block_safe` leaves
/// such blocks out.
#[verifier::external_body]
pub(crate) fn hpack_decode(decoder: &mut hpack::Decoder<'static>, block: &[u8])
    -> (r: Option<Vec<(Vec<u8>, Vec<u8>)>>)
    requires
        hpack_block_safe(block@),
    ensures
        opt_byte_pairs(r) == hpack_decoded(decoder_table(*old(decoder)), block@),
        block@.len() == 0 ==> r is Some && r.unwrap()@.len() == 0,
{
    decoder.decode(block).ok()
}

} // verus!
