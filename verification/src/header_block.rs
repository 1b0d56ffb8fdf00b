//! The framing of HPACK header blocks (RFC 7541): how many bytes each field
//! representation takes, which the bytes alone tell, without the tables.

use vstd::prelude::*;

verus! {

/// The value and the byte count of an HPACK integer at the front of `b`,
/// whose prefix is the bits of `mask` in the first byte (RFC 7541, section
/// 5.1), as the hpack crate reads it: in at most five bytes. `None` where
/// the integer is cut short or takes more bytes.
pub open spec fn hpack_int(b: Seq<u8>, mask: u8) -> Option<(nat, nat)> {
    if b.len() == 0 {
        None
    } else if (b[0] & mask) < mask {
        Some(((b[0] & mask) as nat, 1))
    } else {
        hpack_int_rest(b, 1, mask as nat, 1)
    }
}

/// The continuation bytes of an HPACK integer from byte `i` on, with the
/// value `value` read so far and `mult` the weight of the next seven bits.
pub open spec fn hpack_int_rest(b: Seq<u8>, i: nat, value: nat, mult: nat) -> Option<(nat, nat)>
    decreases 5 - i,
{
    if i >= 5 || i >= b.len() {
        None
    } else {
        let v = value + ((b[i as int] & 0x7fu8) as nat) * mult;
        if b[i as int] & 0x80u8 == 0 {
            Some((v, i + 1))
        } else if i + 1 >= 5 {
            None
        } else {
            hpack_int_rest(b, i + 1, v, mult * 128)
        }
    }
}

/// The bytes that an HPACK string literal takes at the front of `b`: its
/// length, then that many octets; `None` where they run past the end.
pub open spec fn hpack_string_len(b: Seq<u8>) -> Option<nat> {
    match hpack_int(b, 0x7f) {
        Some((len, c)) => if c + len <= b.len() {
            Some(c + len)
        } else {
            None
        },
        None => None,
    }
}

/// The bytes that a literal field representation takes: an index with the
/// prefix `mask`, the name as a string literal where the index is 0, then the
/// value as a string literal.
pub open spec fn hpack_literal_len(b: Seq<u8>, mask: u8) -> Option<nat> {
    match hpack_int(b, mask) {
        None => None,
        Some((index, c)) => {
            let name_end = if index == 0 {
                match hpack_string_len(b.skip(c as int)) {
                    Some(n) => Some(c + n),
                    None => None,
                }
            } else {
                Some(c)
            };
            match name_end {
                None => None,
                Some(e) => match hpack_string_len(b.skip(e as int)) {
                    Some(n) => Some(e + n),
                    None => None,
                },
            }
        },
    }
}

/// A field representation that starts with the bits `001`: a dynamic table
/// size update.
pub open spec fn is_size_update(first: u8) -> bool {
    first & 0xe0u8 == 0x20
}

/// The bytes that the field representation at the front of a non-empty `b`
/// takes, told by its first bits: an indexed field (`1`), a literal with
/// incremental indexing (`01`), a size update (`001`), or a literal without
/// indexing or never indexed (`0000` and `0001`).
pub open spec fn hpack_field_len(b: Seq<u8>) -> Option<nat> {
    let first = b[0];
    if first & 0x80u8 == 0x80 {
        match hpack_int(b, 0x7f) {
            Some((_, c)) => Some(c),
            None => None,
        }
    } else if first & 0x40u8 == 0x40 {
        hpack_literal_len(b, 0x3f)
    } else if first & 0x20u8 == 0x20 {
        match hpack_int(b, 0x1f) {
            Some((_, c)) => Some(c),
            None => None,
        }
    } else {
        hpack_literal_len(b, 0x0f)
    }
}

/// No field boundary of the block starts a size update whose integer is cut
/// short or too long. The walk goes from field to field for as long as
/// their lengths can be told; the hpack decoder stops at the first field it
/// cannot decode, which is never later, so it reaches no other boundary.
pub open spec fn hpack_block_safe(b: Seq<u8>) -> bool
    decreases b.len(),
{
    if b.len() == 0 {
        true
    } else if is_size_update(b[0]) && hpack_int(b, 0x1f) is None {
        false
    } else {
        match hpack_field_len(b) {
            None => true,
            Some(n) => if 0 < n <= b.len() {
                hpack_block_safe(b.skip(n as int))
            } else {
                true
            },
        }
    }
}

/// The HPACK integer at `start` in `b`.
fn int_at(b: &[u8], start: usize, mask: u8) -> (r: Option<(u64, usize)>)
    requires
        start <= b@.len(),
    ensures
        match r {
            Some((v, c)) => hpack_int(b@.skip(start as int), mask) == Some((v as nat, c as nat)) && c
                <= 5 && start + c <= b@.len(),
            None => hpack_int(b@.skip(start as int), mask) is None,
        },
{
    let ghost s = b@.skip(start as int);
    if start >= b.len() {
        return None;
    }
    assert(s[0] == b@[start as int]);
    let first = b[start] & mask;
    if first < mask {
        return Some((first as u64, 1));
    }
    let mut value: u64 = mask as u64;
    let mut mult: u64 = 1;
    let mut i: usize = 1;
    while i < 5
        invariant
            1 <= i <= 5,
            start < b@.len(),
            s == b@.skip(start as int),
            s.len() > 0,
            mult <= 0x20_0000,
            value < 256 * mult,
            i < 5 ==> (mult as nat) * 128 <= 0x20_0000 || i == 4,
            i == 1 ==> mult == 1,
            i == 2 ==> mult == 128,
            i == 3 ==> mult == 0x4000,
            i == 4 ==> mult == 0x20_0000,
            hpack_int(s, mask) == hpack_int_rest(s, i as nat, value as nat, mult as nat),
        decreases 5 - i,
    {
        if i >= b.len() - start {
            return None;
        }
        assert(s[i as int] == b@[start + i]);
        let byte = b[start + i];
        let x = (byte & 0x7fu8) as u64;
        assert(x <= 127) by (bit_vector)
            requires
                x == (byte & 0x7fu8) as u64,
        ;
        assert(x * mult <= 127 * 0x20_0000) by (nonlinear_arith)
            requires
                x <= 127,
                mult <= 0x20_0000,
        ;
        assert(x * mult < 128 * mult) by (nonlinear_arith)
            requires
                x <= 127,
                mult >= 1,
        ;
        value = value + x * mult;
        if byte & 0x80u8 == 0 {
            return Some((value, i + 1));
        }
        if i + 1 >= 5 {
            return None;
        }
        mult = mult * 128;
        i = i + 1;
    }
    None
}

/// The bytes of the string literal at `start` in `b`.
fn string_at(b: &[u8], start: usize) -> (r: Option<usize>)
    requires
        start <= b@.len(),
    ensures
        match r {
            Some(n) => hpack_string_len(b@.skip(start as int)) == Some(n as nat) && start + n
                <= b@.len(),
            None => hpack_string_len(b@.skip(start as int)) is None,
        },
{
    match int_at(b, start, 0x7f) {
        None => None,
        Some((len, c)) => {
            if len <= (b.len() - start) as u64 && c as u64 <= (b.len() - start) as u64 - len {
                Some(c + len as usize)
            } else {
                None
            }
        },
    }
}

/// The bytes of the literal field representation at `start` in `b`.
fn literal_at(b: &[u8], start: usize, mask: u8) -> (r: Option<usize>)
    requires
        start <= b@.len(),
    ensures
        match r {
            Some(n) => hpack_literal_len(b@.skip(start as int), mask) == Some(n as nat) && start + n
                <= b@.len(),
            None => hpack_literal_len(b@.skip(start as int), mask) is None,
        },
{
    let ghost s = b@.skip(start as int);
    let blen = b.len();
    match int_at(b, start, mask) {
        None => None,
        Some((index, c)) => {
            assert(start + c <= b@.len());
            let name_end = if index == 0 {
                assert(s.skip(c as int) =~= b@.skip(start + c));
                match string_at(b, start + c) {
                    Some(n) => {
                        c + n
                    },
                    None => {
                        return None;
                    },
                }
            } else {
                c
            };
            assert(s.skip(name_end as int) =~= b@.skip(start + name_end));
            match string_at(b, start + name_end) {
                Some(n) => Some(name_end + n),
                None => None,
            }
        },
    }
}

/// The bytes of the field representation at `start` in `b`.
fn field_at(b: &[u8], start: usize) -> (r: Option<usize>)
    requires
        start < b@.len(),
    ensures
        match r {
            Some(n) => hpack_field_len(b@.skip(start as int)) == Some(n as nat) && start + n
                <= b@.len(),
            None => hpack_field_len(b@.skip(start as int)) is None,
        },
{
    let ghost s = b@.skip(start as int);
    assert(s[0] == b@[start as int]);
    let first = b[start];
    if first & 0x80u8 == 0x80 {
        match int_at(b, start, 0x7f) {
            Some((_, c)) => Some(c),
            None => None,
        }
    } else if first & 0x40u8 == 0x40 {
        literal_at(b, start, 0x3f)
    } else if first & 0x20u8 == 0x20 {
        match int_at(b, start, 0x1f) {
            Some((_, c)) => Some(c),
            None => None,
        }
    } else {
        literal_at(b, start, 0x0f)
    }
}

/// Whether the hpack decoder takes the header block without panicking (see
/// `hpack_block_safe`).
pub fn header_block_safe(b: &[u8]) -> (r: bool)
    ensures
        r == hpack_block_safe(b@),
{
    let mut pos: usize = 0;
    assert(b@.skip(0) =~= b@);
    while pos < b.len()
        invariant
            pos <= b@.len(),
            hpack_block_safe(b@) == hpack_block_safe(b@.skip(pos as int)),
        decreases b@.len() - pos,
    {
        let ghost s = b@.skip(pos as int);
        assert(s[0] == b@[pos as int]);
        if b[pos] & 0xe0u8 == 0x20 {
            if int_at(b, pos, 0x1f).is_none() {
                return false;
            }
        }
        match field_at(b, pos) {
            None => {
                return true;
            },
            Some(n) => {
                if n == 0 {
                    return true;
                }
                assert(s.skip(n as int) =~= b@.skip(pos + n));
                pos = pos + n;
            },
        }
    }
    assert(b@.skip(pos as int).len() == 0);
    true
}

} // verus!
