//! Splitting a download into pieces that are fetched with ranged requests.

use crate::text::{all_digits, decimal, digits_value, lemma_decimal_digits, u64_to_decimal};
use vstd::prelude::*;
use vstd::string::StringExecFns;

verus! {

/// How many pieces a download of `size` bytes takes with pieces of
/// `chunk_size` bytes: one for each multiple of `chunk_size` below `size`.
pub open spec fn chunk_count(size: nat, chunk_size: nat) -> nat {
    if size == 0 {
        0
    } else {
        ((size - 1) as nat / chunk_size + 1) as nat
    }
}

/// The offset and the length of the `i`-th piece: it starts at
/// `i * chunk_size` and takes `chunk_size` bytes, but for the piece that
/// reaches the end of the content, which takes `size % chunk_size` bytes.
pub open spec fn spec_chunk(size: nat, chunk_size: nat, i: nat) -> (nat, nat) {
    let offset = i * chunk_size;
    (offset, if offset + chunk_size < size { chunk_size } else { size % chunk_size })
}

/// The number of pieces of a download, from where the last one starts.
proof fn lemma_chunk_count(size: nat, chunk_size: nat, n: nat)
    requires
        chunk_size > 0,
        size > 0,
        n > 0,
        (n - 1) * chunk_size < size <= n * chunk_size,
    ensures
        chunk_count(size, chunk_size) == n,
{
    let q = (size - 1) as nat / chunk_size;
    assert(q == n - 1) by (nonlinear_arith)
        requires
            chunk_size > 0,
            n > 0,
            (n - 1) * chunk_size <= size - 1 < n * chunk_size,
            q == (size - 1) as nat / chunk_size,
    ;
}

/// The pieces in which a download of `size` bytes is fetched, in order (see
/// `spec_chunk`).
pub fn chunks(size: usize, chunk_size: usize) -> (v: Vec<(usize, usize)>)
    requires
        chunk_size > 0,
        size + chunk_size <= usize::MAX,
    ensures
        v@.len() == chunk_count(size as nat, chunk_size as nat),
        forall|i: int|
            0 <= i < v@.len() ==> (#[trigger] v@[i].0 as nat, v@[i].1 as nat) == spec_chunk(
                size as nat,
                chunk_size as nat,
                i as nat,
            ),
{
    let mut v: Vec<(usize, usize)> = Vec::new();
    let mut offset: usize = 0;
    assert(v@.len() * chunk_size == 0) by (nonlinear_arith)
        requires
            v@.len() == 0,
    ;
    while offset < size
        invariant
            chunk_size > 0,
            size + chunk_size <= usize::MAX,
            offset == v@.len() * chunk_size,
            v@.len() > 0 ==> (v@.len() - 1) * chunk_size < size,
            offset < size + chunk_size,
            forall|i: int|
                0 <= i < v@.len() ==> (v@[i].0 as nat, v@[i].1 as nat) == #[trigger] spec_chunk(
                    size as nat,
                    chunk_size as nat,
                    i as nat,
                ),
        decreases size + chunk_size - offset,
    {
        let len = if offset + chunk_size < size {
            chunk_size
        } else {
            size % chunk_size
        };
        let ghost n = v@.len();
        v.push((offset, len));
        assert(spec_chunk(size as nat, chunk_size as nat, n) == (offset as nat, len as nat));
        assert((n + 1) * chunk_size == n * chunk_size + chunk_size) by (nonlinear_arith);
        offset = offset + chunk_size;
    }
    proof {
        if size > 0 {
            lemma_chunk_count(size as nat, chunk_size as nat, v@.len());
        }
    }
    v
}

/// Each piece but the last ends where the next one starts.
pub proof fn lemma_chunks_adjacent(size: nat, chunk_size: nat, i: nat)
    requires
        chunk_size > 0,
        i + 1 < chunk_count(size, chunk_size),
    ensures
        spec_chunk(size, chunk_size, i).0 + spec_chunk(size, chunk_size, i).1 == spec_chunk(
            size,
            chunk_size,
            i + 1,
        ).0,
{
    let q = (size - 1) as nat / chunk_size;
    assert((i + 1) * chunk_size < size && (i + 1) * chunk_size == i * chunk_size + chunk_size)
        by (nonlinear_arith)
        requires
            chunk_size > 0,
            size > 0,
            i + 1 < q + 1,
            q == (size - 1) as nat / chunk_size,
    ;
}

/// The last piece ends at the end of the content, where the size is not a
/// multiple of the piece size.
pub proof fn lemma_chunks_reach_end(size: nat, chunk_size: nat)
    requires
        chunk_size > 0,
        size % chunk_size != 0,
    ensures
        ({
            let last = spec_chunk(size, chunk_size, (chunk_count(size, chunk_size) - 1) as nat);
            last.0 + last.1 == size
        }),
{
    let q = (size - 1) as nat / chunk_size;
    assert(size > 0) by (nonlinear_arith)
        requires
            chunk_size > 0,
            size % chunk_size != 0,
    ;
    assert(q * chunk_size + chunk_size >= size && q * chunk_size < size && q * chunk_size + size
        % chunk_size == size && q * chunk_size + chunk_size != size) by (nonlinear_arith)
        requires
            chunk_size > 0,
            size > 0,
            size % chunk_size != 0,
            q == (size - 1) as nat / chunk_size,
    ;
}

/// The value of the `Range` header that asks for `len` bytes from `start`,
/// as the downloader writes it: `bytes=`, the first offset, `-`, and the
/// offset `start + len`.
pub open spec fn spec_range_value(start: nat, len: nat) -> Seq<char> {
    "bytes="@ + decimal(start) + "-"@ + decimal(start + len)
}

/// The `Range` header value for a piece (see `spec_range_value`).
pub fn range_value(start: usize, len: usize) -> (s: String)
    requires
        start + len <= usize::MAX,
    ensures
        s@ == spec_range_value(start as nat, len as nat),
{
    let mut s = "bytes=".to_owned();
    let first = u64_to_decimal(start as u64);
    s.append(first.as_str());
    s.append("-");
    let last = u64_to_decimal((start + len) as u64);
    s.append(last.as_str());
    s
}

/// Law: the `Range` value of a piece is `bytes=`, then the decimal digits
/// of the piece's first offset `start`, then `-`, then the decimal digits of
/// `start + len`, the offset just past the piece. The position of the `-` is
/// returned.
pub proof fn lemma_range_value_offsets(start: nat, len: nat) -> (dash: int)
    ensures
        ({
            let v = spec_range_value(start, len);
            &&& v.take(6) == "bytes="@
            &&& 6 < dash < v.len() - 1
            &&& v[dash] == '-'
            &&& all_digits(v.subrange(6, dash))
            &&& digits_value(v.subrange(6, dash)) == start
            &&& all_digits(v.subrange(dash + 1, v.len() as int))
            &&& digits_value(v.subrange(dash + 1, v.len() as int)) == start + len
        }),
{
    reveal_strlit("bytes=");
    reveal_strlit("-");
    lemma_decimal_digits(start);
    lemma_decimal_digits(start + len);
    let a = decimal(start);
    let b = decimal(start + len);
    let v = spec_range_value(start, len);
    let dash: int = 6 + a.len() as int;
    assert(v.take(6) =~= "bytes="@);
    assert(v.subrange(6, dash) =~= a);
    assert(v.subrange(dash + 1, v.len() as int) =~= b);
    dash
}

} // verus!
