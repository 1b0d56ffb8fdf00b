//! What reading gives back of a written request.

use super::codec::{
    is_content_length, line_bytes, line_end, request_head, request_line_unfinished,
    spec_read_headers, spec_read_request, spec_write_request, headers_text,
};
use crate::error::Error;
use crate::http::header::{spec_header_new, spec_parse_header, HeaderView};
use crate::http::message::request::RequestView;
use crate::http::method::{lemma_method_roundtrip, method_name, Method};
use crate::http::version::{lemma_version_roundtrip, version_name, Version};
use crate::text::{
    ascii_bytes, ends_in_ascii_whitespace, find_from, is_ascii_whitespace, lemma_encode_ascii,
    lemma_encode_concat, lemma_encode_last, lemma_encode_no_newline, occurs_at, rfind_from,
    spec_parse_usize, spec_rsplit_once, spec_split_once, trim_ascii_end, trimmed_len,
};
use vstd::prelude::*;
use vstd::utf8::{decode_utf8, encode_utf8, encode_utf8_decode_utf8, encode_utf8_valid_utf8, valid_utf8};

verus! {

/// The line break that ends each line: `\r\n`.
pub open spec fn crlf() -> Seq<u8> {
    seq![0x0du8, 0x0au8]
}

/// The bytes of the short texts that the wire format is made of.
proof fn lemma_literal_bytes()
    ensures
        encode_utf8("\r\n"@) == crlf(),
        encode_utf8(" "@) == seq![0x20u8],
        encode_utf8(": "@) == seq![0x3au8, 0x20u8],
        " "@ == seq![' '],
        ": "@ == seq![':', ' '],
        "\r\n"@ == seq!['\r', '\n'],
{
    reveal_strlit("\r\n");
    reveal_strlit(" ");
    reveal_strlit(": ");
    lemma_encode_ascii("\r\n"@);
    lemma_encode_ascii(" "@);
    lemma_encode_ascii(": "@);
    assert(ascii_bytes("\r\n"@) =~= crlf());
    assert(ascii_bytes(" "@) =~= seq![0x20u8]);
    assert(ascii_bytes(": "@) =~= seq![0x3au8, 0x20u8]);
}

/// A method's name is a non-empty word: no space, no line break, and it does
/// not end in whitespace.
proof fn lemma_method_word(m: Method)
    ensures
        method_name(m).len() > 0,
        forall|i: int| 0 <= i < method_name(m).len() ==> #[trigger] method_name(m)[i] != ' '
            && method_name(m)[i] != '\n',
{
    reveal_strlit("HEAD");
    reveal_strlit("OPTIONS");
    reveal_strlit("GET");
    reveal_strlit("POST");
    reveal_strlit("PUT");
    reveal_strlit("DELETE");
    reveal_strlit("CONNECT");
    reveal_strlit("PATCH");
    reveal_strlit("TRACE");
}

/// A version's name is a non-empty word that ends in a digit.
proof fn lemma_version_word(v: Version)
    ensures
        version_name(v).len() > 0,
        forall|i: int| 0 <= i < version_name(v).len() ==> #[trigger] version_name(v)[i] != ' '
            && version_name(v)[i] != '\n',
        !ends_in_ascii_whitespace(version_name(v)),
{
    reveal_strlit("HTTP/1.0");
    reveal_strlit("HTTP/1.1");
    reveal_strlit("HTTP/2.0");
    reveal_strlit("HTTP/3.0");
}

/// `line_end` finds the first `\n` at or after `pos`.
proof fn lemma_line_end_at(input: Seq<u8>, pos: int, at: int)
    requires
        0 <= pos <= at < input.len(),
        input[at] == 0x0a,
        forall|j: int| pos <= j < at ==> input[j] != 0x0au8,
    ensures
        line_end(input, pos) == at + 1,
    decreases at - pos,
{
    if pos < at {
        lemma_line_end_at(input, pos + 1, at);
    }
}

/// Trailing whitespace removal takes exactly the `\r\n` off bytes that do not
/// end in whitespace themselves.
proof fn lemma_trim_crlf(e: Seq<u8>)
    requires
        e.len() == 0 || !is_ascii_whitespace(e.last()),
    ensures
        trim_ascii_end(e + crlf()) == e,
{
    let s = e + crlf();
    let s1 = e + seq![0x0du8];
    assert(s.drop_last() =~= s1);
    assert(s1.drop_last() =~= e);
    assert(s.len() > 0 && is_ascii_whitespace(s.last()));
    assert(trimmed_len(s) == trimmed_len(s1));
    assert(s1.len() > 0 && is_ascii_whitespace(s1.last()));
    assert(trimmed_len(s1) == trimmed_len(e));
    if e.len() > 0 {
        assert(trimmed_len(e) == e.len());
    }
    assert(s.subrange(0, e.len() as int) =~= e);
}

/// A line of text `x` followed by `\r\n` at `pos`: the line ends after the
/// `\n`, and its bytes with trailing whitespace removed are those of `x`.
proof fn lemma_line_at(input: Seq<u8>, pos: int, x: Seq<char>)
    requires
        0 <= pos,
        pos + encode_utf8(x).len() + 2 <= input.len(),
        input.subrange(pos, pos + encode_utf8(x).len() + 2) == encode_utf8(x) + crlf(),
        !x.contains('\n'),
        x.len() == 0 || !ends_in_ascii_whitespace(x),
    ensures
        line_end(input, pos) == pos + encode_utf8(x).len() + 2,
        line_bytes(input, pos) == encode_utf8(x),
        valid_utf8(line_bytes(input, pos)),
        decode_utf8(line_bytes(input, pos)) == x,
{
    let e = encode_utf8(x);
    let n = e.len() as int;
    lemma_encode_no_newline(x);
    assert forall|j: int| pos <= j < pos + n + 1 implies input[j] != 0x0au8 by {
        assert(input[j] == input.subrange(pos, pos + n + 2)[j - pos]);
        if j < pos + n {
            assert(input[j] == e[j - pos]);
        } else {
            assert(input[j] == 0x0du8);
        }
    }
    assert(input[pos + n + 1] == input.subrange(pos, pos + n + 2)[n + 1]);
    lemma_line_end_at(input, pos, pos + n + 1);
    if x.len() > 0 {
        lemma_encode_last(x);
    } else {
        assert(e.len() == 0);
    }
    lemma_trim_crlf(e);
    encode_utf8_valid_utf8(x);
    encode_utf8_decode_utf8(x);
}

/// `find_from` stops at the first occurrence.
proof fn lemma_find_first(s: Seq<char>, p: Seq<char>, i: int, k: int)
    requires
        0 <= i <= k,
        forall|j: int| i <= j < k ==> !occurs_at(s, p, j),
        occurs_at(s, p, k),
    ensures
        find_from(s, p, i) == Some(k),
    decreases k - i,
{
    if i < k {
        lemma_find_first(s, p, i + 1, k);
    }
}

/// `rfind_from` stops at the last occurrence.
proof fn lemma_rfind_last(s: Seq<char>, p: Seq<char>, i: int, k: int)
    requires
        k <= i,
        forall|j: int| k < j <= i ==> !occurs_at(s, p, j),
        occurs_at(s, p, k),
    ensures
        rfind_from(s, p, i) == Some(k),
    decreases i - k,
{
    if k < i {
        lemma_rfind_last(s, p, i - 1, k);
    }
}

/// The request line of a request: method, target and version, separated by
/// single spaces.
pub open spec fn request_line(m: Method, path: Seq<char>, v: Version) -> Seq<char> {
    method_name(m) + " "@ + path + " "@ + version_name(v)
}

/// The request line splits back into its method, target and version: at
/// its first space, then at the last space of the rest.
proof fn lemma_request_line(m: Method, path: Seq<char>, v: Version)
    requires
        !path.contains('\n'),
    ensures
        request_line(m, path, v).len() > 0,
        !request_line(m, path, v).contains('\n'),
        !ends_in_ascii_whitespace(request_line(m, path, v)),
        spec_split_once(request_line(m, path, v), " "@) == Some(
            (method_name(m), path + " "@ + version_name(v)),
        ),
        spec_rsplit_once(path + " "@ + version_name(v), " "@) == Some((path, version_name(v))),
{
    lemma_literal_bytes();
    lemma_method_word(m);
    lemma_version_word(v);
    let mn = method_name(m);
    let vn = version_name(v);
    let rest = path + " "@ + vn;
    let rl = request_line(m, path, v);
    assert(rl =~= mn + seq![' '] + path + seq![' '] + vn);
    assert(rest =~= path + seq![' '] + vn);
    assert forall|i: int| 0 <= i < rl.len() implies rl[i] != '\n' by {
        if i < mn.len() {
            assert(rl[i] == mn[i]);
        } else if i == mn.len() {
        } else if i < mn.len() + 1 + path.len() {
            assert(rl[i] == path[i - mn.len() - 1]);
        } else if i == mn.len() + 1 + path.len() {
        } else {
            assert(rl[i] == vn[i - mn.len() - 2 - path.len()]);
        }
    }
    assert(rl.last() == vn.last());
    let k = mn.len() as int;
    assert forall|j: int| 0 <= j < k implies !occurs_at(rl, " "@, j) by {
        if occurs_at(rl, " "@, j) {
            assert(rl.subrange(j, j + 1)[0] == rl[j]);
            assert(rl[j] == mn[j]);
        }
    }
    assert(rl.subrange(k, k + 1) =~= seq![' ']);
    lemma_find_first(rl, " "@, 0, k);
    assert(rl.subrange(0, k) =~= mn);
    assert(rl.subrange(k + 1, rl.len() as int) =~= rest);
    let q = path.len() as int;
    assert forall|j: int| q < j <= rest.len() - 1 implies !occurs_at(rest, " "@, j) by {
        if occurs_at(rest, " "@, j) {
            assert(rest.subrange(j, j + 1)[0] == rest[j]);
            assert(rest[j] == vn[j - q - 1]);
        }
    }
    assert(rest.subrange(q, q + 1) =~= seq![' ']);
    lemma_rfind_last(rest, " "@, rest.len() - 1, q);
    assert(rest.subrange(0, q) =~= path);
    assert(rest.subrange(q + 1, rest.len() as int) =~= vn);
}

/// A header field that a written request carries back unchanged: the name
/// is as `Header::new` makes it and holds no `": "`, neither name nor value
/// holds a line break, and the value is not empty and does not end in
/// whitespace, which reading removes.
pub open spec fn header_roundtrips(h: HeaderView) -> bool {
    &&& h == spec_header_new(h.name, h.value)
    &&& !h.name.contains('\n')
    &&& !h.value.contains('\n')
    &&& forall|i: int| 0 <= i < h.name.len() ==> !occurs_at(h.name, ": "@, i)
    &&& h.value.len() > 0
    &&& !ends_in_ascii_whitespace(h.value)
}

/// The line of a header field, without its line break.
pub open spec fn header_line(h: HeaderView) -> Seq<char> {
    h.name + ": "@ + h.value
}

/// Law: the line of a header field parses back into the field, where the
/// field survives its line (see `header_roundtrips`).
pub proof fn lemma_header_line(h: HeaderView)
    requires
        header_roundtrips(h),
    ensures
        header_line(h).len() > 0,
        !header_line(h).contains('\n'),
        !ends_in_ascii_whitespace(header_line(h)),
        spec_parse_header(header_line(h)) == Ok::<HeaderView, Error>(h),
{
    lemma_literal_bytes();
    let n = h.name;
    let v = h.value;
    let line = header_line(h);
    assert(line =~= n + seq![':', ' '] + v);
    assert forall|i: int| 0 <= i < line.len() implies line[i] != '\n' by {
        if i < n.len() {
            assert(line[i] == n[i]);
            assert(!n.contains('\n'));
        } else if i < n.len() + 2 {
        } else {
            assert(line[i] == v[i - n.len() - 2]);
            assert(!v.contains('\n'));
        }
    }
    assert(line.last() == v.last());
    let k = n.len() as int;
    assert forall|j: int| 0 <= j < k implies !occurs_at(line, ": "@, j) by {
        if occurs_at(line, ": "@, j) {
            if j + 2 <= k {
                assert(line.subrange(j, j + 2) =~= n.subrange(j, j + 2));
                assert(occurs_at(n, ": "@, j));
            } else {
                assert(line.subrange(j, j + 2)[1] == line[j + 1]);
                assert(line[j + 1] == ':');
            }
        }
    }
    assert(line.subrange(k, k + 2) =~= seq![':', ' ']);
    lemma_find_first(line, ": "@, 0, k);
    assert(line.subrange(0, k) =~= n);
    assert(line.subrange(k + 2, line.len() as int) =~= v);
}

/// The header lines of two lists one after the other are those of the
/// joined list.
proof fn lemma_headers_text_concat(a: Seq<HeaderView>, b: Seq<HeaderView>)
    ensures
        headers_text(a + b) == headers_text(a) + headers_text(b),
    decreases b.len(),
{
    if b.len() == 0 {
        assert(a + b =~= a);
        assert(headers_text(a) + headers_text(b) =~= headers_text(a));
    } else {
        assert((a + b).drop_last() =~= a + b.drop_last());
        assert((a + b).last() == b.last());
        lemma_headers_text_concat(a, b.drop_last());
        let h = b.last();
        assert(headers_text(a + b) =~= headers_text(a) + headers_text(b));
    }
}

/// The header lines of a list that starts with `h`: the line of `h`, a line
/// break, then the lines of the others.
proof fn lemma_headers_text_front(hs: Seq<HeaderView>, k: int)
    requires
        0 <= k < hs.len(),
    ensures
        encode_utf8(headers_text(hs.skip(k))) == encode_utf8(header_line(hs[k])) + crlf()
            + encode_utf8(headers_text(hs.skip(k + 1))),
{
    lemma_literal_bytes();
    let h = hs[k];
    assert(hs.skip(k) =~= seq![h] + hs.skip(k + 1));
    lemma_headers_text_concat(seq![h], hs.skip(k + 1));
    assert(seq![h].drop_last() =~= Seq::<HeaderView>::empty());
    assert(seq![h].last() == h);
    assert(headers_text(Seq::<HeaderView>::empty()) == Seq::<char>::empty());
    assert(headers_text(seq![h]) == headers_text(seq![h].drop_last()) + h.name + ": "@ + h.value + "\r\n"@);
    assert(headers_text(seq![h]) =~= header_line(h) + "\r\n"@);
    lemma_encode_concat(header_line(h) + "\r\n"@, headers_text(hs.skip(k + 1)));
    lemma_encode_concat(header_line(h), "\r\n"@);
}

/// The content length that a list of header fields announces: each
/// `content-length` field sets it, and it stays 0 without one; `None` where
/// such a field does not hold a number.
pub open spec fn announced_length(hs: Seq<HeaderView>) -> Option<usize>
    decreases hs.len(),
{
    if hs.len() == 0 {
        Some(0)
    } else {
        match announced_length(hs.drop_last()) {
            None => None,
            Some(c) => if is_content_length(hs.last()) {
                spec_parse_usize(hs.last().value)
            } else {
                Some(c)
            },
        }
    }
}

/// Where a list announces a length, each of its prefixes does.
proof fn lemma_announced_prefix(hs: Seq<HeaderView>, k: int)
    requires
        0 <= k <= hs.len(),
        announced_length(hs) is Some,
    ensures
        announced_length(hs.take(k)) is Some,
    decreases hs.len() - k,
{
    if k < hs.len() {
        lemma_announced_prefix(hs, k + 1);
        assert(hs.take(k + 1).drop_last() =~= hs.take(k));
    } else {
        assert(hs.take(k) =~= hs);
    }
}

/// Reading the header lines of `hs` from the `k`-th on, with the first `k`
/// fields read already, gives all fields, the announced length and the
/// position after the empty line that ends the section.
#[verifier::spinoff_prover]
proof fn lemma_read_headers_rest(input: Seq<u8>, hs: Seq<HeaderView>, k: int, pos: int, tail: Seq<u8>)
    requires
        0 <= k <= hs.len(),
        forall|i: int| 0 <= i < hs.len() ==> header_roundtrips(#[trigger] hs[i]),
        announced_length(hs) is Some,
        0 <= pos <= input.len(),
        input.subrange(pos, input.len() as int) == encode_utf8(headers_text(hs.skip(k))) + crlf()
            + tail,
    ensures
        spec_read_headers(input, pos, announced_length(hs.take(k))->Some_0, hs.take(k)) == Ok::<
            (Seq<HeaderView>, usize, int),
            Error,
        >((hs, announced_length(hs)->Some_0, pos + encode_utf8(headers_text(hs.skip(k))).len() + 2)),
    decreases hs.len() - k,
{
    lemma_announced_prefix(hs, k);
    let cl = announced_length(hs.take(k))->Some_0;
    let e = encode_utf8(headers_text(hs.skip(k)));
    assert(input.subrange(pos, input.len() as int).len() == input.len() - pos);
    assert(input.len() - pos == e.len() + 2 + tail.len());
    assert(input.subrange(pos, pos + e.len() + 2) =~= input.subrange(pos, input.len() as int).subrange(0, (e.len() + 2) as int));
    if k == hs.len() {
        assert(hs.skip(k) =~= Seq::<HeaderView>::empty());
        assert(e.len() == 0);
        assert(e + crlf() =~= encode_utf8(Seq::<char>::empty()) + crlf());
        assert(input.subrange(pos, pos + 2) =~= encode_utf8(Seq::<char>::empty()) + crlf());
        lemma_line_at(input, pos, Seq::<char>::empty());
        assert(decode_utf8(line_bytes(input, pos)).len() == 0);
        assert(hs.take(k) =~= hs);
    } else {
        let h = hs[k];
        let line = header_line(h);
        let el = encode_utf8(line);
        let rest = encode_utf8(headers_text(hs.skip(k + 1)));
        assert(header_roundtrips(h));
        lemma_header_line(h);
        lemma_headers_text_front(hs, k);
        assert(e == el + crlf() + rest);
        assert(input.subrange(pos, pos + el.len() + 2) =~= input.subrange(pos, input.len() as int).subrange(0, (el.len() + 2) as int));
        assert(input.subrange(pos, pos + el.len() + 2) =~= el + crlf());
        lemma_line_at(input, pos, line);
        let next = pos + el.len() + 2;
        assert(hs.take(k + 1).drop_last() =~= hs.take(k));
        assert(hs.take(k + 1).last() == h);
        lemma_announced_prefix(hs, k + 1);
        let c = announced_length(hs.take(k + 1))->Some_0;
        assert(hs.take(k).push(h) =~= hs.take(k + 1));
        assert(input.subrange(next, input.len() as int) =~= rest + crlf() + tail) by {
            assert(input.subrange(next, input.len() as int) =~= input.subrange(pos, input.len() as int).subrange((el.len() + 2) as int, input.len() - pos));
        }
        lemma_read_headers_rest(input, hs, k + 1, next, tail);
        assert(spec_read_headers(input, pos, cl, hs.take(k)) == spec_read_headers(input, next, c, hs.take(k + 1)));
    }
}

/// The length of a body; no body has length 0.
pub open spec fn body_length(b: Option<Seq<u8>>) -> nat {
    match b {
        Some(b) => b.len(),
        None => 0,
    }
}

/// The requests that reading gives back as they were written: a target
/// without a line break, header fields that survive their lines (see
/// `header_roundtrips`), `content-length` fields that announce exactly the
/// length of the body, and a body, where there is one, that is not empty
/// (an empty one reads back as none).
pub open spec fn request_roundtrips(r: RequestView) -> bool {
    &&& !r.path.contains('\n')
    &&& forall|i: int| 0 <= i < r.headers.len() ==> header_roundtrips(#[trigger] r.headers[i])
    &&& announced_length(r.headers) matches Some(n) && n == body_length(r.body)
    &&& r.body matches Some(b) ==> b.len() > 0
}

/// Law: a request written by `Request::write` is read back by
/// `Request::read` as the same request, taking exactly the written bytes,
/// whatever follows them; and `Request::read` takes the written bytes.
#[verifier::spinoff_prover]
pub proof fn lemma_request_write_read(r: RequestView, rest: Seq<u8>)
    requires
        request_roundtrips(r),
    ensures
        !request_line_unfinished(spec_write_request(r) + rest),
        spec_read_request(spec_write_request(r) + rest) == Ok::<(RequestView, nat), Error>(
            (r, spec_write_request(r).len()),
        ),
{
    let m = r.method;
    let v = r.version;
    let path = r.path;
    let hs = r.headers;
    let rl = request_line(m, path, v);
    lemma_request_line(m, path, v);
    lemma_literal_bytes();
    lemma_method_roundtrip(m);
    lemma_version_roundtrip(v);
    let ht = headers_text(hs);
    let head = request_head(r);
    assert(head =~= rl + "\r\n"@ + ht + "\r\n"@);
    lemma_encode_concat(rl + "\r\n"@ + ht, "\r\n"@);
    lemma_encode_concat(rl + "\r\n"@, ht);
    lemma_encode_concat(rl, "\r\n"@);
    let erl = encode_utf8(rl);
    let eht = encode_utf8(ht);
    assert(encode_utf8(head) == erl + crlf() + eht + crlf());
    let bb = match r.body {
        Some(b) => b,
        None => Seq::<u8>::empty(),
    };
    let written = spec_write_request(r);
    assert(written == encode_utf8(head) + bb);
    let input = written + rest;
    let l = erl.len() as int;
    assert(input.subrange(0, l + 2) =~= erl + crlf());
    lemma_line_at(input, 0, rl);
    assert(input.len() > 0);
    let end = line_end(input, 0);
    assert(end == l + 2);
    assert(input.subrange(end, input.len() as int) =~= eht + crlf() + (bb + rest));
    assert(hs.skip(0) =~= hs);
    assert(hs.take(0) =~= Seq::<HeaderView>::empty());
    lemma_read_headers_rest(input, hs, 0, end, bb + rest);
    let pos = end + eht.len() + 2;
    assert(pos == encode_utf8(head).len());
    assert(spec_read_headers(input, end, 0, Seq::empty()) == Ok::<
        (Seq<HeaderView>, usize, int),
        Error,
    >((hs, body_length(r.body) as usize, pos)));
    match r.body {
        Some(b) => {
            assert(input.subrange(pos, pos + b.len()) =~= b);
        },
        None => {},
    }
}

} // verus!
