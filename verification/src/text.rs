//! Text helpers: comparisons, splits and conversions between bytes, characters
//! and numbers, each with the meaning the HTTP layer relies on.

use vstd::prelude::*;
use vstd::string::StringSliceAdditionalSpecFns;
use vstd::utf8::{
    decode_utf8, encode_scalar, encode_utf8, has_width_1_encoding, is_scalar,
    last_continuation_byte, leading_byte_width_1, leading_byte_width_2, leading_byte_width_3,
    leading_byte_width_4, second_last_continuation_byte, third_last_continuation_byte, valid_utf8,
};

verus! {

/// `p` occurs in `s` starting at index `i`.
pub open spec fn occurs_at(s: Seq<char>, p: Seq<char>, i: int) -> bool {
    0 <= i && i + p.len() <= s.len() && s.subrange(i, i + p.len()) == p
}

/// The first index at or after `i` where `p` occurs in `s`.
pub open spec fn find_from(s: Seq<char>, p: Seq<char>, i: int) -> Option<int>
    decreases s.len() + 1 - i,
{
    if i < 0 || i + p.len() > s.len() {
        None
    } else if occurs_at(s, p, i) {
        Some(i)
    } else {
        find_from(s, p, i + 1)
    }
}

/// The last index at or before `i` where `p` occurs in `s`.
pub open spec fn rfind_from(s: Seq<char>, p: Seq<char>, i: int) -> Option<int>
    decreases i + 1,
{
    if i < 0 {
        None
    } else if occurs_at(s, p, i) {
        Some(i)
    } else {
        rfind_from(s, p, i - 1)
    }
}

/// `s` split around the first occurrence of `p`.
pub open spec fn spec_split_once(s: Seq<char>, p: Seq<char>) -> Option<(Seq<char>, Seq<char>)> {
    match find_from(s, p, 0) {
        Some(i) => Some((s.subrange(0, i), s.subrange(i + p.len(), s.len() as int))),
        None => None,
    }
}

/// `s` split around the last occurrence of `p`.
pub open spec fn spec_rsplit_once(s: Seq<char>, p: Seq<char>) -> Option<(Seq<char>, Seq<char>)> {
    match rfind_from(s, p, s.len() - p.len()) {
        Some(i) => Some((s.subrange(0, i), s.subrange(i + p.len(), s.len() as int))),
        None => None,
    }
}

/// A pair of string slices seen as a pair of character sequences.
pub open spec fn split_view(r: Option<(&str, &str)>) -> Option<(Seq<char>, Seq<char>)> {
    match r {
        Some((a, b)) => Some((a@, b@)),
        None => None,
    }
}

/// `str::split_once`: splits `s` on the first occurrence of `pat`.
#[verifier::external_body]
pub(crate) fn split_once<'a>(s: &'a str, pat: &str) -> (r: Option<(&'a str, &'a str)>)
    requires
        pat@.len() > 0,
    ensures
        split_view(r) == spec_split_once(s@, pat@),
{
    s.split_once(pat)
}

/// `str::rsplit_once`: splits `s` on the last occurrence of `pat`.
#[verifier::external_body]
pub(crate) fn rsplit_once<'a>(s: &'a str, pat: &str) -> (r: Option<(&'a str, &'a str)>)
    requires
        pat@.len() > 0,
    ensures
        split_view(r) == spec_rsplit_once(s@, pat@),
{
    s.rsplit_once(pat)
}

/// `std::str::from_utf8`: the text that `bytes` encodes, if they are valid UTF-8.
#[verifier::external_body]
pub(crate) fn str_from_utf8(bytes: &[u8]) -> (r: Option<&str>)
    ensures
        r is Some <==> valid_utf8(bytes@),
        r matches Some(s) ==> s@ == decode_utf8(bytes@),
{
    std::str::from_utf8(bytes).ok()
}

/// ASCII upper-case letters to lower case; every other character unchanged.
pub open spec fn ascii_lower(c: char) -> char {
    if 'A' <= c && c <= 'Z' {
        ((c as u32) + 32) as char
    } else {
        c
    }
}

/// A character sequence with its ASCII letters in lower case.
pub open spec fn ascii_lowercase(s: Seq<char>) -> Seq<char> {
    s.map_values(|c: char| ascii_lower(c))
}

/// `String::make_ascii_lowercase`: maps `'A'..='Z'` to `'a'..='z'` in place.
#[verifier::external_body]
pub(crate) fn make_ascii_lowercase(s: &mut String)
    ensures
        final(s)@ == ascii_lowercase(old(s)@),
{
    s.make_ascii_lowercase()
}

/// The value of a decimal digit character.
pub open spec fn digit_value(c: char) -> int {
    (c as int) - ('0' as int)
}

/// All characters are the ASCII digits `'0'..='9'`.
pub open spec fn all_digits(s: Seq<char>) -> bool {
    forall|i: int| 0 <= i < s.len() ==> '0' <= #[trigger] s[i] && s[i] <= '9'
}

/// The number that a sequence of decimal digits denotes.
pub open spec fn digits_value(s: Seq<char>) -> nat
    decreases s.len(),
{
    if s.len() == 0 {
        0
    } else {
        (digits_value(s.drop_last()) * 10 + digit_value(s.last())) as nat
    }
}

/// How `usize::from_str` reads text: an optional `+` and then at least one
/// decimal digit, with a value that fits in `usize`.
pub open spec fn spec_parse_usize(s: Seq<char>) -> Option<usize> {
    let d = if s.len() > 0 && s[0] == '+' { s.drop_first() } else { s };
    if d.len() > 0 && all_digits(d) && digits_value(d) <= usize::MAX {
        Some(digits_value(d) as usize)
    } else {
        None
    }
}

/// `<usize as FromStr>::from_str`: the decimal number that `s` denotes.
#[verifier::external_body]
pub(crate) fn parse_usize(s: &str) -> (r: Option<usize>)
    ensures
        r == spec_parse_usize(s@),
{
    s.parse::<usize>().ok()
}

/// The character of a decimal digit.
pub open spec fn digit_char(d: nat) -> char {
    (('0' as nat) + d) as char
}

/// The decimal representation of `n`, without leading zeros.
pub open spec fn decimal(n: nat) -> Seq<char>
    decreases n,
{
    if n < 10 {
        seq![digit_char(n)]
    } else {
        decimal(n / 10).push(digit_char(n % 10))
    }
}

/// `u64::to_string`: the decimal representation of `n`.
#[verifier::external_body]
pub(crate) fn u64_to_decimal(n: u64) -> (s: String)
    ensures
        s@ == decimal(n as nat),
{
    n.to_string()
}

/// Whether two string slices hold the same characters.
pub fn str_eq(a: &str, b: &str) -> (res: bool)
    ensures
        res == (a@ == b@),
{
    let x = a.as_bytes();
    let y = b.as_bytes();
    proof {
        vstd::utf8::encode_utf8_decode_utf8(a@);
        vstd::utf8::encode_utf8_decode_utf8(b@);
    }
    if x.len() != y.len() {
        return false;
    }
    let mut i: usize = 0;
    while i < x.len()
        invariant
            x@.len() == y@.len(),
            x@ == a.spec_bytes(),
            y@ == b.spec_bytes(),
            i <= x@.len(),
            forall|j: int| 0 <= j < i ==> x@[j] == y@[j],
        decreases x@.len() - i,
    {
        if x[i] != y[i] {
            assert(x@[i as int] != y@[i as int]);
            return false;
        }
        i = i + 1;
    }
    assert(x@ =~= y@);
    true
}

/// An ASCII whitespace byte, as `u8::is_ascii_whitespace` defines it.
pub open spec fn is_ascii_whitespace(b: u8) -> bool {
    b == 0x20 || b == 0x09 || b == 0x0a || b == 0x0c || b == 0x0d
}

/// The length of `s` once its trailing ASCII whitespace is removed.
pub open spec fn trimmed_len(s: Seq<u8>) -> nat
    decreases s.len(),
{
    if s.len() > 0 && is_ascii_whitespace(s.last()) {
        trimmed_len(s.drop_last())
    } else {
        s.len()
    }
}

/// `s` without its trailing ASCII whitespace.
pub open spec fn trim_ascii_end(s: Seq<u8>) -> Seq<u8> {
    s.subrange(0, trimmed_len(s) as int)
}

/// The number of bytes of `s` that remain once its trailing ASCII whitespace
/// is removed.
pub fn trimmed_end_len(s: &[u8]) -> (n: usize)
    ensures
        n == trimmed_len(s@),
        n <= s@.len(),
{
    let mut n = s.len();
    assert(s@.subrange(0, s@.len() as int) =~= s@);
    while n > 0 && (s[n - 1] == 0x20 || s[n - 1] == 0x09 || s[n - 1] == 0x0a || s[n - 1]
        == 0x0c || s[n - 1] == 0x0d)
        invariant
            n <= s@.len(),
            trimmed_len(s@) == trimmed_len(s@.subrange(0, n as int)),
        decreases n,
    {
        assert(s@.subrange(0, n as int).drop_last() =~= s@.subrange(0, n - 1));
        n = n - 1;
    }
    n
}

/// The bytes of a character sequence.
pub open spec fn bytes_of(chars: Seq<char>) -> Seq<u8> {
    encode_utf8(chars)
}

/// No byte of the UTF-8 encoding of a character other than `\n` is `\n`:
/// a one-byte encoding is the character itself, and every byte of a longer
/// one has its high bit set.
pub proof fn lemma_scalar_no_newline(s: u32)
    requires
        is_scalar(s),
        s != 0x0a,
    ensures
        forall|j: int| 0 <= j < encode_scalar(s).len() ==> #[trigger] encode_scalar(s)[j] != 0x0au8,
{
    if has_width_1_encoding(s) {
        assert(leading_byte_width_1(s) != 0x0au8) by (bit_vector)
            requires
                s <= 0x7f,
                s != 0x0a,
        ;
    } else {
        assert(leading_byte_width_2(s) >= 0x80u8 && leading_byte_width_3(s) >= 0x80u8
            && leading_byte_width_4(s) >= 0x80u8 && last_continuation_byte(s) >= 0x80u8
            && second_last_continuation_byte(s) >= 0x80u8 && third_last_continuation_byte(s)
            >= 0x80u8) by (bit_vector);
    }
}

/// A text without `\n` encodes to bytes without `\n`.
pub proof fn lemma_encode_no_newline(line: Seq<char>)
    requires
        !line.contains('\n'),
    ensures
        forall|j: int| 0 <= j < encode_utf8(line).len() ==> #[trigger] encode_utf8(line)[j] != 0x0au8,
    decreases line.len(),
{
    if line.len() > 0 {
        let c = line[0];
        vstd::utf8::char_is_scalar(c);
        assert(c != '\n');
        if (c as u32) == 0x0a {
            vstd::utf8::char_u32_cast(c, c as u32);
            assert((0x0au32 as char) == '\n');
        }
        lemma_scalar_no_newline(c as u32);
        assert(!line.drop_first().contains('\n')) by {
            if line.drop_first().contains('\n') {
                let k = choose|k: int| 0 <= k < line.drop_first().len() && line.drop_first()[k] == '\n';
                assert(line[k + 1] == '\n');
            }
        }
        lemma_encode_no_newline(line.drop_first());
        let head = encode_scalar(c as u32);
        let tail = encode_utf8(line.drop_first());
        assert(encode_utf8(line) =~= head + tail);
        assert forall|j: int| 0 <= j < encode_utf8(line).len() implies #[trigger] encode_utf8(line)[j]
            != 0x0au8 by {
            if j < head.len() {
                assert(encode_utf8(line)[j] == head[j]);
            } else {
                assert(encode_utf8(line)[j] == tail[j - head.len()]);
            }
        }
    }
}


/// The UTF-8 encoding of a concatenation is the concatenation of the
/// encodings.
pub proof fn lemma_encode_concat(a: Seq<char>, b: Seq<char>)
    ensures
        encode_utf8(a + b) == encode_utf8(a) + encode_utf8(b),
    decreases a.len(),
{
    if a.len() == 0 {
        assert(a + b =~= b);
        assert(encode_utf8(a) + encode_utf8(b) =~= encode_utf8(b));
    } else {
        assert((a + b).drop_first() =~= a.drop_first() + b);
        lemma_encode_concat(a.drop_first(), b);
        assert((a + b)[0] == a[0]);
        assert(encode_utf8(a + b) =~= encode_utf8(a) + encode_utf8(b));
    }
}

/// The bytes of characters below `0x80`, one byte each.
pub open spec fn ascii_bytes(s: Seq<char>) -> Seq<u8> {
    s.map_values(|c: char| (c as u32) as u8)
}

/// Characters below `0x80` encode to one byte each: their own value.
pub proof fn lemma_encode_ascii(s: Seq<char>)
    requires
        forall|i: int| 0 <= i < s.len() ==> (#[trigger] s[i] as u32) < 0x80,
    ensures
        encode_utf8(s) == ascii_bytes(s),
    decreases s.len(),
{
    if s.len() > 0 {
        let c = s[0] as u32;
        assert(c < 0x80);
        assert(leading_byte_width_1(c) == c as u8) by (bit_vector)
            requires
                c < 0x80,
        ;
        assert(encode_scalar(c) =~= seq![c as u8]);
        lemma_encode_ascii(s.drop_first());
        assert(encode_utf8(s) =~= ascii_bytes(s));
    }
}

/// The character ends in an ASCII whitespace character.
pub open spec fn ends_in_ascii_whitespace(s: Seq<char>) -> bool {
    s.len() > 0 && (s.last() == ' ' || s.last() == '\t' || s.last() == '\n' || s.last() == '\x0c'
        || s.last() == '\r')
}

/// The encoding of a text that does not end in ASCII whitespace does not
/// end in an ASCII whitespace byte.
pub proof fn lemma_encode_last(x: Seq<char>)
    requires
        x.len() > 0,
        !ends_in_ascii_whitespace(x),
    ensures
        encode_utf8(x).len() > 0,
        !is_ascii_whitespace(encode_utf8(x).last()),
{
    let c = x.last();
    let s = c as u32;
    vstd::utf8::char_is_scalar(c);
    assert(x =~= x.drop_last() + seq![c]);
    lemma_encode_concat(x.drop_last(), seq![c]);
    assert(seq![c].drop_first() =~= Seq::<char>::empty());
    assert(encode_utf8(seq![c]) == encode_scalar(s) + encode_utf8(Seq::<char>::empty()));
    assert(encode_utf8(seq![c]) =~= encode_scalar(s));
    let e = encode_scalar(s);
    assert(encode_utf8(x).last() == e.last());
    if has_width_1_encoding(s) {
        let b = leading_byte_width_1(s);
        assert(b as u32 == s) by (bit_vector)
            requires
                s <= 0x7f,
                b == leading_byte_width_1(s),
        ;
        if is_ascii_whitespace(b) {
            vstd::utf8::char_u32_cast(c, s);
            assert((0x20u32 as char) == ' ');
            assert((0x09u32 as char) == '\t');
            assert((0x0au32 as char) == '\n');
            assert((0x0cu32 as char) == '\x0c');
            assert((0x0du32 as char) == '\r');
        }
    } else {
        assert(last_continuation_byte(s) >= 0x80u8) by (bit_vector);
    }
}

/// The decimal representation of a number is made of digits only, at least
/// one, and reads back as the number.
pub proof fn lemma_decimal_digits(n: nat)
    ensures
        decimal(n).len() >= 1,
        all_digits(decimal(n)),
        digits_value(decimal(n)) == n,
    decreases n,
{
    let d = n % 10;
    assert(digit_value(digit_char(d)) == d);
    if n < 10 {
        let s = decimal(n);
        assert(s.drop_last() =~= Seq::<char>::empty());
        assert(digits_value(Seq::<char>::empty()) == 0);
        assert(s.last() == digit_char(n));
        assert(digits_value(s) == digit_value(digit_char(n)));
    } else {
        lemma_decimal_digits(n / 10);
        let s = decimal(n);
        assert(s.drop_last() =~= decimal(n / 10));
        assert(digits_value(s) == digits_value(decimal(n / 10)) * 10 + n % 10);
    }
}

} // verus!
