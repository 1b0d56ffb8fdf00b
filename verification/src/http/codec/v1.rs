//! Lines of text, each ended by `\r\n` on the wire.

use super::{Codec, Decode, Encode};
use crate::error::Error;
use crate::wire::{buf_bytes, buf_contents, buf_put, buf_reserve, buf_split_to};
use vstd::prelude::*;
use vstd::string::StringSliceAdditionalSpecFns;
use crate::text::lemma_encode_no_newline;
use vstd::utf8::{decode_utf8, encode_utf8, encode_utf8_decode_utf8, encode_utf8_valid_utf8, valid_utf8};

verus! {

/// Splits a byte buffer into lines and writes lines into one.
///
/// `search_offset` remembers how far an earlier call already looked for a
/// line end, so that a line that arrives in pieces is not searched again
/// from its start.
#[derive(Debug)]
pub struct LineCodec {
    search_offset: usize,
    max_len_limit: usize,
}

/// The state of a `LineCodec`.
pub struct LineCodecView {
    pub search_offset: nat,
    pub max_len_limit: nat,
}

impl View for LineCodec {
    type V = LineCodecView;

    closed spec fn view(&self) -> LineCodecView {
        LineCodecView {
            search_offset: self.search_offset as nat,
            max_len_limit: self.max_len_limit as nat,
        }
    }
}

impl Default for LineCodec {
    /// A codec that starts searching at the front and takes lines of any
    /// length.
    fn default() -> (c: Self)
        ensures
            c@.search_offset == 0,
            c@.max_len_limit == usize::MAX,
    {
        LineCodec { search_offset: 0, max_len_limit: usize::MAX }
    }
}

/// A line as it goes on the wire: its UTF-8 bytes, then `\r\n`.
pub open spec fn line_frame(line: Seq<char>) -> Seq<u8> {
    encode_utf8(line) + seq![0x0du8, 0x0au8]
}

/// Where the first `\n` at or after `from` stands.
pub open spec fn newline_from(s: Seq<u8>, from: int) -> Option<int>
    decreases s.len() - from,
{
    if from < 0 || from >= s.len() {
        None
    } else if s[from] == 0x0a {
        Some(from)
    } else {
        newline_from(s, from + 1)
    }
}

/// A line taken off the wire without its ending: `\r\n` where it ends so,
/// else the final `\n`.
pub open spec fn line_body(line: Seq<u8>) -> Seq<u8> {
    if line.len() >= 2 && line[line.len() - 2] == 0x0d && line[line.len() - 1] == 0x0a {
        line.take(line.len() - 2)
    } else {
        line.take(line.len() - 1)
    }
}

/// What `encode` gives and what the buffer then holds: the line's frame is
/// appended where it fits the codec's limit, else the buffer stays as it was.
pub open spec fn spec_encode_line(c: LineCodecView, line: Seq<char>, before: Seq<u8>) -> (
    Result<(), Error>,
    Seq<u8>,
) {
    let f = line_frame(line);
    if f.len() <= c.max_len_limit {
        (Ok(()), before + f)
    } else {
        (Err(Error::LineTooLong), before)
    }
}

/// What `decode` gives, what the buffer then holds and where the next search
/// starts. A line that ends in a `\n` at or after `offset` is taken off the
/// front, and its text is given back without its ending, or `InvalidUtf8`.
/// Without such a `\n`, nothing is taken and the next search starts at the
/// end of the buffer.
pub open spec fn spec_decode_line(contents: Seq<u8>, offset: nat) -> (
    Result<Option<Seq<char>>, Error>,
    Seq<u8>,
    nat,
) {
    match newline_from(contents, offset as int) {
        Some(p) => {
            let body = line_body(contents.take(p + 1));
            (
                if valid_utf8(body) {
                    Ok(Some(decode_utf8(body)))
                } else {
                    Err(Error::InvalidUtf8)
                },
                contents.skip(p + 1),
                0,
            )
        },
        None => (Ok(None), contents, contents.len()),
    }
}

/// A decoded line seen as characters.
pub open spec fn line_result_view(r: Result<Option<String>, Error>) -> Result<
    Option<Seq<char>>,
    Error,
> {
    match r {
        Ok(Some(s)) => Ok(Some(s@)),
        Ok(None) => Ok(None),
        Err(e) => Err(e),
    }
}

/// The frame's length is a `usize`, and where the line is written the buffer
/// stays within what an allocation can hold.
pub open spec fn can_encode_line(c: LineCodecView, line: Seq<char>, buffered: nat) -> bool {
    let n = line_frame(line).len();
    n <= usize::MAX && (n <= c.max_len_limit ==> buffered + n <= isize::MAX)
}

/// The first `\n` at or after `from`.
fn find_newline(bytes: &[u8], from: usize) -> (r: Option<usize>)
    requires
        from <= bytes@.len(),
    ensures
        match r {
            Some(p) => p < bytes@.len() && newline_from(bytes@, from as int) == Some(p as int),
            None => newline_from(bytes@, from as int) is None,
        },
{
    let mut i = from;
    while i < bytes.len()
        invariant
            from <= i <= bytes@.len(),
            newline_from(bytes@, from as int) == newline_from(bytes@, i as int),
        decreases bytes@.len() - i,
    {
        if bytes[i] == 0x0a {
            return Some(i);
        }
        i = i + 1;
    }
    None
}

impl LineCodec {
    /// Appends `line` and `\r\n` to `stream`, or `LineTooLong` where the two
    /// are longer than the codec's limit.
    pub fn encode_line(&mut self, line: &str, stream: &mut bytes::BytesMut) -> (r: Result<
        (),
        Error,
    >)
        requires
            can_encode_line(old(self)@, line@, buf_contents(*old(stream)).len()),
        ensures
            final(self)@ == old(self)@,
            (r, buf_contents(*final(stream))) == spec_encode_line(
                old(self)@,
                line@,
                buf_contents(*old(stream)),
            ),
    {
        let bytes = line.as_bytes();
        let len = bytes.len() + 2;
        if len <= self.max_len_limit {
            let sep: [u8; 2] = [0x0d, 0x0a];
            buf_reserve(stream, len);
            buf_put(stream, bytes);
            buf_put(stream, sep.as_slice());
            proof {
                assert(sep@ =~= seq![0x0du8, 0x0au8]);
                assert(buf_contents(*stream) =~= buf_contents(*old(stream)) + line_frame(line@));
            }
            Ok(())
        } else {
            Err(Error::LineTooLong)
        }
    }

    /// Takes the next line off the front of `stream`, as `spec_decode_line`
    /// says.
    pub fn decode_line(&mut self, stream: &mut bytes::BytesMut) -> (r: Result<
        Option<String>,
        Error,
    >)
        requires
            old(self)@.search_offset <= buf_contents(*old(stream)).len(),
        ensures
            final(self)@.max_len_limit == old(self)@.max_len_limit,
            (line_result_view(r), buf_contents(*final(stream)), final(self)@.search_offset)
                == spec_decode_line(buf_contents(*old(stream)), old(self)@.search_offset),
    {
        let bytes = buf_bytes(stream);
        let len = bytes.len();
        match find_newline(bytes, self.search_offset) {
            Some(p) => {
                self.search_offset = 0;
                let line = buf_split_to(stream, p + 1);
                let lb = buf_bytes(&line);
                let n = lb.len();
                assert(lb@ =~= buf_contents(*old(stream)).take(p + 1));
                let body: &[u8] = if n >= 2 && lb[n - 2] == 0x0d && lb[n - 1] == 0x0a {
                    &lb[0..n - 2]
                } else {
                    &lb[0..n - 1]
                };
                assert(body@ =~= line_body(lb@));
                match crate::text::str_from_utf8(body) {
                    Some(s) => Ok(Some(s.to_owned())),
                    None => Err(Error::InvalidUtf8),
                }
            },
            None => {
                self.search_offset = len;
                Ok(None)
            },
        }
    }
}

impl<'a> Encode<&'a str> for LineCodec {
    open spec fn can_encode(&self, item: &'a str, buffered: Seq<u8>) -> bool {
        can_encode_line(self@, item@, buffered.len())
    }

    fn encode(&mut self, item: &'a str, stream: &mut bytes::BytesMut) -> (r: Result<(), Error>)
        ensures
            final(self)@ == old(self)@,
            (r, buf_contents(*final(stream))) == spec_encode_line(
                old(self)@,
                item@,
                buf_contents(*old(stream)),
            ),
    {
        self.encode_line(item, stream)
    }
}

impl Encode<String> for LineCodec {
    open spec fn can_encode(&self, item: String, buffered: Seq<u8>) -> bool {
        can_encode_line(self@, item@, buffered.len())
    }

    fn encode(&mut self, item: String, stream: &mut bytes::BytesMut) -> (r: Result<(), Error>)
        ensures
            final(self)@ == old(self)@,
            (r, buf_contents(*final(stream))) == spec_encode_line(
                old(self)@,
                item@,
                buf_contents(*old(stream)),
            ),
    {
        self.encode_line(item.as_str(), stream)
    }
}

impl Decode<String> for LineCodec {
    open spec fn can_decode(&self, buffered: Seq<u8>) -> bool {
        self@.search_offset <= buffered.len()
    }

    fn decode(&mut self, stream: &mut bytes::BytesMut) -> (r: Result<Option<String>, Error>)
        ensures
            final(self)@.max_len_limit == old(self)@.max_len_limit,
            (line_result_view(r), buf_contents(*final(stream)), final(self)@.search_offset)
                == spec_decode_line(buf_contents(*old(stream)), old(self)@.search_offset),
    {
        self.decode_line(stream)
    }
}

impl Codec<String> for LineCodec {

}

/// The first `\n` at or after `from` in a sequence whose bytes from `from`
/// up to `at` are no `\n`, and whose byte at `at` is.
proof fn lemma_newline_at(s: Seq<u8>, from: int, at: int)
    requires
        0 <= from <= at < s.len(),
        s[at] == 0x0a,
        forall|j: int| from <= j < at ==> s[j] != 0x0au8,
    ensures
        newline_from(s, from) == Some(at),
    decreases at - from,
{
    if from < at {
        lemma_newline_at(s, from + 1, at);
    }
}

/// Law: a line that `encode` wrote is what `decode` gives back, when nothing is
/// buffered before it and the search starts at the front: the text comes
/// back as it was, and the bytes after it stay in the buffer.
pub proof fn lemma_line_roundtrip(line: Seq<char>, rest: Seq<u8>)
    requires
        !line.contains('\n'),
    ensures
        spec_decode_line(line_frame(line) + rest, 0) == (
            Ok::<Option<Seq<char>>, Error>(Some(line)),
            rest,
            0nat,
        ),
{
    let e = encode_utf8(line);
    let s = line_frame(line) + rest;
    let at = e.len() as int + 1;
    lemma_encode_no_newline(line);
    assert(s[at] == 0x0au8);
    assert forall|j: int| 0 <= j < at implies s[j] != 0x0au8 by {
        if j < e.len() {
            assert(s[j] == e[j]);
        } else {
            assert(s[j] == 0x0du8);
        }
    }
    lemma_newline_at(s, 0, at);
    assert(s.take(at + 1) =~= line_frame(line));
    assert(line_body(line_frame(line)) =~= e);
    encode_utf8_valid_utf8(line);
    encode_utf8_decode_utf8(line);
    assert(s.skip(at + 1) =~= rest);
}

/// No `\n` stands at or after `from`.
proof fn lemma_no_newline_from(s: Seq<u8>, from: int)
    requires
        0 <= from,
        forall|j: int| from <= j < s.len() ==> s[j] != 0x0au8,
    ensures
        newline_from(s, from) is None,
    decreases s.len() - from,
{
    if from < s.len() {
        lemma_no_newline_from(s, from + 1);
    }
}

/// Law: a buffer without a `\n` from the search offset on gives no line and is
/// left as it was; the next search starts at its end.
pub proof fn lemma_incomplete_line(contents: Seq<u8>, offset: nat)
    requires
        forall|j: int| offset <= j < contents.len() ==> contents[j] != 0x0au8,
    ensures
        spec_decode_line(contents, offset) == (
            Ok::<Option<Seq<char>>, Error>(None),
            contents,
            contents.len(),
        ),
{
    lemma_no_newline_from(contents, offset as int);
}

} // verus!
