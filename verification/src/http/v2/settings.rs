//! SETTINGS parameters.

use crate::error::Error;
use crate::http::message::SerDe;
use crate::wire::{append_bytes, be16, be32, from_be16, from_be32, u32_from_be};
use vstd::prelude::*;

verus! {

/// A SETTINGS parameter with its value.
#[derive(Debug, Clone, Copy, PartialEq, Eq, Structural)]
pub enum Setting {
    HeaderTableSize(u32),
    EnablePush(bool),
    MaxConcurrentStreams(u32),
    InitialWindowSize(u32),
    MaxFrameSize(u32),
    MaxHeaderListSize(u32),
}

/// The identifier of each parameter on the wire.
pub open spec fn spec_identifier(s: Setting) -> u16 {
    match s {
        Setting::HeaderTableSize(_) => 0x01,
        Setting::EnablePush(_) => 0x02,
        Setting::MaxConcurrentStreams(_) => 0x03,
        Setting::InitialWindowSize(_) => 0x04,
        Setting::MaxFrameSize(_) => 0x05,
        Setting::MaxHeaderListSize(_) => 0x06,
    }
}

/// The value of each parameter on the wire; `EnablePush` is 1 or 0.
pub open spec fn spec_setting_value(s: Setting) -> u32 {
    match s {
        Setting::HeaderTableSize(v) => v,
        Setting::EnablePush(b) => if b { 1 } else { 0 },
        Setting::MaxConcurrentStreams(v) => v,
        Setting::InitialWindowSize(v) => v,
        Setting::MaxFrameSize(v) => v,
        Setting::MaxHeaderListSize(v) => v,
    }
}

/// The parameter that an identifier and a value denote; `EnablePush` is on
/// for every non-zero value.
pub open spec fn spec_setting(id: u16, value: u32) -> Option<Setting> {
    if id == 0x01 {
        Some(Setting::HeaderTableSize(value))
    } else if id == 0x02 {
        Some(Setting::EnablePush(value != 0))
    } else if id == 0x03 {
        Some(Setting::MaxConcurrentStreams(value))
    } else if id == 0x04 {
        Some(Setting::InitialWindowSize(value))
    } else if id == 0x05 {
        Some(Setting::MaxFrameSize(value))
    } else if id == 0x06 {
        Some(Setting::MaxHeaderListSize(value))
    } else {
        None
    }
}

/// The six bytes of a parameter: its identifier, then its value.
pub open spec fn setting_bytes(s: Setting) -> Seq<u8> {
    be16(spec_identifier(s)) + be32(spec_setting_value(s))
}

/// How a parameter is read from the front of `b`.
pub open spec fn spec_read_setting(b: Seq<u8>) -> Result<Setting, Error> {
    if b.len() < 6 {
        Err(Error::UnexpectedEof)
    } else {
        match spec_setting(from_be16(b[0], b[1]), from_be32(b[2], b[3], b[4], b[5])) {
            Some(s) => Ok(s),
            None => Err(Error::InvalidSettingIdentifier),
        }
    }
}

impl Setting {
    /// The identifier of the parameter.
    pub fn identifier(&self) -> (id: u16)
        ensures
            id == spec_identifier(*self),
    {
        match self {
            Setting::HeaderTableSize(_) => 0x01,
            Setting::EnablePush(_) => 0x02,
            Setting::MaxConcurrentStreams(_) => 0x03,
            Setting::InitialWindowSize(_) => 0x04,
            Setting::MaxFrameSize(_) => 0x05,
            Setting::MaxHeaderListSize(_) => 0x06,
        }
    }

    /// The value of the parameter as it is sent.
    pub fn value(&self) -> (v: u32)
        ensures
            v == spec_setting_value(*self),
    {
        match self {
            Setting::HeaderTableSize(v) => *v,
            Setting::EnablePush(b) => if *b { 1 } else { 0 },
            Setting::MaxConcurrentStreams(v) => *v,
            Setting::InitialWindowSize(v) => *v,
            Setting::MaxFrameSize(v) => *v,
            Setting::MaxHeaderListSize(v) => *v,
        }
    }

    /// The parameter at the front of `input`: `Error::UnexpectedEof` when
    /// fewer than six bytes remain, `Error::InvalidSettingIdentifier` for an
    /// unknown identifier.
    pub(crate) fn from_bytes(input: &[u8]) -> (r: Result<Setting, Error>)
        ensures
            r == spec_read_setting(input@),
    {
        if input.len() < 6 {
            return Err(Error::UnexpectedEof);
        }
        let id: u16 = ((input[0] as u16) << 8u16) | (input[1] as u16);
        let value = u32_from_be(&input[2..6]);
        assert(input@.subrange(2, 6)[0] == input@[2]);
        if id == 0x01 {
            Ok(Setting::HeaderTableSize(value))
        } else if id == 0x02 {
            Ok(Setting::EnablePush(value != 0))
        } else if id == 0x03 {
            Ok(Setting::MaxConcurrentStreams(value))
        } else if id == 0x04 {
            Ok(Setting::InitialWindowSize(value))
        } else if id == 0x05 {
            Ok(Setting::MaxFrameSize(value))
        } else if id == 0x06 {
            Ok(Setting::MaxHeaderListSize(value))
        } else {
            Err(Error::InvalidSettingIdentifier)
        }
    }

    /// The six bytes of the parameter.
    pub(crate) fn to_bytes(&self) -> (b: Vec<u8>)
        ensures
            b@ == setting_bytes(*self),
    {
        let id = self.identifier();
        let v = self.value();
        let mut b = Vec::new();
        b.push((id >> 8u16) as u8);
        b.push(id as u8);
        b.push((v >> 24u32) as u8);
        b.push((v >> 16u32) as u8);
        b.push((v >> 8u32) as u8);
        b.push(v as u8);
        assert(b@ =~= setting_bytes(*self));
        b
    }
}

impl SerDe for Setting {
    open spec fn readable(input: Seq<u8>) -> bool {
        true
    }

    open spec fn writable(&self) -> bool {
        true
    }

    /// The parameter at the front of `input`, which takes six bytes (see
    /// `spec_read_setting`).
    fn read(input: &[u8]) -> (r: Result<(Setting, usize), Error>)
        ensures
            match r {
                Ok((s, n)) => spec_read_setting(input@) == Ok::<Setting, Error>(s) && n == 6,
                Err(e) => spec_read_setting(input@) == Err::<Setting, Error>(e),
            },
    {
        match Setting::from_bytes(input) {
            Ok(s) => Ok((s, 6)),
            Err(e) => Err(e),
        }
    }

    /// Appends the six bytes of the parameter.
    fn write(&self, out: &mut Vec<u8>) -> (r: Result<(), Error>)
        ensures
            r is Ok,
            final(out)@ == old(out)@ + setting_bytes(*self),
    {
        let b = self.to_bytes();
        append_bytes(out, b.as_slice());
        Ok(())
    }
}

/// Every parameter is read back from its bytes.
pub proof fn lemma_setting_roundtrip(s: Setting)
    ensures
        spec_read_setting(setting_bytes(s)) == Ok::<Setting, Error>(s),
{
    crate::wire::lemma_be16_roundtrip(spec_identifier(s));
    crate::wire::lemma_be32_roundtrip(spec_setting_value(s));
    let b = setting_bytes(s);
    assert(b[0] == be16(spec_identifier(s))[0] && b[1] == be16(spec_identifier(s))[1]);
    assert(b[2] == be32(spec_setting_value(s))[0] && b[3] == be32(spec_setting_value(s))[1]);
    assert(b[4] == be32(spec_setting_value(s))[2] && b[5] == be32(spec_setting_value(s))[3]);
}

/// The bytes of a parameter read from six bytes are those bytes, provided
/// that an `EnablePush` value is 0 or 1 (other non-zero values are read as
/// "on" and written back as 1).
pub proof fn lemma_setting_bytes_roundtrip(b: Seq<u8>)
    requires
        b.len() == 6,
        spec_read_setting(b) is Ok,
        from_be16(b[0], b[1]) == 0x02 ==> from_be32(b[2], b[3], b[4], b[5]) <= 1,
    ensures
        setting_bytes(spec_read_setting(b)->Ok_0) == b,
{
    crate::wire::lemma_from_be16_roundtrip(b[0], b[1]);
    crate::wire::lemma_from_be32_roundtrip(b[2], b[3], b[4], b[5]);
    assert(setting_bytes(spec_read_setting(b)->Ok_0) =~= b);
}

/// The two bytes of an identifier below 256.
proof fn lemma_small_be16(id: u16)
    requires
        id < 256,
    ensures
        be16(id) == seq![0u8, id as u8],
{
    assert((id >> 8u16) as u8 == 0u8) by (bit_vector)
        requires
            id < 256,
    ;
}

/// Six bytes made of the identifier `id` and the value `v` are read with
/// that identifier and that value.
proof fn lemma_read_identifier(id: u8, v: u32)
    ensures
        spec_read_setting(seq![0u8, id] + be32(v)) == match spec_setting(id as u16, v) {
            Some(s) => Ok::<Setting, Error>(s),
            None => Err::<Setting, Error>(Error::InvalidSettingIdentifier),
        },
{
    let b = seq![0u8, id] + be32(v);
    crate::wire::lemma_be32_roundtrip(v);
    assert(from_be16(0u8, id) == id as u16) by (bit_vector);
    assert(b[0] == 0u8 && b[1] == id);
    assert(b[2] == be32(v)[0] && b[3] == be32(v)[1] && b[4] == be32(v)[2] && b[5] == be32(v)[3]);
}

/// Law: the parameters carry the identifiers of RFC 9113, section 6.5.2:
/// HEADER_TABLE_SIZE 1, ENABLE_PUSH 2, MAX_CONCURRENT_STREAMS 3,
/// INITIAL_WINDOW_SIZE 4, MAX_FRAME_SIZE 5, MAX_HEADER_LIST_SIZE 6. A
/// parameter is written with its identifier, as the two big-endian bytes
/// that start its six, and six bytes with one of those identifiers are read
/// as that parameter with the value that follows.
pub proof fn lemma_setting_identifiers(s: Setting, v: u32)
    ensures
        s is HeaderTableSize <==> setting_bytes(s).take(2) == seq![0u8, 1u8],
        s is EnablePush <==> setting_bytes(s).take(2) == seq![0u8, 2u8],
        s is MaxConcurrentStreams <==> setting_bytes(s).take(2) == seq![0u8, 3u8],
        s is InitialWindowSize <==> setting_bytes(s).take(2) == seq![0u8, 4u8],
        s is MaxFrameSize <==> setting_bytes(s).take(2) == seq![0u8, 5u8],
        s is MaxHeaderListSize <==> setting_bytes(s).take(2) == seq![0u8, 6u8],
        spec_read_setting(seq![0u8, 1u8] + be32(v)) == Ok::<Setting, Error>(Setting::HeaderTableSize(v)),
        spec_read_setting(seq![0u8, 2u8] + be32(v)) == Ok::<Setting, Error>(Setting::EnablePush(v != 0)),
        spec_read_setting(seq![0u8, 3u8] + be32(v)) == Ok::<Setting, Error>(Setting::MaxConcurrentStreams(v)),
        spec_read_setting(seq![0u8, 4u8] + be32(v)) == Ok::<Setting, Error>(Setting::InitialWindowSize(v)),
        spec_read_setting(seq![0u8, 5u8] + be32(v)) == Ok::<Setting, Error>(Setting::MaxFrameSize(v)),
        spec_read_setting(seq![0u8, 6u8] + be32(v)) == Ok::<Setting, Error>(Setting::MaxHeaderListSize(v)),
{
    let id = spec_identifier(s);
    lemma_small_be16(id);
    assert(setting_bytes(s).take(2) =~= be16(id));
    lemma_read_identifier(1u8, v);
    lemma_read_identifier(2u8, v);
    lemma_read_identifier(3u8, v);
    lemma_read_identifier(4u8, v);
    lemma_read_identifier(5u8, v);
    lemma_read_identifier(6u8, v);
}

} // verus!
