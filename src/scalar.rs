use vstd::prelude::*;
use vstd::slice::{slice_subrange, slice_to_vec};
use vstd::utf8::{decode_utf8, encode_utf8, encode_utf8_decode_utf8, encode_utf8_valid_utf8, valid_utf8};
use edgedb_protocol::errors::DecodeError as ProtocolError;
use edgedb_protocol::queryable::{Decoder, Queryable};
use crate::error::DecodeError;
use crate::wire::{as_signed32, be_u32_at};

verus! {

#[verifier::external_type_specification]
#[verifier::external_body]
pub struct ExProtocolDecodeError(ProtocolError);

#[verifier::external_type_specification]
#[verifier::external_body]
pub struct ExJsonError(serde_json::Error);

/// The pairs of the JSON object that `text` holds, where that object's values
/// are all strings; `None` for any other text.
pub uninterp spec fn json_string_map(text: Seq<char>) -> Option<Seq<(Seq<char>, Seq<char>)>>;

pub open spec fn pairs_view(v: Seq<(String, String)>) -> Seq<(Seq<char>, Seq<char>)> {
    v.map_values(|p: (String, String)| (p.0@, p.1@))
}

/// Relies on edgedb-protocol's `Queryable::decode` for `String` (its
/// `RawCodec` impl), which accepts exactly the valid UTF-8 byte strings
/// (through `str::from_utf8`) and returns their characters.
#[verifier::external_body]
fn protocol_decode_string(b: &[u8]) -> (r: Result<String, ProtocolError>)
    ensures
        match r {
            Ok(s) => valid_utf8(b@) && s@ == decode_utf8(b@),
            Err(_) => !valid_utf8(b@),
        },
{
    <String as Queryable>::decode(&Decoder::default(), b)
}

/// Relies on `serde_json::from_str` into a `BTreeMap<String, String>`: it
/// accepts a JSON object whose values are strings, its result depends on the
/// text alone, and the map hands its pairs out in key order.
#[verifier::external_body]
fn parse_json_string_map(text: &str) -> (r: Result<Vec<(String, String)>, serde_json::Error>)
    ensures
        match r {
            Ok(v) => json_string_map(text@) == Some(pairs_view(v@)),
            Err(_) => json_string_map(text@) is None,
        },
{
    match serde_json::from_str::<std::collections::BTreeMap<String, String>>(text) {
        Ok(m) => Ok(m.into_iter().collect()),
        Err(e) => Err(e),
    }
}

/// The version byte that starts every JSON-wrapped value.
pub const JSON_FORMAT_VERSION: u8 = 1;

/// A value of exactly `size` bytes: too few is an underflow, too many is
/// trailing data.
pub open spec fn exact_size(b: Seq<u8>, size: int) -> Result<(), DecodeError> {
    if b.len() < size {
        Err(DecodeError::Underflow)
    } else if b.len() > size {
        Err(DecodeError::TrailingData)
    } else {
        Ok(())
    }
}

pub open spec fn i16_of(b: Seq<u8>) -> Result<i16, DecodeError> {
    match exact_size(b, 2) {
        Err(e) => Err(e),
        Ok(()) => {
            let u = b[0] as int * 0x100 + b[1] as int;
            Ok(if u >= 0x8000 { (u - 0x1_0000) as i16 } else { u as i16 })
        },
    }
}

pub open spec fn i32_of(b: Seq<u8>) -> Result<i32, DecodeError> {
    match exact_size(b, 4) {
        Err(e) => Err(e),
        Ok(()) => Ok(as_signed32(be_u32_at(b, 0)) as i32),
    }
}

pub open spec fn bool_of(b: Seq<u8>) -> Result<bool, DecodeError> {
    match exact_size(b, 1) {
        Err(e) => Err(e),
        Ok(()) => if b[0] == 0 {
            Ok(false)
        } else if b[0] == 1 {
            Ok(true)
        } else {
            Err(DecodeError::InvalidBool)
        },
    }
}

pub open spec fn str_of(b: Seq<u8>) -> Result<Seq<char>, DecodeError> {
    if valid_utf8(b) {
        Ok(decode_utf8(b))
    } else {
        Err(DecodeError::InvalidUtf8)
    }
}

pub open spec fn uuid_of(b: Seq<u8>) -> Result<Seq<u8>, DecodeError> {
    match exact_size(b, 16) {
        Err(e) => Err(e),
        Ok(()) => Ok(b),
    }
}

/// The text of a JSON-wrapped value: a version byte, then UTF-8 text. The
/// version byte is checked before anything else is looked at.
pub open spec fn json_text_of(b: Seq<u8>) -> Result<Seq<char>, DecodeError> {
    if b.len() < 1 {
        Err(DecodeError::Underflow)
    } else if b[0] != JSON_FORMAT_VERSION {
        Err(DecodeError::InvalidJsonFormat)
    } else {
        str_of(b.drop_first())
    }
}

pub open spec fn json_string_map_of(b: Seq<u8>) -> Result<Seq<(Seq<char>, Seq<char>)>, DecodeError> {
    match json_text_of(b) {
        Err(e) => Err(e),
        Ok(t) => match json_string_map(t) {
            Some(m) => Ok(m),
            None => Err(DecodeError::InvalidJson),
        },
    }
}

fn check_size(b: &[u8], size: usize) -> (r: Result<(), DecodeError>)
    ensures
        r == exact_size(b@, size as int),
{
    if b.len() < size {
        Err(DecodeError::Underflow)
    } else if b.len() > size {
        Err(DecodeError::TrailingData)
    } else {
        Ok(())
    }
}

/// Decodes a big-endian 16-bit integer.
pub fn decode_i16(b: &[u8]) -> (r: Result<i16, DecodeError>)
    ensures
        r == i16_of(b@),
{
    match check_size(b, 2) {
        Err(e) => Err(e),
        Ok(()) => {
            let u: u32 = (b[0] as u32) * 0x100 + (b[1] as u32);
            if u >= 0x8000 {
                Ok((u as i32 - 0x1_0000) as i16)
            } else {
                Ok(u as i16)
            }
        },
    }
}

/// Decodes a big-endian 32-bit integer.
pub fn decode_i32(b: &[u8]) -> (r: Result<i32, DecodeError>)
    ensures
        r == i32_of(b@),
{
    match check_size(b, 4) {
        Err(e) => Err(e),
        Ok(()) => {
            let u: u64 = (b[0] as u64) * 0x100_0000 + (b[1] as u64) * 0x1_0000 + (b[2] as u64)
                * 0x100 + (b[3] as u64);
            if u >= 0x8000_0000 {
                Ok((u as i64 - 0x1_0000_0000) as i32)
            } else {
                Ok(u as i32)
            }
        },
    }
}

/// Decodes a boolean: one byte, 0 or 1.
pub fn decode_bool(b: &[u8]) -> (r: Result<bool, DecodeError>)
    ensures
        r == bool_of(b@),
{
    match check_size(b, 1) {
        Err(e) => Err(e),
        Ok(()) => if b[0] == 0 {
            Ok(false)
        } else if b[0] == 1 {
            Ok(true)
        } else {
            Err(DecodeError::InvalidBool)
        },
    }
}

/// Decodes UTF-8 text.
pub fn decode_str(b: &[u8]) -> (r: Result<String, DecodeError>)
    ensures
        match str_of(b@) {
            Ok(s) => r matches Ok(v) && v@ == s,
            Err(e) => r == Err::<String, DecodeError>(e),
        },
{
    match protocol_decode_string(b) {
        Ok(s) => Ok(s),
        Err(_) => Err(DecodeError::InvalidUtf8),
    }
}

/// Decodes the sixteen bytes of an object id.
pub fn decode_uuid(b: &[u8]) -> (r: Result<Vec<u8>, DecodeError>)
    ensures
        match uuid_of(b@) {
            Ok(s) => r matches Ok(v) && v@ == s,
            Err(e) => r == Err::<Vec<u8>, DecodeError>(e),
        },
{
    match check_size(b, 16) {
        Err(e) => Err(e),
        Ok(()) => Ok(slice_to_vec(b)),
    }
}

/// Decodes the text of a JSON-wrapped value; a wrong version byte fails
/// without the text being looked at.
pub fn decode_json_text(b: &[u8]) -> (r: Result<String, DecodeError>)
    ensures
        match json_text_of(b@) {
            Ok(s) => r matches Ok(v) && v@ == s,
            Err(e) => r == Err::<String, DecodeError>(e),
        },
        b@.len() >= 1 && b@[0] != JSON_FORMAT_VERSION ==> r == Err::<String, DecodeError>(
            DecodeError::InvalidJsonFormat,
        ),
{
    if b.len() < 1 {
        return Err(DecodeError::Underflow);
    }
    if b[0] != JSON_FORMAT_VERSION {
        return Err(DecodeError::InvalidJsonFormat);
    }
    let rest = slice_subrange(b, 1, b.len());
    assert(rest@ =~= b@.drop_first());
    decode_str(rest)
}

/// Maps the outcome of parsing JSON text as an object of strings to the
/// decoding result.
pub fn json_map_result(parsed: Result<Vec<(String, String)>, serde_json::Error>) -> (r: Result<
    Vec<(String, String)>,
    DecodeError,
>)
    ensures
        match parsed {
            Ok(v) => r == Ok::<Vec<(String, String)>, DecodeError>(v),
            Err(_) => r == Err::<Vec<(String, String)>, DecodeError>(DecodeError::InvalidJson),
        },
{
    match parsed {
        Ok(v) => Ok(v),
        Err(_) => Err(DecodeError::InvalidJson),
    }
}

/// Decodes a JSON-wrapped object whose values are all strings, as its pairs
/// in key order.
pub fn decode_json_string_map(b: &[u8]) -> (r: Result<Vec<(String, String)>, DecodeError>)
    ensures
        match json_string_map_of(b@) {
            Ok(m) => r matches Ok(v) && pairs_view(v@) == m,
            Err(e) => r == Err::<Vec<(String, String)>, DecodeError>(e),
        },
{
    match decode_json_text(b) {
        Err(e) => Err(e),
        Ok(text) => json_map_result(parse_json_string_map(text.as_str())),
    }
}

/// The wire form of a 16-bit integer.
pub open spec fn i16_bytes(v: i16) -> Seq<u8> {
    let u: int = if v < 0 { v + 0x1_0000 } else { v as int };
    seq![(u / 0x100) as u8, (u % 0x100) as u8]
}

/// The wire form of a 32-bit integer.
pub open spec fn i32_bytes(v: i32) -> Seq<u8> {
    let u: int = if v < 0 { v + 0x1_0000_0000 } else { v as int };
    seq![
        (u / 0x100_0000) as u8,
        (u / 0x1_0000 % 0x100) as u8,
        (u / 0x100 % 0x100) as u8,
        (u % 0x100) as u8,
    ]
}

/// The wire form of a boolean.
pub open spec fn bool_bytes(v: bool) -> Seq<u8> {
    seq![if v { 1u8 } else { 0u8 }]
}

/// Decoding the wire form of a 16-bit integer gives the integer back.
pub proof fn i16_round_trip(v: i16)
    ensures
        i16_of(i16_bytes(v)) == Ok::<i16, DecodeError>(v),
{
}

/// Decoding the wire form of a 32-bit integer gives the integer back.
pub proof fn i32_round_trip(v: i32)
    ensures
        i32_of(i32_bytes(v)) == Ok::<i32, DecodeError>(v),
{
}

/// Decoding the wire form of a boolean gives the boolean back.
pub proof fn bool_round_trip(v: bool)
    ensures
        bool_of(bool_bytes(v)) == Ok::<bool, DecodeError>(v),
{
}

/// Decoding the UTF-8 encoding of a text gives the text back.
pub proof fn str_round_trip(s: Seq<char>)
    ensures
        str_of(encode_utf8(s)) == Ok::<Seq<char>, DecodeError>(s),
{
    encode_utf8_valid_utf8(s);
    encode_utf8_decode_utf8(s);
}

} // verus!
