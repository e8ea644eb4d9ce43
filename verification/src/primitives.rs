//! The base types of the wire format as messages.
//!
//! Each base type has a reserved fingerprint: the ASCII name of the type on
//! the wire, padded with zero bytes to eight. Integers travel in network byte
//! order, a boolean as one byte that is 0 or 1, and a string as a four-byte
//! length that counts a closing zero byte, the UTF-8 bytes, and that zero
//! byte.

use vstd::prelude::*;
use vstd::slice::slice_subrange;
use vstd::string::StringSliceAdditionalSpecFns;
use vstd::utf8::{decode_utf8, encode_utf8, valid_utf8};
use vstd::utf8::{encode_utf8_decode_utf8, encode_utf8_valid_utf8};
use crate::error::DecodeError;
use crate::message::Message;
use crate::wire::{
    be16, be32, be64, bits16, bits32, bits64, bits8, from_be16, from_be32, from_be64, get_be16,
    get_be32, get_be64, lemma_be16_round_trip, lemma_be32_round_trip, lemma_be64_round_trip,
    put_be16, put_be32, put_be64, signed16, signed32, signed64, signed8,
};

verus! {

/// The fingerprint of `bool`: `boolean`.
pub const BOOLEAN_FINGERPRINT: u64 = 0x626f_6f6c_6561_6e00;

/// The fingerprint of `u8`: `byte`.
pub const BYTE_FINGERPRINT: u64 = 0x6279_7465_0000_0000;

/// The fingerprint of `i8`: `int8_t`.
pub const INT8_FINGERPRINT: u64 = 0x696e_7438_5f74_0000;

/// The fingerprint of `i16`: `int16_t`.
pub const INT16_FINGERPRINT: u64 = 0x696e_7431_365f_7400;

/// The fingerprint of `i32`: `int32_t`.
pub const INT32_FINGERPRINT: u64 = 0x696e_7433_325f_7400;

/// The fingerprint of `i64`: `int64_t`.
pub const INT64_FINGERPRINT: u64 = 0x696e_7436_345f_7400;

/// The fingerprint of `String`: `string`.
pub const STRING_FINGERPRINT: u64 = 0x7374_7269_6e67_0000;

/// The largest number of UTF-8 bytes that a string on the wire can have: its
/// length field is a signed 32-bit number and counts the closing zero byte.
pub const MAX_STRING_BYTES: usize = 0x7fff_fffe;

fn to_bits8(x: i8) -> (u: u8)
    ensures
        u == bits8(x),
{
    if x < 0 {
        (x as i16 + 0x100) as u8
    } else {
        x as u8
    }
}

fn to_bits16(x: i16) -> (u: u16)
    ensures
        u == bits16(x),
{
    if x < 0 {
        (x as i32 + 0x1_0000) as u16
    } else {
        x as u16
    }
}

fn to_bits32(x: i32) -> (u: u32)
    ensures
        u == bits32(x),
{
    if x < 0 {
        (x as i64 + 0x1_0000_0000) as u32
    } else {
        x as u32
    }
}

fn to_bits64(x: i64) -> (u: u64)
    ensures
        u == bits64(x),
{
    if x < 0 {
        (x as i128 + 0x1_0000_0000_0000_0000) as u64
    } else {
        x as u64
    }
}

fn to_signed8(u: u8) -> (x: i8)
    ensures
        x == signed8(u),
{
    if u >= 0x80 {
        (u as i16 - 0x100) as i8
    } else {
        u as i8
    }
}

fn to_signed16(u: u16) -> (x: i16)
    ensures
        x == signed16(u),
{
    if u >= 0x8000 {
        (u as i32 - 0x1_0000) as i16
    } else {
        u as i16
    }
}

fn to_signed32(u: u32) -> (x: i32)
    ensures
        x == signed32(u),
{
    if u >= 0x8000_0000 {
        (u as i64 - 0x1_0000_0000) as i32
    } else {
        u as i32
    }
}

fn to_signed64(u: u64) -> (x: i64)
    ensures
        x == signed64(u),
{
    if u >= 0x8000_0000_0000_0000 {
        (u as i128 - 0x1_0000_0000_0000_0000) as i64
    } else {
        u as i64
    }
}

impl Message for bool {
    open spec fn spec_hash() -> u64 {
        BOOLEAN_FINGERPRINT
    }

    open spec fn encodable(v: bool) -> bool {
        true
    }

    open spec fn spec_encode(v: bool) -> Seq<u8> {
        seq![if v { 1u8 } else { 0u8 }]
    }

    open spec fn spec_decode(bytes: Seq<u8>) -> Result<bool, DecodeError> {
        if bytes.len() < 1 {
            Err(DecodeError::Truncated)
        } else if bytes[0] == 0 {
            Ok(false)
        } else if bytes[0] == 1 {
            Ok(true)
        } else {
            Err(DecodeError::Malformed)
        }
    }

    proof fn lemma_round_trip(v: bool) {
    }

    fn hash() -> (h: u64) {
        BOOLEAN_FINGERPRINT
    }

    fn encode(&self) -> (bytes: Vec<u8>) {
        let mut bytes: Vec<u8> = Vec::new();
        bytes.push(if *self { 1 } else { 0 });
        assert(bytes@ =~= Self::spec_encode(*self));
        bytes
    }

    fn decode(bytes: &[u8]) -> (r: Result<bool, DecodeError>) {
        if bytes.len() < 1 {
            Err(DecodeError::Truncated)
        } else if bytes[0] == 0 {
            Ok(false)
        } else if bytes[0] == 1 {
            Ok(true)
        } else {
            Err(DecodeError::Malformed)
        }
    }
}

impl Message for u8 {
    open spec fn spec_hash() -> u64 {
        BYTE_FINGERPRINT
    }

    open spec fn encodable(v: u8) -> bool {
        true
    }

    open spec fn spec_encode(v: u8) -> Seq<u8> {
        seq![v]
    }

    open spec fn spec_decode(bytes: Seq<u8>) -> Result<u8, DecodeError> {
        if bytes.len() < 1 {
            Err(DecodeError::Truncated)
        } else {
            Ok(bytes[0])
        }
    }

    proof fn lemma_round_trip(v: u8) {
    }

    fn hash() -> (h: u64) {
        BYTE_FINGERPRINT
    }

    fn encode(&self) -> (bytes: Vec<u8>) {
        let mut bytes: Vec<u8> = Vec::new();
        bytes.push(*self);
        assert(bytes@ =~= Self::spec_encode(*self));
        bytes
    }

    fn decode(bytes: &[u8]) -> (r: Result<u8, DecodeError>) {
        if bytes.len() < 1 {
            Err(DecodeError::Truncated)
        } else {
            Ok(bytes[0])
        }
    }
}

impl Message for i8 {
    open spec fn spec_hash() -> u64 {
        INT8_FINGERPRINT
    }

    open spec fn encodable(v: i8) -> bool {
        true
    }

    open spec fn spec_encode(v: i8) -> Seq<u8> {
        seq![bits8(v)]
    }

    open spec fn spec_decode(bytes: Seq<u8>) -> Result<i8, DecodeError> {
        if bytes.len() < 1 {
            Err(DecodeError::Truncated)
        } else {
            Ok(signed8(bytes[0]))
        }
    }

    proof fn lemma_round_trip(v: i8) {
    }

    fn hash() -> (h: u64) {
        INT8_FINGERPRINT
    }

    fn encode(&self) -> (bytes: Vec<u8>) {
        let mut bytes: Vec<u8> = Vec::new();
        bytes.push(to_bits8(*self));
        assert(bytes@ =~= Self::spec_encode(*self));
        bytes
    }

    fn decode(bytes: &[u8]) -> (r: Result<i8, DecodeError>) {
        if bytes.len() < 1 {
            Err(DecodeError::Truncated)
        } else {
            Ok(to_signed8(bytes[0]))
        }
    }
}

impl Message for i16 {
    open spec fn spec_hash() -> u64 {
        INT16_FINGERPRINT
    }

    open spec fn encodable(v: i16) -> bool {
        true
    }

    open spec fn spec_encode(v: i16) -> Seq<u8> {
        be16(bits16(v))
    }

    open spec fn spec_decode(bytes: Seq<u8>) -> Result<i16, DecodeError> {
        if bytes.len() < 2 {
            Err(DecodeError::Truncated)
        } else {
            Ok(signed16(from_be16(bytes)))
        }
    }

    proof fn lemma_round_trip(v: i16) {
        lemma_be16_round_trip(bits16(v));
    }

    fn hash() -> (h: u64) {
        INT16_FINGERPRINT
    }

    fn encode(&self) -> (bytes: Vec<u8>) {
        let mut bytes: Vec<u8> = Vec::new();
        put_be16(&mut bytes, to_bits16(*self));
        assert(bytes@ =~= Self::spec_encode(*self));
        bytes
    }

    fn decode(bytes: &[u8]) -> (r: Result<i16, DecodeError>) {
        if bytes.len() < 2 {
            Err(DecodeError::Truncated)
        } else {
            Ok(to_signed16(get_be16(bytes)))
        }
    }
}

impl Message for i32 {
    open spec fn spec_hash() -> u64 {
        INT32_FINGERPRINT
    }

    open spec fn encodable(v: i32) -> bool {
        true
    }

    open spec fn spec_encode(v: i32) -> Seq<u8> {
        be32(bits32(v))
    }

    open spec fn spec_decode(bytes: Seq<u8>) -> Result<i32, DecodeError> {
        if bytes.len() < 4 {
            Err(DecodeError::Truncated)
        } else {
            Ok(signed32(from_be32(bytes)))
        }
    }

    proof fn lemma_round_trip(v: i32) {
        lemma_be32_round_trip(bits32(v));
    }

    fn hash() -> (h: u64) {
        INT32_FINGERPRINT
    }

    fn encode(&self) -> (bytes: Vec<u8>) {
        let mut bytes: Vec<u8> = Vec::new();
        put_be32(&mut bytes, to_bits32(*self));
        assert(bytes@ =~= Self::spec_encode(*self));
        bytes
    }

    fn decode(bytes: &[u8]) -> (r: Result<i32, DecodeError>) {
        if bytes.len() < 4 {
            Err(DecodeError::Truncated)
        } else {
            Ok(to_signed32(get_be32(bytes)))
        }
    }
}

impl Message for i64 {
    open spec fn spec_hash() -> u64 {
        INT64_FINGERPRINT
    }

    open spec fn encodable(v: i64) -> bool {
        true
    }

    open spec fn spec_encode(v: i64) -> Seq<u8> {
        be64(bits64(v))
    }

    open spec fn spec_decode(bytes: Seq<u8>) -> Result<i64, DecodeError> {
        if bytes.len() < 8 {
            Err(DecodeError::Truncated)
        } else {
            Ok(signed64(from_be64(bytes)))
        }
    }

    proof fn lemma_round_trip(v: i64) {
        lemma_be64_round_trip(bits64(v));
    }

    fn hash() -> (h: u64) {
        INT64_FINGERPRINT
    }

    fn encode(&self) -> (bytes: Vec<u8>) {
        let mut bytes: Vec<u8> = Vec::new();
        put_be64(&mut bytes, to_bits64(*self));
        assert(bytes@ =~= Self::spec_encode(*self));
        bytes
    }

    fn decode(bytes: &[u8]) -> (r: Result<i64, DecodeError>) {
        if bytes.len() < 8 {
            Err(DecodeError::Truncated)
        } else {
            Ok(to_signed64(get_be64(bytes)))
        }
    }
}

/// Checks that `bytes` are UTF-8 and hands them back as text.
///
/// Trusted: this is `core::str::from_utf8`. Its documentation says that it
/// succeeds exactly on the byte slices that are valid UTF-8, and that the
/// string slice it then returns is made of those very bytes. What valid UTF-8
/// is, and which bytes a string slice is made of, is said the way vstd says
/// it for `str` itself: by `valid_utf8` and `spec_bytes`.
#[verifier::external_body]
fn str_from_utf8(bytes: &[u8]) -> (r: Option<&str>)
    ensures
        r is Some <==> valid_utf8(bytes@),
        r matches Some(text) ==> text.spec_bytes() == bytes@,
{
    match core::str::from_utf8(bytes) {
        Ok(text) => Some(text),
        Err(_) => None,
    }
}

/// The length field of a string with `n` UTF-8 bytes: `n` and the closing
/// zero byte, as far as four bytes hold it.
pub open spec fn string_length_field(n: nat) -> u32 {
    ((n + 1) % 0x1_0000_0000) as u32
}

fn length_field(n: usize) -> (field: u32)
    ensures
        field == string_length_field(n as nat),
{
    let low: u64 = n as u64 % 0x1_0000_0000;
    ((low + 1) % 0x1_0000_0000) as u32
}

impl Message for String {
    open spec fn spec_hash() -> u64 {
        STRING_FINGERPRINT
    }

    open spec fn encodable(v: Seq<char>) -> bool {
        encode_utf8(v).len() <= MAX_STRING_BYTES
    }

    open spec fn spec_encode(v: Seq<char>) -> Seq<u8> {
        be32(string_length_field(encode_utf8(v).len())) + encode_utf8(v) + seq![0u8]
    }

    open spec fn spec_decode(bytes: Seq<u8>) -> Result<Seq<char>, DecodeError> {
        if bytes.len() < 4 {
            Err(DecodeError::Truncated)
        } else {
            let n = signed32(from_be32(bytes)) as int;
            if n < 1 {
                Err(DecodeError::Malformed)
            } else if bytes.len() < 4 + n {
                Err(DecodeError::Truncated)
            } else if bytes[3 + n] != 0 || !valid_utf8(bytes.subrange(4, 3 + n)) {
                Err(DecodeError::Malformed)
            } else {
                Ok(decode_utf8(bytes.subrange(4, 3 + n)))
            }
        }
    }

    proof fn lemma_round_trip(v: Seq<char>) {
        let text = encode_utf8(v);
        let field = string_length_field(text.len());
        let bytes = Self::spec_encode(v);
        lemma_be32_round_trip(field);
        encode_utf8_valid_utf8(v);
        encode_utf8_decode_utf8(v);
        assert(bytes.subrange(0, 2) =~= be32(field).subrange(0, 2));
        assert(bytes.subrange(2, 4) =~= be32(field).subrange(2, 4));
        assert(bytes.subrange(4, text.len() as int + 4) =~= text);
    }

    fn hash() -> (h: u64) {
        STRING_FINGERPRINT
    }

    fn encode(&self) -> (bytes: Vec<u8>) {
        let text: &[u8] = self.as_str().as_bytes();
        let mut bytes: Vec<u8> = Vec::new();
        put_be32(&mut bytes, length_field(text.len()));
        bytes.extend_from_slice(text);
        bytes.push(0);
        bytes
    }

    fn decode(bytes: &[u8]) -> (r: Result<String, DecodeError>) {
        if bytes.len() < 4 {
            return Err(DecodeError::Truncated);
        }
        let n: i32 = to_signed32(get_be32(bytes));
        if n < 1 {
            return Err(DecodeError::Malformed);
        }
        let n: usize = n as usize;
        if bytes.len() - 4 < n {
            return Err(DecodeError::Truncated);
        }
        if bytes[3 + n] != 0 {
            return Err(DecodeError::Malformed);
        }
        let payload: &[u8] = slice_subrange(bytes, 4, 3 + n);
        match str_from_utf8(payload) {
            None => Err(DecodeError::Malformed),
            Some(text) => {
                proof {
                    encode_utf8_decode_utf8(text@);
                }
                Ok(text.to_owned())
            },
        }
    }
}

} // verus!
