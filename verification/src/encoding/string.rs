//! The codec of the `string` field type; decoded strings are copied into an
//! arena.
use vstd::prelude::*;

use crate::arena::Arena;
use crate::encoding::{
    decode_length_delimited, encode_length_delimited, key_len, lemma_length_delimited_roundtrip,
    spec_decode_key, spec_decode_length_delimited, spec_encode_key, spec_length_delimited,
    valid_tag, DecodeContext,
};
use crate::error::DecodeError;
use crate::scalar::{lemma_key_len, spec_key_len};
use crate::varint::{encoded_len_varint, spec_varint_len};
use crate::wire_type::{check_wire_type, WireType};
use vstd::string::StringSliceAdditionalSpecFns;
use vstd::utf8::valid_utf8;

verus! {

/// Calls `std::str::from_utf8`, which gives the bytes as a string exactly
/// when they are valid UTF-8.
#[verifier::external_body]
fn str_from_utf8(v: &[u8]) -> (r: Option<&str>)
    ensures
        r is Some <==> valid_utf8(v@),
        r matches Some(s) ==> s.spec_bytes() == v@,
{
    core::str::from_utf8(v).ok()
}

/// Appends a `string` field.
pub fn encode(tag: u32, value: &str, buf: &mut Vec<u8>)
    requires
        valid_tag(tag),
    ensures
        final(buf)@ == old(buf)@ + spec_length_delimited(tag, value.spec_bytes()),
{
    encode_length_delimited(tag, value.as_bytes(), buf)
}

/// Decodes a `string` field and copies it into the arena.
///
/// Fails, leaving `buf` as it was, on another wire type, a malformed length,
/// a length past the end of the buffer, or bytes that are not UTF-8.
///
/// On every failure the buffer is left where the item began, so that the
/// caller sees it whole; how far a failing read has advanced is a detail
/// that no caller relies on, since decoding stops at the first error.
pub fn merge_arena<'arena>(
    wire_type: WireType,
    buf: &mut &[u8],
    arena: &'arena Arena,
    ctx: DecodeContext,
) -> (r: Result<&'arena str, DecodeError>)
    ensures
        wire_type != WireType::LengthDelimited ==> r == Err::<&str, DecodeError>(
            DecodeError::WireTypeMismatch { expected: WireType::LengthDelimited, actual: wire_type },
        ) && final(buf)@ == old(buf)@,
        wire_type == WireType::LengthDelimited ==> match spec_decode_length_delimited(old(buf)@) {
            Ok((data, n)) => if valid_utf8(data) {
                r matches Ok(s) && s.spec_bytes() == data && final(buf)@ == old(buf)@.skip(n as int)
            } else {
                r == Err::<&str, DecodeError>(DecodeError::InvalidUtf8) && final(buf)@ == old(buf)@
            },
            Err(e) => r == Err::<&str, DecodeError>(e) && final(buf)@ == old(buf)@,
        },
{
    match check_wire_type(WireType::LengthDelimited, wire_type) {
        Ok(()) => {},
        Err(e) => return Err(e),
    }
    let start: &[u8] = *buf;
    let data = match decode_length_delimited(buf) {
        Ok(d) => d,
        Err(e) => return Err(e),
    };
    let bytes: &'arena [u8] = arena.alloc_bytes(data);
    match str_from_utf8(bytes) {
        Some(s) => Ok(s),
        None => {
            *buf = start;
            Err(DecodeError::InvalidUtf8)
        },
    }
}

/// One `string` field per value, one after the other.
pub open spec fn spec_string_fields(tag: u32, values: Seq<&str>) -> Seq<u8>
    decreases values.len(),
{
    if values.len() == 0 {
        Seq::empty()
    } else {
        spec_string_fields(tag, values.drop_last()) + spec_length_delimited(
            tag,
            values.last().spec_bytes(),
        )
    }
}

/// Appends one `string` field per value.
pub fn encode_repeated(tag: u32, values: &[&str], buf: &mut Vec<u8>)
    requires
        valid_tag(tag),
    ensures
        final(buf)@ == old(buf)@ + spec_string_fields(tag, values@),
{
    let mut i: usize = 0;
    while i < values.len()
        invariant
            valid_tag(tag),
            i <= values@.len(),
            buf@ == old(buf)@ + spec_string_fields(tag, values@.take(i as int)),
        decreases values@.len() - i,
    {
        encode(tag, values[i], buf);
        assert(values@.take(i + 1).drop_last() =~= values@.take(i as int));
        assert(buf@ =~= old(buf)@ + spec_string_fields(tag, values@.take(i + 1)));
        i = i + 1;
    }
    assert(values@.take(values@.len() as int) =~= values@);
}

/// Decodes a `string` field, copies it into the arena and appends it.
///
/// Fails, leaving `values` and `buf` as they were, as `merge_arena` does.
pub fn merge_repeated_arena<'a>(
    wire_type: WireType,
    values: &mut Vec<&'a str>,
    buf: &mut &[u8],
    arena: &'a Arena,
    ctx: DecodeContext,
) -> (r: Result<(), DecodeError>)
    ensures
        wire_type != WireType::LengthDelimited ==> r == Err::<(), DecodeError>(
            DecodeError::WireTypeMismatch { expected: WireType::LengthDelimited, actual: wire_type },
        ) && final(buf)@ == old(buf)@ && final(values)@ == old(values)@,
        wire_type == WireType::LengthDelimited ==> match spec_decode_length_delimited(old(buf)@) {
            Ok((data, n)) => if valid_utf8(data) {
                r is Ok && final(values)@.len() == old(values)@.len() + 1 && final(values)@.drop_last()
                    == old(values)@ && final(values)@.last().spec_bytes() == data && final(buf)@
                    == old(buf)@.skip(n as int)
            } else {
                r == Err::<(), DecodeError>(DecodeError::InvalidUtf8) && final(buf)@ == old(buf)@
                    && final(values)@ == old(values)@
            },
            Err(e) => r == Err::<(), DecodeError>(e) && final(buf)@ == old(buf)@ && final(values)@
                == old(values)@,
        },
{
    match check_wire_type(WireType::LengthDelimited, wire_type) {
        Ok(()) => {},
        Err(e) => return Err(e),
    }
    let value = match merge_arena(wire_type, buf, arena, ctx) {
        Ok(v) => v,
        Err(e) => return Err(e),
    };
    values.push(value);
    assert(values@.drop_last() =~= old(values)@);
    Ok(())
}

/// The number of bytes of a `string` field.
pub fn encoded_len(tag: u32, value: &str) -> (r: usize)
    requires
        spec_key_len(tag) + 10 + value.spec_bytes().len() <= usize::MAX,
    ensures
        r == spec_key_len(tag) + spec_varint_len(value.spec_bytes().len()) + value.spec_bytes().len(),
        valid_tag(tag) ==> r == spec_length_delimited(tag, value.spec_bytes()).len(),
{
    proof {
        if valid_tag(tag) {
            lemma_key_len(tag, WireType::LengthDelimited);
        }
    }
    key_len(tag) + encoded_len_varint(value.len() as u64) + value.len()
}

/// The number of bytes of the values and their length prefixes, without keys.
pub open spec fn spec_string_bodies_len(values: Seq<&str>) -> nat
    decreases values.len(),
{
    if values.len() == 0 {
        0
    } else {
        spec_string_bodies_len(values.drop_last()) + spec_varint_len(
            values.last().spec_bytes().len(),
        ) + values.last().spec_bytes().len()
    }
}

/// The fields of the values take a key each and their bodies.
pub proof fn lemma_string_fields_len(tag: u32, values: Seq<&str>)
    requires
        valid_tag(tag),
    ensures
        spec_string_fields(tag, values).len() == spec_key_len(tag) * values.len()
            + spec_string_bodies_len(values),
    decreases values.len(),
{
    lemma_key_len(tag, WireType::LengthDelimited);
    if values.len() > 0 {
        lemma_string_fields_len(tag, values.drop_last());
        vstd::arithmetic::mul::lemma_mul_is_distributive_sub(
            spec_key_len(tag) as int, values.len() as int, 1);
    }
}

/// The bodies of a prefix take no more bytes than the bodies of the whole.
proof fn lemma_string_bodies_prefix(values: Seq<&str>, i: int)
    requires
        0 <= i <= values.len(),
    ensures
        spec_string_bodies_len(values.take(i)) <= spec_string_bodies_len(values),
    decreases values.len() - i,
{
    if i < values.len() {
        lemma_string_bodies_prefix(values, i + 1);
        assert(values.take(i + 1).drop_last() =~= values.take(i));
    } else {
        assert(values.take(i) =~= values);
    }
}

/// The number of bytes of one `string` field per value.
pub fn encoded_len_repeated(tag: u32, values: &[&str]) -> (r: usize)
    requires
        spec_key_len(tag) * values@.len() + spec_string_bodies_len(values@) <= usize::MAX,
    ensures
        r == spec_key_len(tag) * values@.len() + spec_string_bodies_len(values@),
        valid_tag(tag) ==> r == spec_string_fields(tag, values@).len(),
{
    proof {
        if valid_tag(tag) {
            lemma_string_fields_len(tag, values@);
        }
        vstd::arithmetic::mul::lemma_mul_nonnegative(spec_key_len(tag) as int, values@.len() as int);
    }
    let k = key_len(tag);
    let n = values.len();
    assert(k * n <= usize::MAX);
    let mut total: usize = k * n;
    let mut i: usize = 0;
    while i < values.len()
        invariant
            i <= values@.len(),
            k * n + spec_string_bodies_len(values@) <= usize::MAX,
            total == k * n + spec_string_bodies_len(values@.take(i as int)),
        decreases values@.len() - i,
    {
        proof {
            lemma_string_bodies_prefix(values@, i + 1);
            assert(values@.take(i + 1).drop_last() =~= values@.take(i as int));
        }
        let len = values[i].len();
        total = total + encoded_len_varint(len as u64) + len;
        i = i + 1;
    }
    assert(values@.take(values@.len() as int) =~= values@);
    total
}

/// A `string` field decodes back to its string: after its key comes the
/// string's UTF-8, which is valid, and any string with those bytes has the
/// same characters.
pub proof fn lemma_string_field_roundtrip(tag: u32, value: &str, rest: Seq<u8>)
    requires
        valid_tag(tag),
        value.spec_bytes().len() <= u64::MAX,
    ensures
        ({
            let s = spec_length_delimited(tag, value.spec_bytes()) + rest;
            let k = spec_encode_key(tag, WireType::LengthDelimited).len();
            &&& spec_decode_key(s) == Ok::<(u32, WireType, nat), DecodeError>(
                (tag, WireType::LengthDelimited, k),
            )
            &&& spec_decode_length_delimited(s.skip(k as int)) == Ok::<(Seq<u8>, nat), DecodeError>(
                (value.spec_bytes(), (spec_length_delimited(tag, value.spec_bytes()).len() - k) as nat),
            )
        }),
        valid_utf8(value.spec_bytes()),
        forall|t: &str| #[trigger] t.spec_bytes() == value.spec_bytes() ==> t@ == value@,
{
    lemma_length_delimited_roundtrip(tag, value.spec_bytes(), rest);
    vstd::utf8::encode_utf8_valid_utf8(value@);
    assert forall|t: &str| #[trigger] t.spec_bytes() == value.spec_bytes() implies t@ == value@ by {
        vstd::utf8::encode_utf8_decode_utf8(t@);
        vstd::utf8::encode_utf8_decode_utf8(value@);
    }
}

} // verus!
