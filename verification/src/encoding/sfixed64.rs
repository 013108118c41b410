//! The codec of the `sfixed64` field type.
use vstd::prelude::*;

use crate::buf::spec_le_value;
use crate::encoding::{valid_tag, DecodeContext};
use crate::error::DecodeError;
use crate::scalar::{
    encode_fixed_field, encode_packed_fixed, encode_repeated_fixed, encoded_len_fixed_field,
    encoded_len_packed_fixed, encoded_len_repeated_fixed, merge_fixed_field,
    merge_repeated_fixed, spec_decode_packed_fixeds, spec_fixed_field, spec_fixed_fields,
    spec_fixed_packed, spec_key_len, Sfixed64Codec, FixedScalar,
};
use crate::varint::spec_varint_len;
use crate::wire_type::WireType;

verus! {

/// Appends a `sfixed64` field.
pub fn encode(tag: u32, value: &i64, buf: &mut Vec<u8>)
    requires
        valid_tag(tag),
    ensures
        final(buf)@ == old(buf)@ + spec_fixed_field::<Sfixed64Codec>(tag, *value),
{
    encode_fixed_field::<Sfixed64Codec>(tag, value, buf)
}

/// Decodes the value of a `sfixed64` field into `value`.
///
/// Fails, leaving `value` and `buf` as they were, on another wire type or when
/// too few bytes are left.
pub fn merge(wire_type: WireType, value: &mut i64, buf: &mut &[u8], ctx: DecodeContext) -> (r: Result<
    (),
    DecodeError,
>)
    ensures
        wire_type != Sfixed64Codec::wire_type() ==> r == Err::<(), DecodeError>(
            DecodeError::WireTypeMismatch { expected: Sfixed64Codec::wire_type(), actual: wire_type },
        ) && *final(value) == *old(value) && final(buf)@ == old(buf)@,
        wire_type == Sfixed64Codec::wire_type() && old(buf)@.len() < Sfixed64Codec::width() ==> r == Err::<
            (),
            DecodeError,
        >(DecodeError::BufferUnderflow) && *final(value) == *old(value) && final(buf)@ == old(buf)@,
        wire_type == Sfixed64Codec::wire_type() && old(buf)@.len() >= Sfixed64Codec::width() ==> r is Ok
            && *final(value) == Sfixed64Codec::spec_from_bits(
            spec_le_value(old(buf)@.take(Sfixed64Codec::width() as int)),
        ) && final(buf)@ == old(buf)@.skip(Sfixed64Codec::width() as int),
{
    merge_fixed_field::<Sfixed64Codec>(wire_type, value, buf, ctx)
}

/// Appends one `sfixed64` field per value.
pub fn encode_repeated(tag: u32, values: &[i64], buf: &mut Vec<u8>)
    requires
        valid_tag(tag),
    ensures
        final(buf)@ == old(buf)@ + spec_fixed_fields::<Sfixed64Codec>(tag, values@),
{
    encode_repeated_fixed::<Sfixed64Codec>(tag, values, buf)
}

/// Appends a packed repeated `sfixed64` field; nothing for no values.
pub fn encode_packed(tag: u32, values: &[i64], buf: &mut Vec<u8>)
    requires
        valid_tag(tag),
        Sfixed64Codec::width() * values@.len() <= u64::MAX,
    ensures
        final(buf)@ == old(buf)@ + spec_fixed_packed::<Sfixed64Codec>(tag, values@),
{
    encode_packed_fixed::<Sfixed64Codec>(tag, values, buf)
}

/// Decodes a repeated `sfixed64` field, packed or not, and appends its values.
///
/// Fails, leaving `values` and `buf` as they were, as `merge` does, on a
/// malformed or overlong packed length, or a value past the packed length.
pub fn merge_repeated(
    wire_type: WireType,
    values: &mut Vec<i64>,
    buf: &mut &[u8],
    ctx: DecodeContext,
) -> (r: Result<(), DecodeError>)
    ensures
        wire_type == WireType::LengthDelimited ==> match spec_decode_packed_fixeds::<Sfixed64Codec>(
            old(buf)@,
        ) {
            Ok((vs, n)) => r is Ok && final(values)@ == old(values)@ + vs && final(buf)@ == old(buf)@.skip(n as int),
            Err(e) => r == Err::<(), DecodeError>(e) && final(values)@ == old(values)@ && final(buf)@ == old(buf)@,
        },
        wire_type != WireType::LengthDelimited && wire_type != Sfixed64Codec::wire_type() ==> r == Err::<
            (),
            DecodeError,
        >(DecodeError::WireTypeMismatch { expected: Sfixed64Codec::wire_type(), actual: wire_type })
            && final(values)@ == old(values)@ && final(buf)@ == old(buf)@,
        wire_type == Sfixed64Codec::wire_type() && old(buf)@.len() < Sfixed64Codec::width() ==> r == Err::<
            (),
            DecodeError,
        >(DecodeError::BufferUnderflow) && final(values)@ == old(values)@ && final(buf)@ == old(buf)@,
        wire_type == Sfixed64Codec::wire_type() && old(buf)@.len() >= Sfixed64Codec::width() ==> r is Ok
            && final(values)@ == old(values)@.push(
            Sfixed64Codec::spec_from_bits(spec_le_value(old(buf)@.take(Sfixed64Codec::width() as int))),
        ) && final(buf)@ == old(buf)@.skip(Sfixed64Codec::width() as int),
{
    merge_repeated_fixed::<Sfixed64Codec>(wire_type, values, buf, ctx)
}

/// The number of bytes of a `sfixed64` field.
pub fn encoded_len(tag: u32, value: &i64) -> (r: usize)
    ensures
        r <= 20,
        r == spec_key_len(tag) + Sfixed64Codec::width(),
        valid_tag(tag) ==> r == spec_fixed_field::<Sfixed64Codec>(tag, *value).len(),
{
    encoded_len_fixed_field::<Sfixed64Codec>(tag, value)
}

/// The number of bytes of one `sfixed64` field per value.
pub fn encoded_len_repeated(tag: u32, values: &[i64]) -> (r: usize)
    requires
        (spec_key_len(tag) + Sfixed64Codec::width()) * values@.len() <= usize::MAX,
    ensures
        r == (spec_key_len(tag) + Sfixed64Codec::width()) * values@.len(),
        valid_tag(tag) ==> r == spec_fixed_fields::<Sfixed64Codec>(tag, values@).len(),
{
    encoded_len_repeated_fixed::<Sfixed64Codec>(tag, values)
}

/// The number of bytes of a packed repeated `sfixed64` field; 0 for no values.
pub fn encoded_len_packed(tag: u32, values: &[i64]) -> (r: usize)
    requires
        spec_key_len(tag) + 10 + Sfixed64Codec::width() * values@.len() <= usize::MAX,
    ensures
        values@.len() == 0 ==> r == 0,
        values@.len() > 0 ==> r == spec_key_len(tag) + spec_varint_len(
            Sfixed64Codec::width() * values@.len(),
        ) + Sfixed64Codec::width() * values@.len(),
        valid_tag(tag) ==> r == spec_fixed_packed::<Sfixed64Codec>(tag, values@).len(),
{
    encoded_len_packed_fixed::<Sfixed64Codec>(tag, values)
}

} // verus!
