//! The codec of the `sint64` field type.
use vstd::prelude::*;

use crate::encoding::{valid_tag, DecodeContext};
use crate::error::DecodeError;
use crate::scalar::{
    encode_packed_varint, encode_repeated_varint, encode_varint_field,
    encoded_len_packed_varint, encoded_len_repeated_varint, encoded_len_varint_field,
    merge_repeated_varint, merge_varint_field, spec_decode_packed_varints, spec_key_len,
    spec_varint_field, spec_varint_fields, spec_varint_packed, spec_varint_payload, Sint64Codec,
    VarintScalar,
};
use crate::varint::{spec_decode_varint, spec_varint_len};
use crate::wire_type::WireType;

verus! {

/// Appends a `sint64` field.
pub fn encode(tag: u32, value: &i64, buf: &mut Vec<u8>)
    requires
        valid_tag(tag),
    ensures
        final(buf)@ == old(buf)@ + spec_varint_field::<Sint64Codec>(tag, *value),
{
    encode_varint_field::<Sint64Codec>(tag, value, buf)
}

/// Decodes the value of a `sint64` field into `value`.
///
/// Fails, leaving `value` and `buf` as they were, on a wire type other than
/// `Varint` or a malformed varint.
pub fn merge(wire_type: WireType, value: &mut i64, buf: &mut &[u8], ctx: DecodeContext) -> (r: Result<
    (),
    DecodeError,
>)
    ensures
        wire_type != WireType::Varint ==> r == Err::<(), DecodeError>(
            DecodeError::WireTypeMismatch { expected: WireType::Varint, actual: wire_type },
        ) && *final(value) == *old(value) && final(buf)@ == old(buf)@,
        wire_type == WireType::Varint ==> match spec_decode_varint(old(buf)@) {
            Some((w, n)) => r is Ok && *final(value) == Sint64Codec::spec_from_wire(w) && final(buf)@
                == old(buf)@.skip(n as int),
            None => r == Err::<(), DecodeError>(DecodeError::InvalidVarint) && *final(value)
                == *old(value) && final(buf)@ == old(buf)@,
        },
{
    merge_varint_field::<Sint64Codec>(wire_type, value, buf, ctx)
}

/// Appends one `sint64` field per value.
pub fn encode_repeated(tag: u32, values: &[i64], buf: &mut Vec<u8>)
    requires
        valid_tag(tag),
    ensures
        final(buf)@ == old(buf)@ + spec_varint_fields::<Sint64Codec>(tag, values@),
{
    encode_repeated_varint::<Sint64Codec>(tag, values, buf)
}

/// Appends a packed repeated `sint64` field; nothing for no values.
pub fn encode_packed(tag: u32, values: &[i64], buf: &mut Vec<u8>)
    requires
        valid_tag(tag),
        spec_varint_payload::<Sint64Codec>(values@).len() <= usize::MAX,
    ensures
        final(buf)@ == old(buf)@ + spec_varint_packed::<Sint64Codec>(tag, values@),
{
    encode_packed_varint::<Sint64Codec>(tag, values, buf)
}

/// Decodes a repeated `sint64` field, packed or not, and appends its values.
///
/// Fails, leaving `values` and `buf` as they were, as `merge` does, on a
/// malformed or overlong packed length, or a varint past the packed length.
pub fn merge_repeated(
    wire_type: WireType,
    values: &mut Vec<i64>,
    buf: &mut &[u8],
    ctx: DecodeContext,
) -> (r: Result<(), DecodeError>)
    ensures
        wire_type == WireType::LengthDelimited ==> match spec_decode_packed_varints::<Sint64Codec>(
            old(buf)@,
        ) {
            Ok((vs, n)) => r is Ok && final(values)@ == old(values)@ + vs && final(buf)@ == old(buf)@.skip(n as int),
            Err(e) => r == Err::<(), DecodeError>(e) && final(values)@ == old(values)@ && final(buf)@ == old(buf)@,
        },
        wire_type != WireType::LengthDelimited && wire_type != WireType::Varint ==> r == Err::<
            (),
            DecodeError,
        >(DecodeError::WireTypeMismatch { expected: WireType::Varint, actual: wire_type })
            && final(values)@ == old(values)@ && final(buf)@ == old(buf)@,
        wire_type == WireType::Varint ==> match spec_decode_varint(old(buf)@) {
            Some((w, n)) => r is Ok && final(values)@ == old(values)@.push(Sint64Codec::spec_from_wire(w))
                && final(buf)@ == old(buf)@.skip(n as int),
            None => r == Err::<(), DecodeError>(DecodeError::InvalidVarint) && final(values)@
                == old(values)@ && final(buf)@ == old(buf)@,
        },
{
    merge_repeated_varint::<Sint64Codec>(wire_type, values, buf, ctx)
}

/// The number of bytes of a `sint64` field.
pub fn encoded_len(tag: u32, value: &i64) -> (r: usize)
    ensures
        r <= 20,
        r == spec_key_len(tag) + spec_varint_len(Sint64Codec::spec_to_wire(*value) as nat),
        valid_tag(tag) ==> r == spec_varint_field::<Sint64Codec>(tag, *value).len(),
{
    encoded_len_varint_field::<Sint64Codec>(tag, value)
}

/// The number of bytes of one `sint64` field per value.
pub fn encoded_len_repeated(tag: u32, values: &[i64]) -> (r: usize)
    requires
        spec_key_len(tag) * values@.len() + spec_varint_payload::<Sint64Codec>(values@).len() <= usize::MAX,
    ensures
        r == spec_key_len(tag) * values@.len() + spec_varint_payload::<Sint64Codec>(values@).len(),
        valid_tag(tag) ==> r == spec_varint_fields::<Sint64Codec>(tag, values@).len(),
{
    encoded_len_repeated_varint::<Sint64Codec>(tag, values)
}

/// The number of bytes of a packed repeated `sint64` field; 0 for no values.
pub fn encoded_len_packed(tag: u32, values: &[i64]) -> (r: usize)
    requires
        spec_key_len(tag) + 10 + spec_varint_payload::<Sint64Codec>(values@).len() <= usize::MAX,
    ensures
        values@.len() == 0 ==> r == 0,
        values@.len() > 0 ==> r == spec_key_len(tag) + spec_varint_len(
            spec_varint_payload::<Sint64Codec>(values@).len(),
        ) + spec_varint_payload::<Sint64Codec>(values@).len(),
        valid_tag(tag) ==> r == spec_varint_packed::<Sint64Codec>(tag, values@).len(),
{
    encoded_len_packed_varint::<Sint64Codec>(tag, values)
}

} // verus!
