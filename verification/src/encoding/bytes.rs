//! The codec of the `bytes` field type; decoded bytes are copied into an
//! arena.
use vstd::prelude::*;

use crate::arena::Arena;
use crate::encoding::{
    decode_length_delimited, encode_length_delimited, key_len, spec_decode_length_delimited,
    spec_length_delimited, valid_tag, DecodeContext,
};
use crate::error::DecodeError;
use crate::scalar::{lemma_key_len, spec_key_len};
use crate::varint::{encoded_len_varint, spec_varint_len};
use crate::wire_type::{check_wire_type, WireType};

verus! {

/// Appends a `bytes` field.
pub fn encode(tag: u32, value: &[u8], buf: &mut Vec<u8>)
    requires
        valid_tag(tag),
    ensures
        final(buf)@ == old(buf)@ + spec_length_delimited(tag, value@),
{
    encode_length_delimited(tag, value, buf)
}

/// Decodes a `bytes` field and copies it into the arena.
///
/// Fails, leaving `buf` as it was, on another wire type, a malformed length,
/// or a length past the end of the buffer.
pub fn merge_arena<'arena>(
    wire_type: WireType,
    buf: &mut &[u8],
    arena: &'arena Arena,
    ctx: DecodeContext,
) -> (r: Result<&'arena [u8], DecodeError>)
    ensures
        wire_type != WireType::LengthDelimited ==> r == Err::<&[u8], DecodeError>(
            DecodeError::WireTypeMismatch { expected: WireType::LengthDelimited, actual: wire_type },
        ) && final(buf)@ == old(buf)@,
        wire_type == WireType::LengthDelimited ==> match spec_decode_length_delimited(old(buf)@) {
            Ok((data, n)) => r matches Ok(b) && b@ == data && final(buf)@ == old(buf)@.skip(
                n as int,
            ),
            Err(e) => r == Err::<&[u8], DecodeError>(e) && final(buf)@ == old(buf)@,
        },
{
    match check_wire_type(WireType::LengthDelimited, wire_type) {
        Ok(()) => {},
        Err(e) => return Err(e),
    }
    let data = match decode_length_delimited(buf) {
        Ok(d) => d,
        Err(e) => return Err(e),
    };
    Ok(arena.alloc_bytes(data))
}

/// One `bytes` field per value, one after the other.
pub open spec fn spec_bytes_fields(tag: u32, values: Seq<&[u8]>) -> Seq<u8>
    decreases values.len(),
{
    if values.len() == 0 {
        Seq::empty()
    } else {
        spec_bytes_fields(tag, values.drop_last()) + spec_length_delimited(
            tag,
            values.last()@,
        )
    }
}

/// Appends one `bytes` field per value.
pub fn encode_repeated(tag: u32, values: &[&[u8]], buf: &mut Vec<u8>)
    requires
        valid_tag(tag),
    ensures
        final(buf)@ == old(buf)@ + spec_bytes_fields(tag, values@),
{
    let mut i: usize = 0;
    while i < values.len()
        invariant
            valid_tag(tag),
            i <= values@.len(),
            buf@ == old(buf)@ + spec_bytes_fields(tag, values@.take(i as int)),
        decreases values@.len() - i,
    {
        encode(tag, values[i], buf);
        assert(values@.take(i + 1).drop_last() =~= values@.take(i as int));
        assert(buf@ =~= old(buf)@ + spec_bytes_fields(tag, values@.take(i + 1)));
        i = i + 1;
    }
    assert(values@.take(values@.len() as int) =~= values@);
}

/// Decodes a `bytes` field, copies it into the arena and appends it.
///
/// Fails, leaving `values` and `buf` as they were, as `merge_arena` does.
pub fn merge_repeated_arena<'a>(
    wire_type: WireType,
    values: &mut Vec<&'a [u8]>,
    buf: &mut &[u8],
    arena: &'a Arena,
    ctx: DecodeContext,
) -> (r: Result<(), DecodeError>)
    ensures
        wire_type != WireType::LengthDelimited ==> r == Err::<(), DecodeError>(
            DecodeError::WireTypeMismatch { expected: WireType::LengthDelimited, actual: wire_type },
        ) && final(buf)@ == old(buf)@ && final(values)@ == old(values)@,
        wire_type == WireType::LengthDelimited ==> match spec_decode_length_delimited(old(buf)@) {
            Ok((data, n)) => r is Ok && final(values)@.len() == old(values)@.len() + 1
                && final(values)@.drop_last() == old(values)@ && final(values)@.last()@ == data
                && final(buf)@ == old(buf)@.skip(n as int),
            Err(e) => r == Err::<(), DecodeError>(e) && final(buf)@ == old(buf)@ && final(values)@
                == old(values)@,
        },
{
    match check_wire_type(WireType::LengthDelimited, wire_type) {
        Ok(()) => {},
        Err(e) => return Err(e),
    }
    let value = match merge_arena(wire_type, buf, arena, ctx) {
        Ok(v) => v,
        Err(e) => return Err(e),
    };
    values.push(value);
    assert(values@.drop_last() =~= old(values)@);
    Ok(())
}

/// The number of bytes of a `bytes` field.
pub fn encoded_len(tag: u32, value: &[u8]) -> (r: usize)
    requires
        spec_key_len(tag) + 10 + value@.len() <= usize::MAX,
    ensures
        r == spec_key_len(tag) + spec_varint_len(value@.len()) + value@.len(),
        valid_tag(tag) ==> r == spec_length_delimited(tag, value@).len(),
{
    proof {
        if valid_tag(tag) {
            lemma_key_len(tag, WireType::LengthDelimited);
        }
    }
    key_len(tag) + encoded_len_varint(value.len() as u64) + value.len()
}

/// The number of bytes of the values and their length prefixes, without keys.
pub open spec fn spec_bytes_bodies_len(values: Seq<&[u8]>) -> nat
    decreases values.len(),
{
    if values.len() == 0 {
        0
    } else {
        spec_bytes_bodies_len(values.drop_last()) + spec_varint_len(
            values.last()@.len(),
        ) + values.last()@.len()
    }
}

/// The fields of the values take a key each and their bodies.
pub proof fn lemma_bytes_fields_len(tag: u32, values: Seq<&[u8]>)
    requires
        valid_tag(tag),
    ensures
        spec_bytes_fields(tag, values).len() == spec_key_len(tag) * values.len()
            + spec_bytes_bodies_len(values),
    decreases values.len(),
{
    lemma_key_len(tag, WireType::LengthDelimited);
    if values.len() > 0 {
        lemma_bytes_fields_len(tag, values.drop_last());
        vstd::arithmetic::mul::lemma_mul_is_distributive_sub(
            spec_key_len(tag) as int, values.len() as int, 1);
    }
}

/// The bodies of a prefix take no more bytes than the bodies of the whole.
proof fn lemma_bytes_bodies_prefix(values: Seq<&[u8]>, i: int)
    requires
        0 <= i <= values.len(),
    ensures
        spec_bytes_bodies_len(values.take(i)) <= spec_bytes_bodies_len(values),
    decreases values.len() - i,
{
    if i < values.len() {
        lemma_bytes_bodies_prefix(values, i + 1);
        assert(values.take(i + 1).drop_last() =~= values.take(i));
    } else {
        assert(values.take(i) =~= values);
    }
}

/// The number of bytes of one `bytes` field per value.
pub fn encoded_len_repeated(tag: u32, values: &[&[u8]]) -> (r: usize)
    requires
        spec_key_len(tag) * values@.len() + spec_bytes_bodies_len(values@) <= usize::MAX,
    ensures
        r == spec_key_len(tag) * values@.len() + spec_bytes_bodies_len(values@),
        valid_tag(tag) ==> r == spec_bytes_fields(tag, values@).len(),
{
    proof {
        if valid_tag(tag) {
            lemma_bytes_fields_len(tag, values@);
        }
        vstd::arithmetic::mul::lemma_mul_nonnegative(spec_key_len(tag) as int, values@.len() as int);
    }
    let k = key_len(tag);
    let n = values.len();
    assert(k * n <= usize::MAX);
    let mut total: usize = k * n;
    let mut i: usize = 0;
    while i < values.len()
        invariant
            i <= values@.len(),
            k * n + spec_bytes_bodies_len(values@) <= usize::MAX,
            total == k * n + spec_bytes_bodies_len(values@.take(i as int)),
        decreases values@.len() - i,
    {
        proof {
            lemma_bytes_bodies_prefix(values@, i + 1);
            assert(values@.take(i + 1).drop_last() =~= values@.take(i as int));
        }
        let len = values[i].len();
        total = total + encoded_len_varint(len as u64) + len;
        i = i + 1;
    }
    assert(values@.take(values@.len() as int) =~= values@);
    total
}

} // verus!
