//! The codecs of the numeric field types: the varint-encoded ones (`bool`,
//! `int32`, `int64`, `uint32`, `uint64`, `sint32`, `sint64`) and the
//! fixed-width ones (`fixed32`, `fixed64`, `sfixed32`, `sfixed64`).
//!
//! Each field type is a marker type that implements [`VarintScalar`] or
//! [`FixedScalar`]; the generic functions here hold the logic, and the
//! modules named after the field types expose it per type.
use vstd::prelude::*;

use crate::buf::{
    get_u32_le, get_u64_le, lemma_le_roundtrip, lemma_le_value_bound, lemma_pow256_values, pow256,
    put_u32_le, put_u64_le, spec_le_bytes, spec_le_value,
};
use crate::encoding::{
    encode_key, key_len, lemma_decode_encode_key, lemma_decode_key_bounds, spec_decode_key,
    spec_encode_key, spec_key, valid_tag, DecodeContext,
};
use crate::error::DecodeError;
use crate::varint::{
    decode_varint, encode_varint, encoded_len_varint, lemma_decode_encode_varint,
    lemma_decode_varint_bounds, lemma_varint_len_step, spec_decode_varint, spec_varint,
    spec_varint_len,
};
use crate::wire_type::{check_wire_type, wire_type_value, WireType};

verus! {

/// A field type whose values are encoded as a varint of a 64-bit wire value.
pub trait VarintScalar {
    /// The Rust type of the field's values.
    type Value: Copy;

    /// The 64-bit number that encodes a value.
    spec fn spec_to_wire(v: Self::Value) -> u64;

    /// The value that a 64-bit number decodes to.
    spec fn spec_from_wire(w: u64) -> Self::Value;

    /// The 64-bit number that encodes a value.
    fn to_wire(v: &Self::Value) -> (r: u64)
        ensures
            r == Self::spec_to_wire(*v),
    ;

    /// The value that a 64-bit number decodes to.
    fn from_wire(w: u64) -> (r: Self::Value)
        ensures
            r == Self::spec_from_wire(w),
    ;

    /// Decoding the wire number of a value gives the value back.
    proof fn lemma_wire_roundtrip(v: Self::Value)
        ensures
            Self::spec_from_wire(Self::spec_to_wire(v)) == v,
    ;
}

/// The length of the key of a field with the given tag, as `key_len`
/// computes it.
pub open spec fn spec_key_len(tag: u32) -> nat {
    spec_varint_len((tag as nat * 8) % 0x1_0000_0000)
}

/// Adding less than eight to a multiple of eight does not change the length
/// of its varint.
pub proof fn lemma_varint_len_low_bits(x: nat, w: nat)
    requires
        x % 8 == 0,
        w < 8,
    ensures
        spec_varint_len(x + w) == spec_varint_len(x),
    decreases x,
{
    lemma_varint_len_step(x);
    lemma_varint_len_step(x + w);
    if x + w >= 128 {
        assert(x >= 128);
        assert((x + w) / 128 == x / 128);
    }
}

/// For a tag in range, `key_len` is the length of the key whatever the wire
/// type.
pub proof fn lemma_key_len(tag: u32, wt: WireType)
    requires
        valid_tag(tag),
    ensures
        spec_key_len(tag) == spec_encode_key(tag, wt).len(),
{
    assert((tag as nat * 8) % 0x1_0000_0000 == tag as nat * 8);
    lemma_varint_len_low_bits(tag as nat * 8, wire_type_value(wt));
}

/// The bytes of a field of a varint type: its key and the varint of its
/// wire number.
pub open spec fn spec_varint_field<K: VarintScalar>(tag: u32, v: K::Value) -> Seq<u8> {
    spec_encode_key(tag, WireType::Varint) + spec_varint(K::spec_to_wire(v) as nat)
}

/// The varints of the wire numbers of `vals`, one after the other.
pub open spec fn spec_varint_payload<K: VarintScalar>(vals: Seq<K::Value>) -> Seq<u8>
    decreases vals.len(),
{
    if vals.len() == 0 {
        Seq::empty()
    } else {
        spec_varint_payload::<K>(vals.drop_last()) + spec_varint(
            K::spec_to_wire(vals.last()) as nat,
        )
    }
}

/// One field per value, one after the other.
pub open spec fn spec_varint_fields<K: VarintScalar>(tag: u32, vals: Seq<K::Value>) -> Seq<u8>
    decreases vals.len(),
{
    if vals.len() == 0 {
        Seq::empty()
    } else {
        spec_varint_fields::<K>(tag, vals.drop_last()) + spec_varint_field::<K>(tag, vals.last())
    }
}

/// A packed repeated field: nothing for no values, otherwise one
/// length-delimited field that holds the varints of all values.
pub open spec fn spec_varint_packed<K: VarintScalar>(tag: u32, vals: Seq<K::Value>) -> Seq<u8> {
    if vals.len() == 0 {
        Seq::empty()
    } else {
        spec_encode_key(tag, WireType::LengthDelimited) + spec_varint(
            spec_varint_payload::<K>(vals).len(),
        ) + spec_varint_payload::<K>(vals)
    }
}

/// Decodes varints from the front of `s` while more than `limit` bytes are
/// left; the values and the bytes consumed, or the error met. Reading past
/// the limit is an error.
pub open spec fn spec_decode_varints<K: VarintScalar>(s: Seq<u8>, limit: nat) -> Result<
    (Seq<K::Value>, nat),
    DecodeError,
>
    decreases s.len(),
{
    if s.len() <= limit {
        if s.len() == limit {
            Ok((Seq::empty(), 0))
        } else {
            Err(DecodeError::DelimitedLengthExceeded)
        }
    } else {
        match spec_decode_varint(s) {
            None => Err(DecodeError::InvalidVarint),
            Some((w, n)) => if n == 0 || n > s.len() {
                Err(DecodeError::InvalidVarint)
            } else {
                match spec_decode_varints::<K>(s.skip(n as int), limit) {
                    Ok((vs, m)) => Ok((seq![K::spec_from_wire(w)] + vs, n + m)),
                    Err(e) => Err(e),
                }
            },
        }
    }
}

/// Decodes the body of a packed field at the front of `s`: a length prefix,
/// then varints filling exactly that length.
pub open spec fn spec_decode_packed_varints<K: VarintScalar>(s: Seq<u8>) -> Result<
    (Seq<K::Value>, nat),
    DecodeError,
> {
    match spec_decode_varint(s) {
        None => Err(DecodeError::InvalidVarint),
        Some((len, n)) => if len > s.len() - n {
            Err(DecodeError::BufferUnderflow)
        } else {
            match spec_decode_varints::<K>(s.skip(n as int), (s.len() - n - len) as nat) {
                Ok((vs, m)) => Ok((vs, n + m)),
                Err(e) => Err(e),
            }
        },
    }
}

/// The bytes consumed by a successful decode are within the buffer.
pub proof fn lemma_decode_varints_bounds<K: VarintScalar>(s: Seq<u8>, limit: nat)
    ensures
        spec_decode_varints::<K>(s, limit) matches Ok((vs, m)) ==> m <= s.len() && m == s.len()
            - limit,
    decreases s.len(),
{
    if s.len() > limit {
        if let Some((w, n)) = spec_decode_varint(s) {
            if n > 0 && n <= s.len() {
                lemma_decode_varints_bounds::<K>(s.skip(n as int), limit);
            }
        }
    }
}

/// Appends a field of a varint type.
pub fn encode_varint_field<K: VarintScalar>(tag: u32, value: &K::Value, buf: &mut Vec<u8>)
    requires
        valid_tag(tag),
    ensures
        final(buf)@ == old(buf)@ + spec_varint_field::<K>(tag, *value),
{
    encode_key(tag, WireType::Varint, buf);
    encode_varint(K::to_wire(value), buf);
    assert(final(buf)@ =~= old(buf)@ + spec_varint_field::<K>(tag, *value));
}

/// Decodes the value of a field of a varint type into `value`.
///
/// Fails, leaving `value` and `buf` as they were, when the field does not have
/// the varint wire type or its varint is malformed.
pub fn merge_varint_field<K: VarintScalar>(
    wire_type: WireType,
    value: &mut K::Value,
    buf: &mut &[u8],
    ctx: DecodeContext,
) -> (r: Result<(), DecodeError>)
    ensures
        wire_type != WireType::Varint ==> r == Err::<(), DecodeError>(
            DecodeError::WireTypeMismatch { expected: WireType::Varint, actual: wire_type },
        ) && *final(value) == *old(value) && final(buf)@ == old(buf)@,
        wire_type == WireType::Varint ==> match spec_decode_varint(old(buf)@) {
            Some((w, n)) => r is Ok && *final(value) == K::spec_from_wire(w) && final(buf)@ == old(buf)@.skip(n as int),
            None => r == Err::<(), DecodeError>(DecodeError::InvalidVarint) && *final(value)
                == *old(value) && final(buf)@ == old(buf)@,
        },
{
    match check_wire_type(WireType::Varint, wire_type) {
        Ok(()) => {},
        Err(e) => return Err(e),
    }
    let w = match decode_varint(buf) {
        Ok(w) => w,
        Err(e) => return Err(e),
    };
    *value = K::from_wire(w);
    Ok(())
}

/// The number of bytes in a field of a varint type.
pub fn encoded_len_varint_field<K: VarintScalar>(tag: u32, value: &K::Value) -> (r: usize)
    ensures
        r <= 20,
        r == spec_key_len(tag) + spec_varint_len(K::spec_to_wire(*value) as nat),
        valid_tag(tag) ==> r == spec_varint_field::<K>(tag, *value).len(),
{
    proof {
        if valid_tag(tag) {
            lemma_key_len(tag, WireType::Varint);
        }
    }
    key_len(tag) + encoded_len_varint(K::to_wire(value))
}

/// Appends one field per value.
pub fn encode_repeated_varint<K: VarintScalar>(tag: u32, values: &[K::Value], buf: &mut Vec<u8>)
    requires
        valid_tag(tag),
    ensures
        final(buf)@ == old(buf)@ + spec_varint_fields::<K>(tag, values@),
{
    let mut i: usize = 0;
    while i < values.len()
        invariant
            valid_tag(tag),
            i <= values@.len(),
            buf@ == old(buf)@ + spec_varint_fields::<K>(tag, values@.take(i as int)),
        decreases values@.len() - i,
    {
        let ghost before = buf@;
        encode_varint_field::<K>(tag, &values[i], buf);
        assert(values@.take(i + 1).drop_last() =~= values@.take(i as int));
        assert(buf@ =~= old(buf)@ + spec_varint_fields::<K>(tag, values@.take(i + 1)));
        i = i + 1;
    }
    assert(values@.take(values@.len() as int) =~= values@);
}

/// The number of bytes of the varints of `values`, with a requirement that
/// it fits in `usize`.
fn varint_payload_len<K: VarintScalar>(values: &[K::Value]) -> (r: usize)
    requires
        spec_varint_payload::<K>(values@).len() <= usize::MAX,
    ensures
        r == spec_varint_payload::<K>(values@).len(),
{
    let mut total: usize = 0;
    let mut i: usize = 0;
    proof {
        lemma_varint_payload_prefix_len::<K>(values@, values@.len());
        assert(values@.take(values@.len() as int) =~= values@);
    }
    while i < values.len()
        invariant
            i <= values@.len(),
            total == spec_varint_payload::<K>(values@.take(i as int)).len(),
            spec_varint_payload::<K>(values@).len() <= usize::MAX,
            forall|j: nat|
                j <= values@.len() ==> #[trigger] spec_varint_payload::<K>(values@.take(j as int)).len()
                    <= spec_varint_payload::<K>(values@).len(),
        decreases values@.len() - i,
    {
        assert(values@.take(i + 1).drop_last() =~= values@.take(i as int));
        assert(values@.take(i + 1).last() == values@[i as int]);
        let ghost next = spec_varint_payload::<K>(values@.take(i + 1)).len();
        assert(next <= usize::MAX);
        total = total + encoded_len_varint(K::to_wire(&values[i]));
        i = i + 1;
    }
    assert(values@.take(values@.len() as int) =~= values@);
    total
}

/// The payload of a prefix is no longer than the payload of the whole.
pub proof fn lemma_varint_payload_prefix_len<K: VarintScalar>(vals: Seq<K::Value>, k: nat)
    requires
        k <= vals.len(),
    ensures
        forall|j: nat|
            j <= k ==> #[trigger] spec_varint_payload::<K>(vals.take(j as int)).len()
                <= spec_varint_payload::<K>(vals.take(k as int)).len(),
    decreases k,
{
    if k > 0 {
        lemma_varint_payload_prefix_len::<K>(vals, (k - 1) as nat);
        assert(vals.take(k as int).drop_last() =~= vals.take(k - 1));
    }
    assert forall|j: nat| j <= k implies #[trigger] spec_varint_payload::<K>(
        vals.take(j as int),
    ).len() <= spec_varint_payload::<K>(vals.take(k as int)).len() by {
        if j == k {
        } else {
            assert(vals.take(k as int).drop_last() =~= vals.take(k - 1));
        }
    }
}

/// The payload of a sequence with one more value ends with that value's
/// varint.
pub proof fn lemma_varint_payload_push<K: VarintScalar>(vals: Seq<K::Value>, i: int)
    requires
        0 <= i < vals.len(),
    ensures
        spec_varint_payload::<K>(vals.take(i + 1)) == spec_varint_payload::<K>(vals.take(i))
            + spec_varint(K::spec_to_wire(vals[i]) as nat),
{
    assert(vals.take(i + 1).drop_last() =~= vals.take(i));
}

/// Appends a packed repeated field: nothing for no values, otherwise one
/// length-delimited field holding the varints of all values.
pub fn encode_packed_varint<K: VarintScalar>(tag: u32, values: &[K::Value], buf: &mut Vec<u8>)
    requires
        valid_tag(tag),
        spec_varint_payload::<K>(values@).len() <= usize::MAX,
    ensures
        final(buf)@ == old(buf)@ + spec_varint_packed::<K>(tag, values@),
{
    if values.len() == 0 {
        assert(old(buf)@ + spec_varint_packed::<K>(tag, values@) =~= old(buf)@);
        return;
    }
    encode_key(tag, WireType::LengthDelimited, buf);
    let len = varint_payload_len::<K>(values);
    encode_varint(len as u64, buf);
    let ghost head = buf@;
    let mut i: usize = 0;
    while i < values.len()
        invariant
            i <= values@.len(),
            buf@ == head + spec_varint_payload::<K>(values@.take(i as int)),
        decreases values@.len() - i,
    {
        proof {
            lemma_varint_payload_push::<K>(values@, i as int);
        }
        encode_varint(K::to_wire(&values[i]), buf);
        assert(buf@ =~= head + spec_varint_payload::<K>(values@.take(i + 1)));
        i = i + 1;
    }
    assert(values@.take(values@.len() as int) =~= values@);
    assert(buf@ =~= old(buf)@ + spec_varint_packed::<K>(tag, values@));
}

/// Decodes a repeated field of a varint type and appends its values: a
/// packed run for the length-delimited wire type, one value for the varint
/// wire type.
///
/// Fails, leaving `values` and `buf` as they were, on any other wire type, a
/// malformed varint or length, a length past the end of the buffer, or a
/// varint that runs past the packed length.
#[verifier::rlimit(40)]
pub fn merge_repeated_varint<K: VarintScalar>(
    wire_type: WireType,
    values: &mut Vec<K::Value>,
    buf: &mut &[u8],
    ctx: DecodeContext,
) -> (r: Result<(), DecodeError>)
    ensures
        wire_type == WireType::LengthDelimited ==> match spec_decode_packed_varints::<K>(
            old(buf)@,
        ) {
            Ok((vs, n)) => r is Ok && final(values)@ == old(values)@ + vs && final(buf)@ == old(buf)@.skip(n as int),
            Err(e) => r == Err::<(), DecodeError>(e) && final(values)@ == old(values)@ && final(buf)@ == old(buf)@,
        },
        wire_type != WireType::LengthDelimited && wire_type != WireType::Varint ==> r == Err::<
            (),
            DecodeError,
        >(DecodeError::WireTypeMismatch { expected: WireType::Varint, actual: wire_type })
            && final(values)@ == old(values)@ && final(buf)@ == old(buf)@,
        wire_type == WireType::Varint ==> match spec_decode_varint(old(buf)@) {
            Some((w, n)) => r is Ok && final(values)@ == old(values)@.push(K::spec_from_wire(w))
                && final(buf)@ == old(buf)@.skip(n as int),
            None => r == Err::<(), DecodeError>(DecodeError::InvalidVarint) && final(values)@
                == old(values)@ && final(buf)@ == old(buf)@,
        },
{
    if wire_type == WireType::LengthDelimited {
        let ghost s0 = buf@;
        let start: &[u8] = *buf;
        let mut cur: &[u8] = start;
        proof {
            lemma_decode_varint_bounds(s0);
        }
        let len = match decode_varint(&mut cur) {
            Ok(l) => l,
            Err(e) => return Err(e),
        };
        let remaining = cur.len();
        if len > remaining as u64 {
            return Err(DecodeError::BufferUnderflow);
        }
        let limit = remaining - len as usize;
        let ghost s1 = cur@;
        let mut decoded: Vec<K::Value> = Vec::new();
        assert(cur@ == s1.skip(0));
        while cur.len() > limit
            invariant
                wire_type == WireType::LengthDelimited,
                s0 == old(buf)@,
                buf@ == old(buf)@,
                values@ == old(values)@,
                s1.len() <= s0.len(),
                s1 == s0.skip(s0.len() - s1.len()),
                spec_decode_varint(s0) == Some((len, (s0.len() - s1.len()) as nat)),
                limit == s1.len() - len,
                limit <= s1.len(),
                cur@.len() <= s1.len(),
                cur@ == s1.skip(s1.len() - cur@.len()),
                spec_decode_varints::<K>(s1, limit as nat) == match spec_decode_varints::<K>(
                    cur@,
                    limit as nat,
                ) {
                    Ok((vs, m)) => Ok::<(Seq<K::Value>, nat), DecodeError>(
                        (decoded@ + vs, ((s1.len() - cur@.len()) + m) as nat),
                    ),
                    Err(e) => Err(e),
                },
            decreases cur@.len(),
        {
            let ghost c0 = cur@;
            proof {
                lemma_decode_varint_bounds(c0);
            }
            let w = match decode_varint(&mut cur) {
                Ok(w) => w,
                Err(e) => return Err(e),
            };
            let ghost d0 = decoded@;
            decoded.push(K::from_wire(w));
            proof {
                assert(cur@ =~= s1.skip(s1.len() - cur@.len()));
                let n = (c0.len() - cur@.len()) as nat;
                assert(c0.skip(n as int) =~= cur@);
                if let Ok((vs, m)) = spec_decode_varints::<K>(cur@, limit as nat) {
                    assert(d0 + (seq![K::spec_from_wire(w)] + vs) =~= decoded@ + vs);
                }
            }
        }
        if cur.len() != limit {
            return Err(DecodeError::DelimitedLengthExceeded);
        }
        assert(decoded@ + Seq::<K::Value>::empty() =~= decoded@);
        values.append(&mut decoded);
        *buf = cur;
        assert(cur@ =~= s0.skip((s0.len() - cur@.len()) as int));
        Ok(())
    } else {
        match check_wire_type(WireType::Varint, wire_type) {
            Ok(()) => {},
            Err(e) => return Err(e),
        }
        let w = match decode_varint(buf) {
            Ok(w) => w,
            Err(e) => return Err(e),
        };
        values.push(K::from_wire(w));
        Ok(())
    }
}

/// The fields of `vals` take a key per value and the payload of all values.
pub proof fn lemma_varint_fields_len<K: VarintScalar>(tag: u32, vals: Seq<K::Value>)
    requires
        valid_tag(tag),
    ensures
        spec_varint_fields::<K>(tag, vals).len() == spec_key_len(tag) * vals.len()
            + spec_varint_payload::<K>(vals).len(),
    decreases vals.len(),
{
    lemma_key_len(tag, WireType::Varint);
    if vals.len() > 0 {
        lemma_varint_fields_len::<K>(tag, vals.drop_last());
        vstd::arithmetic::mul::lemma_mul_is_distributive_sub(
            spec_key_len(tag) as int, vals.len() as int, 1);
    }
}

/// The number of bytes of one field per value.
pub fn encoded_len_repeated_varint<K: VarintScalar>(tag: u32, values: &[K::Value]) -> (r: usize)
    requires
        spec_key_len(tag) * values@.len() + spec_varint_payload::<K>(values@).len() <= usize::MAX,
    ensures
        r == spec_key_len(tag) * values@.len() + spec_varint_payload::<K>(values@).len(),
        valid_tag(tag) ==> r == spec_varint_fields::<K>(tag, values@).len(),
{
    proof {
        if valid_tag(tag) {
            lemma_varint_fields_len::<K>(tag, values@);
        }
        vstd::arithmetic::mul::lemma_mul_nonnegative(spec_key_len(tag) as int, values@.len() as int);
    }
    let k = key_len(tag);
    let n = values.len();
    assert(k * n <= usize::MAX);
    k * n + varint_payload_len::<K>(values)
}

/// The number of bytes of a packed repeated field.
pub fn encoded_len_packed_varint<K: VarintScalar>(tag: u32, values: &[K::Value]) -> (r: usize)
    requires
        spec_key_len(tag) + 10 + spec_varint_payload::<K>(values@).len() <= usize::MAX,
    ensures
        values@.len() == 0 ==> r == 0,
        values@.len() > 0 ==> r == spec_key_len(tag) + spec_varint_len(
            spec_varint_payload::<K>(values@).len(),
        ) + spec_varint_payload::<K>(values@).len(),
        valid_tag(tag) ==> r == spec_varint_packed::<K>(tag, values@).len(),
{
    proof {
        if valid_tag(tag) {
            lemma_key_len(tag, WireType::LengthDelimited);
        }
    }
    if values.len() == 0 {
        0
    } else {
        let len = varint_payload_len::<K>(values);
        key_len(tag) + encoded_len_varint(len as u64) + len
    }
}

/// A field type whose values are encoded as four or eight bytes, least
/// significant first.
pub trait FixedScalar {
    /// The Rust type of the field's values.
    type Value: Copy;

    /// The number of bytes of a value: 4 or 8.
    spec fn width() -> nat;

    /// The wire type of the field: `ThirtyTwoBit` or `SixtyFourBit`.
    spec fn wire_type() -> WireType;

    /// The unsigned number whose bytes encode a value.
    spec fn spec_bits(v: Self::Value) -> nat;

    /// The value that an unsigned number decodes to.
    spec fn spec_from_bits(b: nat) -> Self::Value;

    /// The number of bytes of a value.
    fn fixed_width() -> (r: usize)
        ensures
            r == Self::width(),
            r == 4 || r == 8,
    ;

    /// The wire type of the field.
    fn fixed_wire_type() -> (r: WireType)
        ensures
            r == Self::wire_type(),
            r == WireType::ThirtyTwoBit <==> Self::width() == 4,
            r == WireType::SixtyFourBit <==> Self::width() == 8,
    ;

    /// Appends the bytes of a value.
    fn write_value(v: &Self::Value, buf: &mut Vec<u8>)
        ensures
            final(buf)@ == old(buf)@ + spec_le_bytes(Self::spec_bits(*v), Self::width()),
    ;

    /// Reads a value from the front of `buf` and advances past it.
    fn read_value(buf: &mut &[u8]) -> (r: Self::Value)
        requires
            old(buf)@.len() >= Self::width(),
        ensures
            r == Self::spec_from_bits(spec_le_value(old(buf)@.take(Self::width() as int))),
            final(buf)@ == old(buf)@.skip(Self::width() as int),
    ;

    /// The bytes of a value give it back.
    proof fn lemma_bits_roundtrip(v: Self::Value)
        ensures
            Self::spec_bits(v) < pow256(Self::width()),
            Self::spec_from_bits(Self::spec_bits(v)) == v,
    ;
}

/// The bytes of a field of a fixed-width type: its key and the bytes of the
/// value.
pub open spec fn spec_fixed_field<K: FixedScalar>(tag: u32, v: K::Value) -> Seq<u8> {
    spec_encode_key(tag, K::wire_type()) + spec_le_bytes(K::spec_bits(v), K::width())
}

/// The bytes of the values, one after the other.
pub open spec fn spec_fixed_payload<K: FixedScalar>(vals: Seq<K::Value>) -> Seq<u8>
    decreases vals.len(),
{
    if vals.len() == 0 {
        Seq::empty()
    } else {
        spec_fixed_payload::<K>(vals.drop_last()) + spec_le_bytes(
            K::spec_bits(vals.last()),
            K::width(),
        )
    }
}

/// One field per value, one after the other.
pub open spec fn spec_fixed_fields<K: FixedScalar>(tag: u32, vals: Seq<K::Value>) -> Seq<u8>
    decreases vals.len(),
{
    if vals.len() == 0 {
        Seq::empty()
    } else {
        spec_fixed_fields::<K>(tag, vals.drop_last()) + spec_fixed_field::<K>(tag, vals.last())
    }
}

/// A packed repeated field: nothing for no values, otherwise one
/// length-delimited field holding the bytes of all values.
pub open spec fn spec_fixed_packed<K: FixedScalar>(tag: u32, vals: Seq<K::Value>) -> Seq<u8> {
    if vals.len() == 0 {
        Seq::empty()
    } else {
        spec_encode_key(tag, WireType::LengthDelimited) + spec_varint(
            K::width() * vals.len(),
        ) + spec_fixed_payload::<K>(vals)
    }
}

/// Decodes fixed-width values from the front of `s` while more than `limit`
/// bytes are left; the values and the bytes consumed, or the error met.
pub open spec fn spec_decode_fixeds<K: FixedScalar>(s: Seq<u8>, limit: nat) -> Result<
    (Seq<K::Value>, nat),
    DecodeError,
>
    decreases s.len(),
{
    if s.len() <= limit {
        if s.len() == limit {
            Ok((Seq::empty(), 0))
        } else {
            Err(DecodeError::DelimitedLengthExceeded)
        }
    } else if s.len() < K::width() || K::width() == 0 {
        Err(DecodeError::BufferUnderflow)
    } else {
        match spec_decode_fixeds::<K>(s.skip(K::width() as int), limit) {
            Ok((vs, m)) => Ok(
                (
                    seq![K::spec_from_bits(spec_le_value(s.take(K::width() as int)))] + vs,
                    K::width() + m,
                ),
            ),
            Err(e) => Err(e),
        }
    }
}

/// Decodes the body of a packed field of a fixed-width type at the front of
/// `s`: a length prefix, then values filling exactly that length.
pub open spec fn spec_decode_packed_fixeds<K: FixedScalar>(s: Seq<u8>) -> Result<
    (Seq<K::Value>, nat),
    DecodeError,
> {
    match spec_decode_varint(s) {
        None => Err(DecodeError::InvalidVarint),
        Some((len, n)) => if len > s.len() - n {
            Err(DecodeError::BufferUnderflow)
        } else {
            match spec_decode_fixeds::<K>(s.skip(n as int), (s.len() - n - len) as nat) {
                Ok((vs, m)) => Ok((vs, n + m)),
                Err(e) => Err(e),
            }
        },
    }
}

/// The payload of fixed-width values is `width` bytes per value.
pub proof fn lemma_fixed_payload_len<K: FixedScalar>(vals: Seq<K::Value>)
    requires
        K::width() == 4 || K::width() == 8,
    ensures
        spec_fixed_payload::<K>(vals).len() == K::width() * vals.len(),
    decreases vals.len(),
{
    if vals.len() > 0 {
        lemma_fixed_payload_len::<K>(vals.drop_last());
        K::lemma_bits_roundtrip(vals.last());
        lemma_le_roundtrip(K::spec_bits(vals.last()), K::width());
        vstd::arithmetic::mul::lemma_mul_is_distributive_sub(K::width() as int, vals.len() as int, 1);
    }
}

/// Appends a field of a fixed-width type.
pub fn encode_fixed_field<K: FixedScalar>(tag: u32, value: &K::Value, buf: &mut Vec<u8>)
    requires
        valid_tag(tag),
    ensures
        final(buf)@ == old(buf)@ + spec_fixed_field::<K>(tag, *value),
{
    encode_key(tag, K::fixed_wire_type(), buf);
    K::write_value(value, buf);
    assert(final(buf)@ =~= old(buf)@ + spec_fixed_field::<K>(tag, *value));
}

/// Decodes the value of a field of a fixed-width type into `value`.
///
/// Fails, leaving `value` and `buf` as they were, on another wire type or when
/// fewer bytes than the width are left.
pub fn merge_fixed_field<K: FixedScalar>(
    wire_type: WireType,
    value: &mut K::Value,
    buf: &mut &[u8],
    ctx: DecodeContext,
) -> (r: Result<(), DecodeError>)
    ensures
        wire_type != K::wire_type() ==> r == Err::<(), DecodeError>(
            DecodeError::WireTypeMismatch { expected: K::wire_type(), actual: wire_type },
        ) && *final(value) == *old(value) && final(buf)@ == old(buf)@,
        wire_type == K::wire_type() && old(buf)@.len() < K::width() ==> r == Err::<
            (),
            DecodeError,
        >(DecodeError::BufferUnderflow) && *final(value) == *old(value) && final(buf)@ == old(buf)@,
        wire_type == K::wire_type() && old(buf)@.len() >= K::width() ==> r is Ok && *final(value)
            == K::spec_from_bits(spec_le_value(old(buf)@.take(K::width() as int))) && final(buf)@
            == old(buf)@.skip(K::width() as int),
{
    match check_wire_type(K::fixed_wire_type(), wire_type) {
        Ok(()) => {},
        Err(e) => return Err(e),
    }
    if buf.len() < K::fixed_width() {
        return Err(DecodeError::BufferUnderflow);
    }
    *value = K::read_value(buf);
    Ok(())
}

/// The number of bytes of a field of a fixed-width type.
pub fn encoded_len_fixed_field<K: FixedScalar>(tag: u32, value: &K::Value) -> (r: usize)
    ensures
        r <= 20,
        r == spec_key_len(tag) + K::width(),
        valid_tag(tag) ==> r == spec_fixed_field::<K>(tag, *value).len(),
{
    proof {
        if valid_tag(tag) {
            lemma_key_len(tag, K::wire_type());
        }
        K::lemma_bits_roundtrip(*value);
        lemma_le_roundtrip(K::spec_bits(*value), K::width());
    }
    key_len(tag) + K::fixed_width()
}

/// Appends one field per value.
pub fn encode_repeated_fixed<K: FixedScalar>(tag: u32, values: &[K::Value], buf: &mut Vec<u8>)
    requires
        valid_tag(tag),
    ensures
        final(buf)@ == old(buf)@ + spec_fixed_fields::<K>(tag, values@),
{
    let mut i: usize = 0;
    while i < values.len()
        invariant
            valid_tag(tag),
            i <= values@.len(),
            buf@ == old(buf)@ + spec_fixed_fields::<K>(tag, values@.take(i as int)),
        decreases values@.len() - i,
    {
        encode_fixed_field::<K>(tag, &values[i], buf);
        assert(values@.take(i + 1).drop_last() =~= values@.take(i as int));
        assert(buf@ =~= old(buf)@ + spec_fixed_fields::<K>(tag, values@.take(i + 1)));
        i = i + 1;
    }
    assert(values@.take(values@.len() as int) =~= values@);
}

/// Appends a packed repeated field of a fixed-width type.
pub fn encode_packed_fixed<K: FixedScalar>(tag: u32, values: &[K::Value], buf: &mut Vec<u8>)
    requires
        valid_tag(tag),
        K::width() * values@.len() <= u64::MAX,
    ensures
        final(buf)@ == old(buf)@ + spec_fixed_packed::<K>(tag, values@),
{
    if values.len() == 0 {
        assert(old(buf)@ + spec_fixed_packed::<K>(tag, values@) =~= old(buf)@);
        return;
    }
    encode_key(tag, WireType::LengthDelimited, buf);
    let width = K::fixed_width();
    let len = width as u64 * values.len() as u64;
    encode_varint(len, buf);
    let ghost head = buf@;
    let mut i: usize = 0;
    while i < values.len()
        invariant
            i <= values@.len(),
            buf@ == head + spec_fixed_payload::<K>(values@.take(i as int)),
        decreases values@.len() - i,
    {
        K::write_value(&values[i], buf);
        assert(values@.take(i + 1).drop_last() =~= values@.take(i as int));
        assert(buf@ =~= head + spec_fixed_payload::<K>(values@.take(i + 1)));
        i = i + 1;
    }
    assert(values@.take(values@.len() as int) =~= values@);
    assert(buf@ =~= old(buf)@ + spec_fixed_packed::<K>(tag, values@));
}

/// The number of bytes of one field per value.
pub fn encoded_len_repeated_fixed<K: FixedScalar>(tag: u32, values: &[K::Value]) -> (r: usize)
    requires
        (spec_key_len(tag) + K::width()) * values@.len() <= usize::MAX,
    ensures
        r == (spec_key_len(tag) + K::width()) * values@.len(),
        valid_tag(tag) ==> r == spec_fixed_fields::<K>(tag, values@).len(),
{
    proof {
        if valid_tag(tag) {
            lemma_fixed_fields_len::<K>(tag, values@);
        }
    }
    (key_len(tag) + K::fixed_width()) * values.len()
}

/// Fields of a fixed-width type take a key and `width` bytes per value.
pub proof fn lemma_fixed_fields_len<K: FixedScalar>(tag: u32, vals: Seq<K::Value>)
    requires
        valid_tag(tag),
    ensures
        spec_fixed_fields::<K>(tag, vals).len() == (spec_key_len(tag) + K::width()) * vals.len(),
    decreases vals.len(),
{
    lemma_key_len(tag, K::wire_type());
    if vals.len() > 0 {
        lemma_fixed_fields_len::<K>(tag, vals.drop_last());
        K::lemma_bits_roundtrip(vals.last());
        lemma_le_roundtrip(K::spec_bits(vals.last()), K::width());
        vstd::arithmetic::mul::lemma_mul_is_distributive_sub(
            (spec_key_len(tag) + K::width()) as int, vals.len() as int, 1);
    }
}

/// The number of bytes of a packed repeated field of a fixed-width type.
pub fn encoded_len_packed_fixed<K: FixedScalar>(tag: u32, values: &[K::Value]) -> (r: usize)
    requires
        spec_key_len(tag) + 10 + K::width() * values@.len() <= usize::MAX,
    ensures
        values@.len() == 0 ==> r == 0,
        values@.len() > 0 ==> r == spec_key_len(tag) + spec_varint_len(K::width() * values@.len())
            + K::width() * values@.len(),
        valid_tag(tag) ==> r == spec_fixed_packed::<K>(tag, values@).len(),
{
    let width = K::fixed_width();
    proof {
        if valid_tag(tag) {
            lemma_key_len(tag, WireType::LengthDelimited);
        }
        lemma_fixed_payload_len::<K>(values@);
    }
    if values.len() == 0 {
        0
    } else {
        let len = width * values.len();
        key_len(tag) + encoded_len_varint(len as u64) + len
    }
}

/// Decodes a repeated field of a fixed-width type and appends its values: a
/// packed run for the length-delimited wire type, one value for the type's
/// own wire type.
///
/// Fails, leaving `values` and `buf` as they were, on any other wire type, a
/// malformed length, too few bytes, or a value that runs past the packed
/// length.
#[verifier::rlimit(40)]
pub fn merge_repeated_fixed<K: FixedScalar>(
    wire_type: WireType,
    values: &mut Vec<K::Value>,
    buf: &mut &[u8],
    ctx: DecodeContext,
) -> (r: Result<(), DecodeError>)
    ensures
        wire_type == WireType::LengthDelimited ==> match spec_decode_packed_fixeds::<K>(
            old(buf)@,
        ) {
            Ok((vs, n)) => r is Ok && final(values)@ == old(values)@ + vs && final(buf)@ == old(buf)@.skip(n as int),
            Err(e) => r == Err::<(), DecodeError>(e) && final(values)@ == old(values)@ && final(buf)@ == old(buf)@,
        },
        wire_type != WireType::LengthDelimited && wire_type != K::wire_type() ==> r == Err::<
            (),
            DecodeError,
        >(DecodeError::WireTypeMismatch { expected: K::wire_type(), actual: wire_type })
            && final(values)@ == old(values)@ && final(buf)@ == old(buf)@,
        wire_type == K::wire_type() && old(buf)@.len() < K::width() ==> r == Err::<
            (),
            DecodeError,
        >(DecodeError::BufferUnderflow) && final(values)@ == old(values)@ && final(buf)@ == old(buf)@,
        wire_type == K::wire_type() && old(buf)@.len() >= K::width() ==> r is Ok && final(values)@
            == old(values)@.push(K::spec_from_bits(spec_le_value(old(buf)@.take(K::width() as int))))
            && final(buf)@ == old(buf)@.skip(K::width() as int),
{
    let own_wire_type = K::fixed_wire_type();
    let width = K::fixed_width();
    if wire_type == WireType::LengthDelimited {
        let ghost s0 = buf@;
        let start: &[u8] = *buf;
        let mut cur: &[u8] = start;
        proof {
            lemma_decode_varint_bounds(s0);
        }
        let len = match decode_varint(&mut cur) {
            Ok(l) => l,
            Err(e) => return Err(e),
        };
        let remaining = cur.len();
        if len > remaining as u64 {
            return Err(DecodeError::BufferUnderflow);
        }
        let limit = remaining - len as usize;
        let ghost s1 = cur@;
        let mut decoded: Vec<K::Value> = Vec::new();
        assert(cur@ == s1.skip(0));
        while cur.len() > limit
            invariant
                wire_type == WireType::LengthDelimited,
                own_wire_type == K::wire_type(),
                own_wire_type != WireType::LengthDelimited,
                width == K::width(),
                width == 4 || width == 8,
                s0 == old(buf)@,
                buf@ == old(buf)@,
                values@ == old(values)@,
                s1.len() <= s0.len(),
                s1 == s0.skip(s0.len() - s1.len()),
                spec_decode_varint(s0) == Some((len, (s0.len() - s1.len()) as nat)),
                limit == s1.len() - len,
                limit <= s1.len(),
                cur@.len() <= s1.len(),
                cur@ == s1.skip(s1.len() - cur@.len()),
                spec_decode_fixeds::<K>(s1, limit as nat) == match spec_decode_fixeds::<K>(
                    cur@,
                    limit as nat,
                ) {
                    Ok((vs, m)) => Ok::<(Seq<K::Value>, nat), DecodeError>(
                        (decoded@ + vs, ((s1.len() - cur@.len()) + m) as nat),
                    ),
                    Err(e) => Err(e),
                },
            decreases cur@.len(),
        {
            let ghost c0 = cur@;
            if cur.len() < width {
                return Err(DecodeError::BufferUnderflow);
            }
            let v = K::read_value(&mut cur);
            let ghost d0 = decoded@;
            decoded.push(v);
            proof {
                assert(cur@ =~= s1.skip(s1.len() - cur@.len()));
                if let Ok((vs, m)) = spec_decode_fixeds::<K>(cur@, limit as nat) {
                    assert(d0 + (seq![v] + vs) =~= decoded@ + vs);
                }
            }
        }
        if cur.len() != limit {
            return Err(DecodeError::DelimitedLengthExceeded);
        }
        assert(decoded@ + Seq::<K::Value>::empty() =~= decoded@);
        values.append(&mut decoded);
        *buf = cur;
        assert(cur@ =~= s0.skip((s0.len() - cur@.len()) as int));
        Ok(())
    } else {
        match check_wire_type(K::fixed_wire_type(), wire_type) {
            Ok(()) => {},
            Err(e) => return Err(e),
        }
        if buf.len() < K::fixed_width() {
            return Err(DecodeError::BufferUnderflow);
        }
        let v = K::read_value(buf);
        values.push(v);
        Ok(())
    }
}

/// The `bool` field type: `true` is encoded as 1, `false` as 0; any nonzero
/// number decodes to `true`.
pub struct BoolCodec;

impl VarintScalar for BoolCodec {
    type Value = bool;

    open spec fn spec_to_wire(v: bool) -> u64 {
        if v {
            1
        } else {
            0
        }
    }

    open spec fn spec_from_wire(w: u64) -> bool {
        w != 0
    }

    fn to_wire(v: &bool) -> (r: u64) {
        if *v {
            1
        } else {
            0
        }
    }

    fn from_wire(w: u64) -> (r: bool) {
        w != 0
    }

    proof fn lemma_wire_roundtrip(v: bool) {
    }
}

/// The `int32` field type: the value is sign-extended to 64 bits, so negative
/// values take ten bytes; decoding keeps the low 32 bits.
pub struct Int32Codec;

impl VarintScalar for Int32Codec {
    type Value = i32;

    open spec fn spec_to_wire(v: i32) -> u64 {
        v as u64
    }

    open spec fn spec_from_wire(w: u64) -> i32 {
        w as i32
    }

    fn to_wire(v: &i32) -> (r: u64) {
        *v as u64
    }

    fn from_wire(w: u64) -> (r: i32) {
        w as i32
    }

    proof fn lemma_wire_roundtrip(v: i32) {
        assert((v as u64) as i32 == v) by (bit_vector);
    }
}

/// The `int64` field type: the two's complement bits of the value.
pub struct Int64Codec;

impl VarintScalar for Int64Codec {
    type Value = i64;

    open spec fn spec_to_wire(v: i64) -> u64 {
        v as u64
    }

    open spec fn spec_from_wire(w: u64) -> i64 {
        w as i64
    }

    fn to_wire(v: &i64) -> (r: u64) {
        *v as u64
    }

    fn from_wire(w: u64) -> (r: i64) {
        w as i64
    }

    proof fn lemma_wire_roundtrip(v: i64) {
        assert((v as u64) as i64 == v) by (bit_vector);
    }
}

/// The `uint32` field type: decoding keeps the low 32 bits.
pub struct Uint32Codec;

impl VarintScalar for Uint32Codec {
    type Value = u32;

    open spec fn spec_to_wire(v: u32) -> u64 {
        v as u64
    }

    open spec fn spec_from_wire(w: u64) -> u32 {
        w as u32
    }

    fn to_wire(v: &u32) -> (r: u64) {
        *v as u64
    }

    fn from_wire(w: u64) -> (r: u32) {
        w as u32
    }

    proof fn lemma_wire_roundtrip(v: u32) {
    }
}

/// The `uint64` field type: the value itself.
pub struct Uint64Codec;

impl VarintScalar for Uint64Codec {
    type Value = u64;

    open spec fn spec_to_wire(v: u64) -> u64 {
        v
    }

    open spec fn spec_from_wire(w: u64) -> u64 {
        w
    }

    fn to_wire(v: &u64) -> (r: u64) {
        *v
    }

    fn from_wire(w: u64) -> (r: u64) {
        w
    }

    proof fn lemma_wire_roundtrip(v: u64) {
    }
}

/// The `sint32` field type: the zigzag encoding, which maps values of small
/// magnitude to small numbers (0, -1, 1, -2, ... to 0, 1, 2, 3, ...).
pub struct Sint32Codec;

impl VarintScalar for Sint32Codec {
    type Value = i32;

    open spec fn spec_to_wire(v: i32) -> u64 {
        (((v << 1u32) ^ (v >> 31u32)) as u32) as u64
    }

    open spec fn spec_from_wire(w: u64) -> i32 {
        let value = w as u32;
        ((value >> 1u32) as i32) ^ (-((value & 1u32) as i32)) as i32
    }

    fn to_wire(v: &i32) -> (r: u64) {
        let v = *v;
        (((v << 1u32) ^ (v >> 31u32)) as u32) as u64
    }

    fn from_wire(w: u64) -> (r: i32) {
        let value = w as u32;
        assert(value & 1u32 <= 1u32) by (bit_vector);
        let low = (value & 1) as i32;
        ((value >> 1u32) as i32) ^ (-low)
    }

    proof fn lemma_wire_roundtrip(v: i32) {
        assert(({
            let value = ((((v << 1u32) ^ (v >> 31u32)) as u32) as u64) as u32;
            ((value >> 1u32) as i32) ^ (-((value & 1u32) as i32)) as i32
        }) == v) by (bit_vector);
    }
}

/// The `sint64` field type: the zigzag encoding of a 64-bit value.
pub struct Sint64Codec;

impl VarintScalar for Sint64Codec {
    type Value = i64;

    open spec fn spec_to_wire(v: i64) -> u64 {
        ((v << 1u64) ^ (v >> 63u64)) as u64
    }

    open spec fn spec_from_wire(w: u64) -> i64 {
        ((w >> 1u64) as i64) ^ (-((w & 1u64) as i64)) as i64
    }

    fn to_wire(v: &i64) -> (r: u64) {
        let v = *v;
        ((v << 1u64) ^ (v >> 63u64)) as u64
    }

    fn from_wire(w: u64) -> (r: i64) {
        assert(w & 1u64 <= 1u64) by (bit_vector);
        let low = (w & 1) as i64;
        ((w >> 1u64) as i64) ^ (-low)
    }

    proof fn lemma_wire_roundtrip(v: i64) {
        assert(({
            let w = ((v << 1u64) ^ (v >> 63u64)) as u64;
            ((w >> 1u64) as i64) ^ (-((w & 1u64) as i64)) as i64
        }) == v) by (bit_vector);
    }
}

/// The `fixed32` field type: four bytes, least significant first.
pub struct Fixed32Codec;

impl FixedScalar for Fixed32Codec {
    type Value = u32;

    open spec fn width() -> nat {
        4
    }

    open spec fn wire_type() -> WireType {
        WireType::ThirtyTwoBit
    }

    open spec fn spec_bits(v: u32) -> nat {
        v as nat
    }

    open spec fn spec_from_bits(b: nat) -> u32 {
        b as u32
    }

    fn fixed_width() -> (r: usize) {
        4
    }

    fn fixed_wire_type() -> (r: WireType) {
        WireType::ThirtyTwoBit
    }

    fn write_value(v: &u32, buf: &mut Vec<u8>) {
        put_u32_le(buf, *v);
    }

    fn read_value(buf: &mut &[u8]) -> (r: u32) {
        get_u32_le(buf)
    }

    proof fn lemma_bits_roundtrip(v: u32) {
        lemma_pow256_values();
    }
}

/// The `sfixed32` field type: the four bytes of the two's complement bits,
/// least significant first.
pub struct Sfixed32Codec;

impl FixedScalar for Sfixed32Codec {
    type Value = i32;

    open spec fn width() -> nat {
        4
    }

    open spec fn wire_type() -> WireType {
        WireType::ThirtyTwoBit
    }

    open spec fn spec_bits(v: i32) -> nat {
        (v as u32) as nat
    }

    open spec fn spec_from_bits(b: nat) -> i32 {
        (b as u32) as i32
    }

    fn fixed_width() -> (r: usize) {
        4
    }

    fn fixed_wire_type() -> (r: WireType) {
        WireType::ThirtyTwoBit
    }

    fn write_value(v: &i32, buf: &mut Vec<u8>) {
        put_u32_le(buf, *v as u32);
    }

    fn read_value(buf: &mut &[u8]) -> (r: i32) {
        let bits = get_u32_le(buf);
        proof {
            lemma_le_value_bound(old(buf)@.take(4));
            lemma_pow256_values();
        }
        bits as i32
    }

    proof fn lemma_bits_roundtrip(v: i32) {
        lemma_pow256_values();
        assert(((v as u32) as u32) as i32 == v) by (bit_vector);
    }
}

/// The `fixed64` field type: eight bytes, least significant first.
pub struct Fixed64Codec;

impl FixedScalar for Fixed64Codec {
    type Value = u64;

    open spec fn width() -> nat {
        8
    }

    open spec fn wire_type() -> WireType {
        WireType::SixtyFourBit
    }

    open spec fn spec_bits(v: u64) -> nat {
        v as nat
    }

    open spec fn spec_from_bits(b: nat) -> u64 {
        b as u64
    }

    fn fixed_width() -> (r: usize) {
        8
    }

    fn fixed_wire_type() -> (r: WireType) {
        WireType::SixtyFourBit
    }

    fn write_value(v: &u64, buf: &mut Vec<u8>) {
        put_u64_le(buf, *v);
    }

    fn read_value(buf: &mut &[u8]) -> (r: u64) {
        get_u64_le(buf)
    }

    proof fn lemma_bits_roundtrip(v: u64) {
        lemma_pow256_values();
    }
}

/// The `sfixed64` field type: the eight bytes of the two's complement bits,
/// least significant first.
pub struct Sfixed64Codec;

impl FixedScalar for Sfixed64Codec {
    type Value = i64;

    open spec fn width() -> nat {
        8
    }

    open spec fn wire_type() -> WireType {
        WireType::SixtyFourBit
    }

    open spec fn spec_bits(v: i64) -> nat {
        (v as u64) as nat
    }

    open spec fn spec_from_bits(b: nat) -> i64 {
        (b as u64) as i64
    }

    fn fixed_width() -> (r: usize) {
        8
    }

    fn fixed_wire_type() -> (r: WireType) {
        WireType::SixtyFourBit
    }

    fn write_value(v: &i64, buf: &mut Vec<u8>) {
        put_u64_le(buf, *v as u64);
    }

    fn read_value(buf: &mut &[u8]) -> (r: i64) {
        let bits = get_u64_le(buf);
        proof {
            lemma_le_value_bound(old(buf)@.take(8));
            lemma_pow256_values();
        }
        bits as i64
    }

    proof fn lemma_bits_roundtrip(v: i64) {
        lemma_pow256_values();
        assert(((v as u64) as u64) as i64 == v) by (bit_vector);
    }
}

} // verus!
