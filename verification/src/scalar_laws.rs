//! What decoding gives back of what the numeric codecs encode.
use vstd::prelude::*;

use crate::buf::{lemma_le_roundtrip, spec_le_bytes, spec_le_value};
use crate::encoding::{
    lemma_decode_encode_key, spec_decode_key, spec_encode_key, spec_key, spec_skip_field,
    valid_tag,
};
use crate::error::DecodeError;
use crate::scalar::{
    spec_decode_fixeds, spec_decode_packed_fixeds, spec_decode_packed_varints,
    spec_decode_varints, spec_fixed_field, spec_fixed_packed, spec_fixed_payload,
    spec_varint_field, spec_varint_packed, spec_varint_payload, FixedScalar, VarintScalar,
};
use crate::varint::{
    lemma_decode_encode_varint, lemma_varint_len_step, spec_decode_varint, spec_varint,
    spec_varint_len,
};
use crate::wire_type::WireType;

verus! {

/// The payload of a value followed by more values is that value's varint
/// followed by their payload.
pub proof fn lemma_varint_payload_cons<K: VarintScalar>(x: K::Value, vs: Seq<K::Value>)
    ensures
        spec_varint_payload::<K>(seq![x] + vs) == spec_varint(K::spec_to_wire(x) as nat)
            + spec_varint_payload::<K>(vs),
    decreases vs.len(),
{
    let e = spec_varint(K::spec_to_wire(x) as nat);
    if vs.len() == 0 {
        assert(seq![x] + vs =~= seq![x]);
        assert(seq![x].drop_last() =~= Seq::<K::Value>::empty());
        assert(spec_varint_payload::<K>(seq![x]) == spec_varint_payload::<K>(Seq::<K::Value>::empty()) + e);
        assert(spec_varint_payload::<K>(seq![x]) =~= e + spec_varint_payload::<K>(vs));
    } else {
        let sv = seq![x] + vs;
        lemma_varint_payload_cons::<K>(x, vs.drop_last());
        assert(sv.drop_last() =~= seq![x] + vs.drop_last());
        assert(sv.last() == vs.last());
        let l = spec_varint(K::spec_to_wire(vs.last()) as nat);
        assert(spec_varint_payload::<K>(sv) == spec_varint_payload::<K>(sv.drop_last()) + l);
        assert(spec_varint_payload::<K>(vs) == spec_varint_payload::<K>(vs.drop_last()) + l);
        assert(spec_varint_payload::<K>(sv) =~= e + spec_varint_payload::<K>(vs));
    }
}

/// Decoding the payload of values, followed by anything, with the limit at
/// the start of what follows, gives the values back.
pub proof fn lemma_decode_varint_payload<K: VarintScalar>(vals: Seq<K::Value>, rest: Seq<u8>)
    ensures
        spec_decode_varints::<K>(spec_varint_payload::<K>(vals) + rest, rest.len()) == Ok::<
            (Seq<K::Value>, nat),
            DecodeError,
        >((vals, spec_varint_payload::<K>(vals).len())),
    decreases vals.len(),
{
    let s = spec_varint_payload::<K>(vals) + rest;
    if vals.len() == 0 {
        assert(s =~= rest);
        assert(vals =~= Seq::<K::Value>::empty());
    } else {
        let x = vals[0];
        let tail = vals.drop_first();
        assert(vals =~= seq![x] + tail);
        lemma_varint_payload_cons::<K>(x, tail);
        assert(spec_varint_payload::<K>(vals) == spec_varint(K::spec_to_wire(x) as nat)
            + spec_varint_payload::<K>(tail));
        let w = K::spec_to_wire(x);
        let tail_bytes = spec_varint_payload::<K>(tail) + rest;
        assert(s =~= spec_varint(w as nat) + tail_bytes);
        lemma_decode_encode_varint(w, tail_bytes);
        lemma_varint_len_step(w as nat);
        assert(s.skip(spec_varint_len(w as nat) as int) =~= tail_bytes);
        lemma_decode_varint_payload::<K>(tail, rest);
        K::lemma_wire_roundtrip(x);
        assert(seq![K::spec_from_wire(w)] + tail =~= vals);
        assert(s.len() > rest.len());
        assert(spec_decode_varint(s) == Some((w, spec_varint_len(w as nat))));
    }
}

/// Decoding a field of a varint type: its key gives the tag and the varint
/// wire type, and the varint that follows gives the value back.
pub proof fn lemma_varint_field_roundtrip<K: VarintScalar>(tag: u32, v: K::Value, rest: Seq<u8>)
    requires
        valid_tag(tag),
    ensures
        ({
            let s = spec_varint_field::<K>(tag, v) + rest;
            let k = spec_encode_key(tag, WireType::Varint).len();
            &&& spec_decode_key(s) == Ok::<(u32, WireType, nat), DecodeError>(
                (tag, WireType::Varint, k),
            )
            &&& spec_decode_varint(s.skip(k as int)) == Some(
                (K::spec_to_wire(v), (spec_varint_field::<K>(tag, v).len() - k) as nat),
            )
            &&& K::spec_from_wire(K::spec_to_wire(v)) == v
        }),
{
    let key = spec_encode_key(tag, WireType::Varint);
    let body = spec_varint(K::spec_to_wire(v) as nat);
    let s = spec_varint_field::<K>(tag, v) + rest;
    assert(s =~= key + (body + rest));
    lemma_decode_encode_key(tag, WireType::Varint, body + rest);
    assert(s.skip(key.len() as int) =~= body + rest);
    lemma_decode_encode_varint(K::spec_to_wire(v), rest);
    K::lemma_wire_roundtrip(v);
}

/// Decoding a packed field of a varint type gives all its values back, and
/// consumes exactly the field.
pub proof fn lemma_varint_packed_roundtrip<K: VarintScalar>(
    tag: u32,
    vals: Seq<K::Value>,
    rest: Seq<u8>,
)
    requires
        valid_tag(tag),
        vals.len() > 0,
        spec_varint_payload::<K>(vals).len() <= u64::MAX,
    ensures
        ({
            let s = spec_varint_packed::<K>(tag, vals) + rest;
            let k = spec_encode_key(tag, WireType::LengthDelimited).len();
            &&& spec_decode_key(s) == Ok::<(u32, WireType, nat), DecodeError>(
                (tag, WireType::LengthDelimited, k),
            )
            &&& spec_decode_packed_varints::<K>(s.skip(k as int)) == Ok::<
                (Seq<K::Value>, nat),
                DecodeError,
            >((vals, (spec_varint_packed::<K>(tag, vals).len() - k) as nat))
        }),
{
    let key = spec_encode_key(tag, WireType::LengthDelimited);
    let payload = spec_varint_payload::<K>(vals);
    let p = payload.len();
    let prefix = spec_varint(p);
    let s = spec_varint_packed::<K>(tag, vals) + rest;
    assert(s =~= key + (prefix + payload + rest));
    lemma_decode_encode_key(tag, WireType::LengthDelimited, prefix + payload + rest);
    let body = s.skip(key.len() as int);
    assert(body =~= prefix + (payload + rest));
    lemma_decode_encode_varint(p as u64, payload + rest);
    assert(body.skip(prefix.len() as int) =~= payload + rest);
    lemma_decode_varint_payload::<K>(vals, rest);
}

/// Skipping a field of a varint type consumes exactly its value.
pub proof fn lemma_skip_varint_field<K: VarintScalar>(
    tag: u32,
    v: K::Value,
    rest: Seq<u8>,
    depth: nat,
)
    requires
        valid_tag(tag),
        depth > 0,
    ensures
        ({
            let s = spec_varint_field::<K>(tag, v) + rest;
            let k = spec_encode_key(tag, WireType::Varint).len();
            spec_skip_field(WireType::Varint, tag, s.skip(k as int), depth) == Ok::<
                nat,
                DecodeError,
            >((spec_varint_field::<K>(tag, v).len() - k) as nat)
        }),
{
    lemma_varint_field_roundtrip::<K>(tag, v, rest);
    let s = spec_varint_field::<K>(tag, v) + rest;
    let k = spec_encode_key(tag, WireType::Varint).len();
    assert(s.skip(k as int).len() >= spec_varint_field::<K>(tag, v).len() - k);
}

/// The payload of a value followed by more values is that value's bytes
/// followed by their payload.
pub proof fn lemma_fixed_payload_cons<K: FixedScalar>(x: K::Value, vs: Seq<K::Value>)
    ensures
        spec_fixed_payload::<K>(seq![x] + vs) == spec_le_bytes(K::spec_bits(x), K::width())
            + spec_fixed_payload::<K>(vs),
    decreases vs.len(),
{
    let e = spec_le_bytes(K::spec_bits(x), K::width());
    if vs.len() == 0 {
        assert(seq![x] + vs =~= seq![x]);
        assert(seq![x].drop_last() =~= Seq::<K::Value>::empty());
        assert(spec_fixed_payload::<K>(seq![x]) == spec_fixed_payload::<K>(Seq::<K::Value>::empty()) + e);
        assert(spec_fixed_payload::<K>(seq![x]) =~= e + spec_fixed_payload::<K>(vs));
    } else {
        let sv = seq![x] + vs;
        lemma_fixed_payload_cons::<K>(x, vs.drop_last());
        assert(sv.drop_last() =~= seq![x] + vs.drop_last());
        assert(sv.last() == vs.last());
        let l = spec_le_bytes(K::spec_bits(vs.last()), K::width());
        assert(spec_fixed_payload::<K>(sv) == spec_fixed_payload::<K>(sv.drop_last()) + l);
        assert(spec_fixed_payload::<K>(vs) == spec_fixed_payload::<K>(vs.drop_last()) + l);
        assert(spec_fixed_payload::<K>(sv) =~= e + spec_fixed_payload::<K>(vs));
    }
}

/// Decoding the payload of fixed-width values, followed by anything, with the
/// limit at the start of what follows, gives the values back.
pub proof fn lemma_decode_fixed_payload<K: FixedScalar>(vals: Seq<K::Value>, rest: Seq<u8>)
    requires
        K::width() == 4 || K::width() == 8,
    ensures
        spec_decode_fixeds::<K>(spec_fixed_payload::<K>(vals) + rest, rest.len()) == Ok::<
            (Seq<K::Value>, nat),
            DecodeError,
        >((vals, spec_fixed_payload::<K>(vals).len())),
    decreases vals.len(),
{
    let s = spec_fixed_payload::<K>(vals) + rest;
    if vals.len() == 0 {
        assert(s =~= rest);
        assert(vals =~= Seq::<K::Value>::empty());
    } else {
        let x = vals[0];
        let tail = vals.drop_first();
        assert(vals =~= seq![x] + tail);
        lemma_fixed_payload_cons::<K>(x, tail);
        assert(spec_fixed_payload::<K>(vals) == spec_le_bytes(K::spec_bits(x), K::width())
            + spec_fixed_payload::<K>(tail));
        K::lemma_bits_roundtrip(x);
        lemma_le_roundtrip(K::spec_bits(x), K::width());
        let bytes = spec_le_bytes(K::spec_bits(x), K::width());
        let tail_bytes = spec_fixed_payload::<K>(tail) + rest;
        assert(s =~= bytes + tail_bytes);
        assert(s.take(K::width() as int) =~= bytes);
        assert(s.skip(K::width() as int) =~= tail_bytes);
        lemma_decode_fixed_payload::<K>(tail, rest);
        assert(seq![K::spec_from_bits(spec_le_value(bytes))] + tail =~= vals);
    }
}

/// Decoding a field of a fixed-width type: its key gives the tag and the
/// type's wire type, and the bytes that follow give the value back.
pub proof fn lemma_fixed_field_roundtrip<K: FixedScalar>(tag: u32, v: K::Value, rest: Seq<u8>)
    requires
        valid_tag(tag),
    ensures
        ({
            let s = spec_fixed_field::<K>(tag, v) + rest;
            let k = spec_encode_key(tag, K::wire_type()).len();
            &&& spec_decode_key(s) == Ok::<(u32, WireType, nat), DecodeError>(
                (tag, K::wire_type(), k),
            )
            &&& s.skip(k as int).len() >= K::width()
            &&& K::spec_from_bits(spec_le_value(s.skip(k as int).take(K::width() as int))) == v
            &&& spec_fixed_field::<K>(tag, v).len() == k + K::width()
        }),
{
    let key = spec_encode_key(tag, K::wire_type());
    let bytes = spec_le_bytes(K::spec_bits(v), K::width());
    let s = spec_fixed_field::<K>(tag, v) + rest;
    assert(s =~= key + (bytes + rest));
    lemma_decode_encode_key(tag, K::wire_type(), bytes + rest);
    K::lemma_bits_roundtrip(v);
    lemma_le_roundtrip(K::spec_bits(v), K::width());
    assert(s.skip(key.len() as int).take(K::width() as int) =~= bytes);
}

/// Decoding a packed field of a fixed-width type gives all its values back,
/// and consumes exactly the field.
pub proof fn lemma_fixed_packed_roundtrip<K: FixedScalar>(
    tag: u32,
    vals: Seq<K::Value>,
    rest: Seq<u8>,
)
    requires
        valid_tag(tag),
        vals.len() > 0,
        K::width() == 4 || K::width() == 8,
        K::width() * vals.len() <= u64::MAX,
    ensures
        ({
            let s = spec_fixed_packed::<K>(tag, vals) + rest;
            let k = spec_encode_key(tag, WireType::LengthDelimited).len();
            &&& spec_decode_key(s) == Ok::<(u32, WireType, nat), DecodeError>(
                (tag, WireType::LengthDelimited, k),
            )
            &&& spec_decode_packed_fixeds::<K>(s.skip(k as int)) == Ok::<
                (Seq<K::Value>, nat),
                DecodeError,
            >((vals, (spec_fixed_packed::<K>(tag, vals).len() - k) as nat))
        }),
{
    crate::scalar::lemma_fixed_payload_len::<K>(vals);
    let key = spec_encode_key(tag, WireType::LengthDelimited);
    let payload = spec_fixed_payload::<K>(vals);
    let p = payload.len();
    let prefix = spec_varint(p);
    let s = spec_fixed_packed::<K>(tag, vals) + rest;
    assert(s =~= key + (prefix + payload + rest));
    lemma_decode_encode_key(tag, WireType::LengthDelimited, prefix + payload + rest);
    let body = s.skip(key.len() as int);
    assert(body =~= prefix + (payload + rest));
    lemma_decode_encode_varint(p as u64, payload + rest);
    assert(body.skip(prefix.len() as int) =~= payload + rest);
    lemma_decode_fixed_payload::<K>(vals, rest);
}

} // verus!
