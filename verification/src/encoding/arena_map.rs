//! The codec of map fields. A map field is a repeated field of entries, each
//! a length-delimited message with the key as field 1 and the value as field
//! 2; a key or value equal to its type's default is left out.
use vstd::prelude::*;

use crate::arena::Arena;
use crate::encoding::{
    consumes_some, decode_key, lemma_decode_encode_key, encode_key, key_len, lemma_decode_key_bounds, lemma_skip_bounds,
    run_delimited, run_until, skip_field, spec_decode_key, spec_encode_key, spec_skip_field,
    valid_tag, DecodeContext,
};
use crate::error::DecodeError;
use crate::scalar::{lemma_key_len, spec_key_len};
use crate::text::str_eq;
use crate::varint::{
    decode_varint, encode_varint, encoded_len_varint, lemma_decode_encode_varint,
    lemma_decode_varint_bounds, spec_decode_varint,
    spec_varint,
};
use crate::wire_type::WireType;

verus! {

/// A key or value type of a map, with the equality by which an entry leaves
/// out a key or value equal to its default.
pub trait MapValue: Sized {
    /// Whether `self` and `other` are the same value.
    spec fn same(&self, other: &Self) -> bool;

    /// Whether `self` and `other` are the same value.
    fn same_value(&self, other: &Self) -> (r: bool)
        ensures
            r == self.same(other),
    ;
}

impl MapValue for bool {
    open spec fn same(&self, other: &Self) -> bool {
        *self == *other
    }

    fn same_value(&self, other: &Self) -> (r: bool) {
        *self == *other
    }
}

impl MapValue for i32 {
    open spec fn same(&self, other: &Self) -> bool {
        *self == *other
    }

    fn same_value(&self, other: &Self) -> (r: bool) {
        *self == *other
    }
}

impl MapValue for i64 {
    open spec fn same(&self, other: &Self) -> bool {
        *self == *other
    }

    fn same_value(&self, other: &Self) -> (r: bool) {
        *self == *other
    }
}

impl MapValue for u32 {
    open spec fn same(&self, other: &Self) -> bool {
        *self == *other
    }

    fn same_value(&self, other: &Self) -> (r: bool) {
        *self == *other
    }
}

impl MapValue for u64 {
    open spec fn same(&self, other: &Self) -> bool {
        *self == *other
    }

    fn same_value(&self, other: &Self) -> (r: bool) {
        *self == *other
    }
}

impl<'a> MapValue for &'a str {
    open spec fn same(&self, other: &Self) -> bool {
        (*self)@ == (*other)@
    }

    fn same_value(&self, other: &Self) -> (r: bool) {
        str_eq(*self, *other)
    }
}

impl MapValue for String {
    open spec fn same(&self, other: &Self) -> bool {
        self@ == other@
    }

    fn same_value(&self, other: &Self) -> (r: bool) {
        str_eq(self.as_str(), other.as_str())
    }
}

/// Whether two byte strings are equal.
fn bytes_eq(a: &[u8], b: &[u8]) -> (r: bool)
    ensures
        r == (a@ == b@),
{
    if a.len() != b.len() {
        return false;
    }
    let mut i: usize = 0;
    while i < a.len()
        invariant
            i <= a@.len() == b@.len(),
            a@.take(i as int) == b@.take(i as int),
        decreases a@.len() - i,
    {
        if a[i] != b[i] {
            assert(a@[i as int] != b@[i as int]);
            return false;
        }
        assert(a@.take(i + 1) =~= a@.take(i as int).push(a@[i as int]));
        assert(b@.take(i + 1) =~= b@.take(i as int).push(b@[i as int]));
        i = i + 1;
    }
    assert(a@ =~= a@.take(i as int));
    assert(b@ =~= b@.take(i as int));
    true
}

impl<'a> MapValue for &'a [u8] {
    open spec fn same(&self, other: &Self) -> bool {
        (*self)@ == (*other)@
    }

    fn same_value(&self, other: &Self) -> (r: bool) {
        bytes_eq(*self, *other)
    }
}

impl MapValue for Vec<u8> {
    open spec fn same(&self, other: &Self) -> bool {
        self@ == other@
    }

    fn same_value(&self, other: &Self) -> (r: bool) {
        bytes_eq(self.as_slice(), other.as_slice())
    }
}


/// `encoded_len` returns the length of what `spec` gives for its tag and
/// value.
pub open spec fn measures_as<T, L: Fn(u32, &T) -> usize>(
    encoded_len: L,
    spec: spec_fn(u32, T) -> Seq<u8>,
    tag: u32,
) -> bool {
    forall|x: &T, n: usize| #[trigger] encoded_len.ensures((tag, x), n) ==> n == spec(tag, *x).len()
}

/// The bytes of one map entry, given what the key and value fields encode
/// to; a key or value equal to its default is left out.
pub open spec fn spec_map_entry<K: MapValue, V: MapValue>(
    key_spec: spec_fn(u32, K) -> Seq<u8>,
    val_spec: spec_fn(u32, V) -> Seq<u8>,
    key_default: K,
    val_default: V,
    tag: u32,
    key: K,
    val: V,
) -> Seq<u8> {
    let kb = if key.same(&key_default) {
        Seq::empty()
    } else {
        key_spec(1, key)
    };
    let vb = if val.same(&val_default) {
        Seq::empty()
    } else {
        val_spec(2, val)
    };
    spec_encode_key(tag, WireType::LengthDelimited) + spec_varint(kb.len() + vb.len()) + kb + vb
}

/// The bytes of the entries, one after the other.
pub open spec fn spec_map_entries<K: MapValue, V: MapValue>(
    key_spec: spec_fn(u32, K) -> Seq<u8>,
    val_spec: spec_fn(u32, V) -> Seq<u8>,
    key_default: K,
    val_default: V,
    tag: u32,
    entries: Seq<(K, V)>,
) -> Seq<u8>
    decreases entries.len(),
{
    if entries.len() == 0 {
        Seq::empty()
    } else {
        spec_map_entries(key_spec, val_spec, key_default, val_default, tag, entries.drop_last())
            + spec_map_entry(
            key_spec,
            val_spec,
            key_default,
            val_default,
            tag,
            entries.last().0,
            entries.last().1,
        )
    }
}

/// Appends one map entry per element of `values`, leaving out keys and values
/// equal to their defaults.
///
/// Whatever the four functions append and measure, when they agree with one
/// another the result is the entries as `spec_map_entries` lays them out.
#[verifier::rlimit(50)]
pub fn encode_with_defaults<K, V, KE, KL, VE, VL>(
    key_encode: KE,
    key_encoded_len: KL,
    val_encode: VE,
    val_encoded_len: VL,
    key_default: &K,
    val_default: &V,
    tag: u32,
    values: &[(K, V)],
    buf: &mut Vec<u8>,
) where
    K: MapValue,
    V: MapValue,
    KE: Fn(u32, &K, &mut Vec<u8>),
    KL: Fn(u32, &K) -> usize,
    VE: Fn(u32, &V, &mut Vec<u8>),
    VL: Fn(u32, &V) -> usize,

    requires
        valid_tag(tag),
        forall|x: &K, b: &mut Vec<u8>| key_encode.requires((1u32, x, b)),
        forall|x: &K| key_encoded_len.requires((1u32, x)),
        forall|x: &V, b: &mut Vec<u8>| val_encode.requires((2u32, x, b)),
        forall|x: &V| val_encoded_len.requires((2u32, x)),
        forall|x: &K, n: usize| #[trigger]
            key_encoded_len.ensures((1u32, x), n) ==> n <= isize::MAX,
        forall|x: &V, n: usize| #[trigger]
            val_encoded_len.ensures((2u32, x), n) ==> n <= isize::MAX,
        forall|x: &K, b: &mut Vec<u8>| #[trigger]
            key_encode.ensures((1u32, x, b), ()) ==> final(b)@.len() >= (*b)@.len() && final(b)@.take((*b)@.len() as int) == (*b)@,
        forall|x: &V, b: &mut Vec<u8>| #[trigger]
            val_encode.ensures((2u32, x, b), ()) ==> final(b)@.len() >= (*b)@.len() && final(b)@.take((*b)@.len() as int) == (*b)@,
    ensures
        forall|
            key_spec: spec_fn(u32, K) -> Seq<u8>,
            val_spec: spec_fn(u32, V) -> Seq<u8>,
        |
            (forall|x: &K, b: &mut Vec<u8>| #[trigger]
                key_encode.ensures((1u32, x, b), ()) ==> final(b)@ == (*b)@ + key_spec(1u32, *x)) && measures_as(key_encoded_len, key_spec, 1u32)
                && (forall|x: &V, b: &mut Vec<u8>| #[trigger]
                val_encode.ensures((2u32, x, b), ()) ==> final(b)@ == (*b)@ + val_spec(2u32, *x)) && measures_as(val_encoded_len, val_spec, 2u32)
                ==> #[trigger] spec_map_entries(
                key_spec,
                val_spec,
                *key_default,
                *val_default,
                tag,
                values@,
            ) == final(buf)@.skip(old(buf)@.len() as int) && final(buf)@.take(
                old(buf)@.len() as int,
            ) == old(buf)@,
{
    let mut i: usize = 0;
    while i < values.len()
        invariant
            valid_tag(tag),
            i <= values@.len(),
            forall|x: &K, b: &mut Vec<u8>| key_encode.requires((1u32, x, b)),
            forall|x: &K| key_encoded_len.requires((1u32, x)),
            forall|x: &V, b: &mut Vec<u8>| val_encode.requires((2u32, x, b)),
            forall|x: &V| val_encoded_len.requires((2u32, x)),
            forall|x: &K, n: usize| #[trigger]
                key_encoded_len.ensures((1u32, x), n) ==> n <= isize::MAX,
            forall|x: &V, n: usize| #[trigger]
                val_encoded_len.ensures((2u32, x), n) ==> n <= isize::MAX,
            forall|x: &K, b: &mut Vec<u8>| #[trigger]
                key_encode.ensures((1u32, x, b), ()) ==> final(b)@.len() >= (*b)@.len() && final(b)@.take((*b)@.len() as int) == (*b)@,
            forall|x: &V, b: &mut Vec<u8>| #[trigger]
                val_encode.ensures((2u32, x, b), ()) ==> final(b)@.len() >= (*b)@.len() && final(b)@.take((*b)@.len() as int) == (*b)@,
            buf@.len() >= old(buf)@.len(),
            buf@.take(old(buf)@.len() as int) == old(buf)@,
            forall|
                key_spec: spec_fn(u32, K) -> Seq<u8>,
                val_spec: spec_fn(u32, V) -> Seq<u8>,
            |
                (forall|x: &K, b: &mut Vec<u8>| #[trigger]
                key_encode.ensures((1u32, x, b), ()) ==> final(b)@ == (*b)@ + key_spec(1u32, *x)) && measures_as(key_encoded_len, key_spec, 1u32)
                    && (forall|x: &V, b: &mut Vec<u8>| #[trigger]
                val_encode.ensures((2u32, x, b), ()) ==> final(b)@ == (*b)@ + val_spec(2u32, *x)) && measures_as(val_encoded_len, val_spec, 2u32)
                    ==> #[trigger] spec_map_entries(
                    key_spec,
                    val_spec,
                    *key_default,
                    *val_default,
                    tag,
                    values@.take(i as int),
                ) == buf@.skip(old(buf)@.len() as int),
        decreases values@.len() - i,
    {
        let entry = &values[i];
        let skip_key = entry.0.same_value(key_default);
        let skip_val = entry.1.same_value(val_default);
        let key_len: usize = if skip_key {
            0
        } else {
            key_encoded_len(1, &entry.0)
        };
        let val_len: usize = if skip_val {
            0
        } else {
            val_encoded_len(2, &entry.1)
        };
        let len = key_len + val_len;
        let ghost b0 = buf@;
        encode_key(tag, WireType::LengthDelimited, buf);
        encode_varint(len as u64, buf);
        let ghost b1 = buf@;
        if !skip_key {
            key_encode(1, &entry.0, buf);
        }
        let ghost b2 = buf@;
        if !skip_val {
            val_encode(2, &entry.1, buf);
        }
        let ghost b3 = buf@;
        assert(b2.len() >= b1.len() && b2.take(b1.len() as int) == b1);
        assert(b3.len() >= b2.len() && b3.take(b2.len() as int) == b2);
        proof {
            assert(values@.take(i + 1).drop_last() =~= values@.take(i as int));
            assert(values@.take(i + 1).last() == *entry);
            assert(b1 =~= b0 + spec_encode_key(tag, WireType::LengthDelimited) + spec_varint(
                len as nat,
            ));
            {
                assert forall|key_spec: spec_fn(u32, K) -> Seq<u8>, val_spec: spec_fn(u32, V) -> Seq<
                    u8,
                >|
                    (forall|x: &K, b: &mut Vec<u8>| #[trigger]
                key_encode.ensures((1u32, x, b), ()) ==> final(b)@ == (*b)@ + key_spec(1u32, *x)) && measures_as(key_encoded_len, key_spec, 1u32)
                        && (forall|x: &V, b: &mut Vec<u8>| #[trigger]
                val_encode.ensures((2u32, x, b), ()) ==> final(b)@ == (*b)@ + val_spec(2u32, *x)) && measures_as(val_encoded_len, val_spec, 2u32) implies #[trigger] spec_map_entries(
                    key_spec,
                    val_spec,
                    *key_default,
                    *val_default,
                    tag,
                    values@.take(i + 1),
                ) == b3.skip(old(buf)@.len() as int) by {
                    let kb = if entry.0.same(key_default) {
                        Seq::<u8>::empty()
                    } else {
                        key_spec(1, entry.0)
                    };
                    let vb = if entry.1.same(val_default) {
                        Seq::<u8>::empty()
                    } else {
                        val_spec(2, entry.1)
                    };
                    assert(spec_map_entries(
                        key_spec,
                        val_spec,
                        *key_default,
                        *val_default,
                        tag,
                        values@.take(i as int),
                    ) == b0.skip(old(buf)@.len() as int));
                    assert(b2 =~= b1 + kb);
                    assert(b3 =~= b2 + vb);
                    assert(key_len == kb.len());
                    assert(val_len == vb.len());
                    assert(b3.skip(old(buf)@.len() as int) =~= b0.skip(old(buf)@.len() as int)
                        + spec_map_entry(
                        key_spec,
                        val_spec,
                        *key_default,
                        *val_default,
                        tag,
                        entry.0,
                        entry.1,
                    ));
                }
            }
            assert(b3.take(b0.len() as int) =~= b0) by {
                assert(b3.take(b0.len() as int) =~= b3.take(b2.len() as int).take(b0.len() as int));
                assert(b2.take(b0.len() as int) =~= b2.take(b1.len() as int).take(b0.len() as int));
            }
            assert(b3.take(old(buf)@.len() as int) =~= b3.take(b0.len() as int).take(
                old(buf)@.len() as int,
            ));
        }
        i = i + 1;
    }
    assert(values@.take(values@.len() as int) =~= values@);
}

/// An upper bound on the bytes of the entries: a key, a ten-byte length and
/// both fields per entry.
pub open spec fn spec_map_len_bound<K, V>(
    key_spec: spec_fn(u32, K) -> Seq<u8>,
    val_spec: spec_fn(u32, V) -> Seq<u8>,
    tag: u32,
    entries: Seq<(K, V)>,
) -> nat
    decreases entries.len(),
{
    if entries.len() == 0 {
        0
    } else {
        spec_map_len_bound(key_spec, val_spec, tag, entries.drop_last()) + spec_key_len(tag) + 10
            + key_spec(1, entries.last().0).len() + val_spec(2, entries.last().1).len()
    }
}

/// The bound of a prefix is at most the bound of the whole.
proof fn lemma_map_len_bound_prefix<K, V>(
    key_spec: spec_fn(u32, K) -> Seq<u8>,
    val_spec: spec_fn(u32, V) -> Seq<u8>,
    tag: u32,
    entries: Seq<(K, V)>,
    i: int,
)
    requires
        0 <= i <= entries.len(),
    ensures
        spec_map_len_bound(key_spec, val_spec, tag, entries.take(i)) <= spec_map_len_bound(
            key_spec,
            val_spec,
            tag,
            entries,
        ),
    decreases entries.len() - i,
{
    if i < entries.len() {
        lemma_map_len_bound_prefix(key_spec, val_spec, tag, entries, i + 1);
        assert(entries.take(i + 1).drop_last() =~= entries.take(i));
    } else {
        assert(entries.take(i) =~= entries);
    }
}

/// The number of bytes of the entries that `encode_with_defaults` appends.
///
/// Whatever the two functions measure, when they measure what two encodings
/// give, the result is the length of the entries as `spec_map_entries` lays
/// them out.
pub fn encoded_len_with_defaults<K, V, KL, VL>(
    key_encoded_len: KL,
    val_encoded_len: VL,
    key_default: &K,
    val_default: &V,
    tag: u32,
    values: &[(K, V)],
) -> (r: usize) where
    K: MapValue,
    V: MapValue,
    KL: Fn(u32, &K) -> usize,
    VL: Fn(u32, &V) -> usize,

    requires
        forall|x: &K| key_encoded_len.requires((1u32, x)),
        forall|x: &V| val_encoded_len.requires((2u32, x)),
        exists|key_spec: spec_fn(u32, K) -> Seq<u8>, val_spec: spec_fn(u32, V) -> Seq<u8>|
            (forall|x: &K, n: usize| #[trigger]
                key_encoded_len.ensures((1u32, x), n) ==> n == key_spec(1u32, *x).len()) && (forall|x: &V, n: usize| #[trigger] val_encoded_len.ensures((2u32, x), n) ==> n == val_spec(2u32, *x).len())
                && #[trigger] spec_map_len_bound(key_spec, val_spec, tag, values@) <= usize::MAX,
    ensures
        valid_tag(tag) ==> forall|
            key_spec: spec_fn(u32, K) -> Seq<u8>,
            val_spec: spec_fn(u32, V) -> Seq<u8>,
        |
            (forall|x: &K, n: usize| #[trigger]
                key_encoded_len.ensures((1u32, x), n) ==> n == key_spec(1u32, *x).len()) && (forall|x: &V, n: usize| #[trigger] val_encoded_len.ensures((2u32, x), n) ==> n == val_spec(2u32, *x).len())
                ==> r == #[trigger] spec_map_entries(
                key_spec,
                val_spec,
                *key_default,
                *val_default,
                tag,
                values@,
            ).len(),
{
    let ghost (ks, vs) = choose|key_spec: spec_fn(u32, K) -> Seq<u8>, val_spec: spec_fn(u32, V) -> Seq<u8>|
            (forall|x: &K, n: usize| #[trigger]
                key_encoded_len.ensures((1u32, x), n) ==> n == key_spec(1u32, *x).len()) && (forall|x: &V, n: usize| #[trigger] val_encoded_len.ensures((2u32, x), n) ==> n == val_spec(2u32, *x).len())
                && #[trigger] spec_map_len_bound(key_spec, val_spec, tag, values@) <= usize::MAX;
    let k = key_len(tag);
    let mut total: usize = 0;
    let mut i: usize = 0;
    while i < values.len()
        invariant
            i <= values@.len(),
            k == spec_key_len(tag),
            forall|x: &K| key_encoded_len.requires((1u32, x)),
            forall|x: &V| val_encoded_len.requires((2u32, x)),
            forall|x: &K, n: usize| #[trigger]
                key_encoded_len.ensures((1u32, x), n) ==> n == ks(1u32, *x).len(),
            forall|x: &V, n: usize| #[trigger]
                val_encoded_len.ensures((2u32, x), n) ==> n == vs(2u32, *x).len(),
            spec_map_len_bound(ks, vs, tag, values@) <= usize::MAX,
            total <= spec_map_len_bound(ks, vs, tag, values@.take(i as int)),
            valid_tag(tag) ==> forall|
                key_spec: spec_fn(u32, K) -> Seq<u8>,
                val_spec: spec_fn(u32, V) -> Seq<u8>,
            |
                (forall|x: &K, n: usize| #[trigger]
                    key_encoded_len.ensures((1u32, x), n) ==> n == key_spec(1u32, *x).len()) && (forall|x: &V, n: usize| #[trigger] val_encoded_len.ensures((2u32, x), n) ==> n == val_spec(2u32, *x).len())
                    ==> total == #[trigger] spec_map_entries(
                    key_spec,
                    val_spec,
                    *key_default,
                    *val_default,
                    tag,
                    values@.take(i as int),
                ).len(),
        decreases values@.len() - i,
    {
        proof {
            lemma_map_len_bound_prefix(ks, vs, tag, values@, i + 1);
            assert(values@.take(i + 1).drop_last() =~= values@.take(i as int));
        }
        let entry = &values[i];
        let key_len_i: usize = if entry.0.same_value(key_default) {
            0
        } else {
            key_encoded_len(1, &entry.0)
        };
        let val_len_i: usize = if entry.1.same_value(val_default) {
            0
        } else {
            val_encoded_len(2, &entry.1)
        };
        let len = key_len_i + val_len_i;
        let step = k + encoded_len_varint(len as u64) + len;
        let ghost old_total = total;
        total = total + step;
        proof {
            if valid_tag(tag) {
                lemma_key_len(tag, WireType::LengthDelimited);
                assert forall|key_spec: spec_fn(u32, K) -> Seq<u8>, val_spec: spec_fn(u32, V) -> Seq<
                    u8,
                >|
                    (forall|x: &K, n: usize| #[trigger]
                        key_encoded_len.ensures((1u32, x), n) ==> n == key_spec(1u32, *x).len())
                        && (forall|x: &V, n: usize| #[trigger]
                        val_encoded_len.ensures((2u32, x), n) ==> n == val_spec(2u32, *x).len())
                        implies total == #[trigger] spec_map_entries(
                    key_spec,
                    val_spec,
                    *key_default,
                    *val_default,
                    tag,
                    values@.take(i + 1),
                ).len() by {
                    assert(old_total == spec_map_entries(
                        key_spec,
                        val_spec,
                        *key_default,
                        *val_default,
                        tag,
                        values@.take(i as int),
                    ).len());
                    assert(values@.take(i + 1).last() == *entry);
                }
            }
        }
        i = i + 1;
    }
    assert(values@.take(values@.len() as int) =~= values@);
    total
}

/// The bytes of one map entry whose value is a message: a key equal to its
/// default is left out, the value is always written.
pub open spec fn spec_message_map_entry<K: MapValue, V>(
    key_spec: spec_fn(u32, K) -> Seq<u8>,
    val_spec: spec_fn(u32, V) -> Seq<u8>,
    key_default: K,
    tag: u32,
    key: K,
    val: V,
) -> Seq<u8> {
    let kb = if key.same(&key_default) {
        Seq::empty()
    } else {
        key_spec(1, key)
    };
    let vb = val_spec(2, val);
    spec_encode_key(tag, WireType::LengthDelimited) + spec_varint(kb.len() + vb.len()) + kb + vb
}

/// The bytes of the entries whose values are messages, one after the other.
pub open spec fn spec_message_map_entries<K: MapValue, V>(
    key_spec: spec_fn(u32, K) -> Seq<u8>,
    val_spec: spec_fn(u32, V) -> Seq<u8>,
    key_default: K,
    tag: u32,
    entries: Seq<(K, V)>,
) -> Seq<u8>
    decreases entries.len(),
{
    if entries.len() == 0 {
        Seq::empty()
    } else {
        spec_message_map_entries(key_spec, val_spec, key_default, tag, entries.drop_last())
            + spec_message_map_entry(
            key_spec,
            val_spec,
            key_default,
            tag,
            entries.last().0,
            entries.last().1,
        )
    }
}

/// Appends one map entry per element of `values`, leaving out keys equal to
/// their default; values, which are messages, are always written.
///
/// Whatever the four functions append and measure, when they agree with one
/// another the result is the entries as `spec_map_entries` lays them out.
pub fn encode_message<K, V, KE, KL, VE, VL>(
    key_encode: KE,
    key_encoded_len: KL,
    val_encode: VE,
    val_encoded_len: VL,
    key_default: &K,
    tag: u32,
    values: &[(K, V)],
    buf: &mut Vec<u8>,
) where
    K: MapValue,
    KE: Fn(u32, &K, &mut Vec<u8>),
    KL: Fn(u32, &K) -> usize,
    VE: Fn(u32, &V, &mut Vec<u8>),
    VL: Fn(u32, &V) -> usize,

    requires
        valid_tag(tag),
        forall|x: &K, b: &mut Vec<u8>| key_encode.requires((1u32, x, b)),
        forall|x: &K| key_encoded_len.requires((1u32, x)),
        forall|x: &V, b: &mut Vec<u8>| val_encode.requires((2u32, x, b)),
        forall|x: &V| val_encoded_len.requires((2u32, x)),
        forall|x: &K, n: usize| #[trigger]
            key_encoded_len.ensures((1u32, x), n) ==> n <= isize::MAX,
        forall|x: &V, n: usize| #[trigger]
            val_encoded_len.ensures((2u32, x), n) ==> n <= isize::MAX,
        forall|x: &K, b: &mut Vec<u8>| #[trigger]
            key_encode.ensures((1u32, x, b), ()) ==> final(b)@.len() >= (*b)@.len() && final(b)@.take((*b)@.len() as int) == (*b)@,
        forall|x: &V, b: &mut Vec<u8>| #[trigger]
            val_encode.ensures((2u32, x, b), ()) ==> final(b)@.len() >= (*b)@.len() && final(b)@.take((*b)@.len() as int) == (*b)@,
    ensures
        forall|
            key_spec: spec_fn(u32, K) -> Seq<u8>,
            val_spec: spec_fn(u32, V) -> Seq<u8>,
        |
            (forall|x: &K, b: &mut Vec<u8>| #[trigger]
                key_encode.ensures((1u32, x, b), ()) ==> final(b)@ == (*b)@ + key_spec(1u32, *x)) && measures_as(key_encoded_len, key_spec, 1u32)
                && (forall|x: &V, b: &mut Vec<u8>| #[trigger]
                val_encode.ensures((2u32, x, b), ()) ==> final(b)@ == (*b)@ + val_spec(2u32, *x)) && measures_as(val_encoded_len, val_spec, 2u32)
                ==> #[trigger] spec_message_map_entries(
                key_spec,
                val_spec,
                *key_default,
                        tag,
                values@,
            ) == final(buf)@.skip(old(buf)@.len() as int) && final(buf)@.take(
                old(buf)@.len() as int,
            ) == old(buf)@,
{
    let mut i: usize = 0;
    while i < values.len()
        invariant
            valid_tag(tag),
            i <= values@.len(),
            forall|x: &K, b: &mut Vec<u8>| key_encode.requires((1u32, x, b)),
            forall|x: &K| key_encoded_len.requires((1u32, x)),
            forall|x: &V, b: &mut Vec<u8>| val_encode.requires((2u32, x, b)),
            forall|x: &V| val_encoded_len.requires((2u32, x)),
            forall|x: &K, n: usize| #[trigger]
                key_encoded_len.ensures((1u32, x), n) ==> n <= isize::MAX,
            forall|x: &V, n: usize| #[trigger]
                val_encoded_len.ensures((2u32, x), n) ==> n <= isize::MAX,
            forall|x: &K, b: &mut Vec<u8>| #[trigger]
                key_encode.ensures((1u32, x, b), ()) ==> final(b)@.len() >= (*b)@.len() && final(b)@.take((*b)@.len() as int) == (*b)@,
            forall|x: &V, b: &mut Vec<u8>| #[trigger]
                val_encode.ensures((2u32, x, b), ()) ==> final(b)@.len() >= (*b)@.len() && final(b)@.take((*b)@.len() as int) == (*b)@,
            buf@.len() >= old(buf)@.len(),
            buf@.take(old(buf)@.len() as int) == old(buf)@,
            forall|
                key_spec: spec_fn(u32, K) -> Seq<u8>,
                val_spec: spec_fn(u32, V) -> Seq<u8>,
            |
                (forall|x: &K, b: &mut Vec<u8>| #[trigger]
                key_encode.ensures((1u32, x, b), ()) ==> final(b)@ == (*b)@ + key_spec(1u32, *x)) && measures_as(key_encoded_len, key_spec, 1u32)
                    && (forall|x: &V, b: &mut Vec<u8>| #[trigger]
                val_encode.ensures((2u32, x, b), ()) ==> final(b)@ == (*b)@ + val_spec(2u32, *x)) && measures_as(val_encoded_len, val_spec, 2u32)
                    ==> #[trigger] spec_message_map_entries(
                    key_spec,
                    val_spec,
                    *key_default,
                                tag,
                    values@.take(i as int),
                ) == buf@.skip(old(buf)@.len() as int),
        decreases values@.len() - i,
    {
        let entry = &values[i];
        let skip_key = entry.0.same_value(key_default);
        let key_len: usize = if skip_key {
            0
        } else {
            key_encoded_len(1, &entry.0)
        };
        let val_len: usize = val_encoded_len(2, &entry.1);
        let len = key_len + val_len;
        let ghost b0 = buf@;
        encode_key(tag, WireType::LengthDelimited, buf);
        encode_varint(len as u64, buf);
        let ghost b1 = buf@;
        if !skip_key {
            key_encode(1, &entry.0, buf);
        }
        let ghost b2 = buf@;
        val_encode(2, &entry.1, buf);
        let ghost b3 = buf@;
        assert(b2.len() >= b1.len() && b2.take(b1.len() as int) == b1);
        assert(b3.len() >= b2.len() && b3.take(b2.len() as int) == b2);
        proof {
            assert(values@.take(i + 1).drop_last() =~= values@.take(i as int));
            assert(values@.take(i + 1).last() == *entry);
            assert(b1 =~= b0 + spec_encode_key(tag, WireType::LengthDelimited) + spec_varint(
                len as nat,
            ));
            {
                assert forall|key_spec: spec_fn(u32, K) -> Seq<u8>, val_spec: spec_fn(u32, V) -> Seq<
                    u8,
                >|
                    (forall|x: &K, b: &mut Vec<u8>| #[trigger]
                key_encode.ensures((1u32, x, b), ()) ==> final(b)@ == (*b)@ + key_spec(1u32, *x)) && measures_as(key_encoded_len, key_spec, 1u32)
                        && (forall|x: &V, b: &mut Vec<u8>| #[trigger]
                val_encode.ensures((2u32, x, b), ()) ==> final(b)@ == (*b)@ + val_spec(2u32, *x)) && measures_as(val_encoded_len, val_spec, 2u32) implies #[trigger] spec_message_map_entries(
                    key_spec,
                    val_spec,
                    *key_default,
                                tag,
                    values@.take(i + 1),
                ) == b3.skip(old(buf)@.len() as int) by {
                    let kb = if entry.0.same(key_default) {
                        Seq::<u8>::empty()
                    } else {
                        key_spec(1, entry.0)
                    };
                    let vb = val_spec(2, entry.1);
                    assert(spec_message_map_entries(
                        key_spec,
                        val_spec,
                        *key_default,
                                        tag,
                        values@.take(i as int),
                    ) == b0.skip(old(buf)@.len() as int));
                    assert(b2 =~= b1 + kb);
                    assert(b3 =~= b2 + vb);
                    assert(key_len == kb.len());
                    assert(val_len == vb.len());
                    assert(b3.skip(old(buf)@.len() as int) =~= b0.skip(old(buf)@.len() as int)
                        + spec_message_map_entry(
                        key_spec,
                        val_spec,
                        *key_default,
                                        tag,
                        entry.0,
                        entry.1,
                    ));
                }
            }
            assert(b3.take(b0.len() as int) =~= b0) by {
                assert(b3.take(b0.len() as int) =~= b3.take(b2.len() as int).take(b0.len() as int));
                assert(b2.take(b0.len() as int) =~= b2.take(b1.len() as int).take(b0.len() as int));
            }
            assert(b3.take(old(buf)@.len() as int) =~= b3.take(b0.len() as int).take(
                old(buf)@.len() as int,
            ));
        }
        i = i + 1;
    }
    assert(values@.take(values@.len() as int) =~= values@);
}

/// The number of bytes of the entries that `encode_message` appends.
///
/// Whatever the two functions measure, when they measure what two encodings
/// give, the result is the length of the entries as `spec_map_entries` lays
/// them out.
pub fn encoded_len_message<K, V, KL, VL>(
    key_encoded_len: KL,
    val_encoded_len: VL,
    key_default: &K,
    tag: u32,
    values: &[(K, V)],
) -> (r: usize) where
    K: MapValue,
    KL: Fn(u32, &K) -> usize,
    VL: Fn(u32, &V) -> usize,

    requires
        forall|x: &K| key_encoded_len.requires((1u32, x)),
        forall|x: &V| val_encoded_len.requires((2u32, x)),
        exists|key_spec: spec_fn(u32, K) -> Seq<u8>, val_spec: spec_fn(u32, V) -> Seq<u8>|
            (forall|x: &K, n: usize| #[trigger]
                key_encoded_len.ensures((1u32, x), n) ==> n == key_spec(1u32, *x).len()) && (forall|x: &V, n: usize| #[trigger] val_encoded_len.ensures((2u32, x), n) ==> n == val_spec(2u32, *x).len())
                && #[trigger] spec_map_len_bound(key_spec, val_spec, tag, values@) <= usize::MAX,
    ensures
        valid_tag(tag) ==> forall|
            key_spec: spec_fn(u32, K) -> Seq<u8>,
            val_spec: spec_fn(u32, V) -> Seq<u8>,
        |
            (forall|x: &K, n: usize| #[trigger]
                key_encoded_len.ensures((1u32, x), n) ==> n == key_spec(1u32, *x).len()) && (forall|x: &V, n: usize| #[trigger] val_encoded_len.ensures((2u32, x), n) ==> n == val_spec(2u32, *x).len())
                ==> r == #[trigger] spec_message_map_entries(
                key_spec,
                val_spec,
                *key_default,
                        tag,
                values@,
            ).len(),
{
    let ghost (ks, vs) = choose|key_spec: spec_fn(u32, K) -> Seq<u8>, val_spec: spec_fn(u32, V) -> Seq<u8>|
            (forall|x: &K, n: usize| #[trigger]
                key_encoded_len.ensures((1u32, x), n) ==> n == key_spec(1u32, *x).len()) && (forall|x: &V, n: usize| #[trigger] val_encoded_len.ensures((2u32, x), n) ==> n == val_spec(2u32, *x).len())
                && #[trigger] spec_map_len_bound(key_spec, val_spec, tag, values@) <= usize::MAX;
    let k = key_len(tag);
    let mut total: usize = 0;
    let mut i: usize = 0;
    while i < values.len()
        invariant
            i <= values@.len(),
            k == spec_key_len(tag),
            forall|x: &K| key_encoded_len.requires((1u32, x)),
            forall|x: &V| val_encoded_len.requires((2u32, x)),
            forall|x: &K, n: usize| #[trigger]
                key_encoded_len.ensures((1u32, x), n) ==> n == ks(1u32, *x).len(),
            forall|x: &V, n: usize| #[trigger]
                val_encoded_len.ensures((2u32, x), n) ==> n == vs(2u32, *x).len(),
            spec_map_len_bound(ks, vs, tag, values@) <= usize::MAX,
            total <= spec_map_len_bound(ks, vs, tag, values@.take(i as int)),
            valid_tag(tag) ==> forall|
                key_spec: spec_fn(u32, K) -> Seq<u8>,
                val_spec: spec_fn(u32, V) -> Seq<u8>,
            |
                (forall|x: &K, n: usize| #[trigger]
                    key_encoded_len.ensures((1u32, x), n) ==> n == key_spec(1u32, *x).len()) && (forall|x: &V, n: usize| #[trigger] val_encoded_len.ensures((2u32, x), n) ==> n == val_spec(2u32, *x).len())
                    ==> total == #[trigger] spec_message_map_entries(
                    key_spec,
                    val_spec,
                    *key_default,
                                tag,
                    values@.take(i as int),
                ).len(),
        decreases values@.len() - i,
    {
        proof {
            lemma_map_len_bound_prefix(ks, vs, tag, values@, i + 1);
            assert(values@.take(i + 1).drop_last() =~= values@.take(i as int));
        }
        let entry = &values[i];
        let key_len_i: usize = if entry.0.same_value(key_default) {
            0
        } else {
            key_encoded_len(1, &entry.0)
        };
        let val_len_i: usize = val_encoded_len(2, &entry.1);
        let len = key_len_i + val_len_i;
        let step = k + encoded_len_varint(len as u64) + len;
        let ghost old_total = total;
        total = total + step;
        proof {
            if valid_tag(tag) {
                lemma_key_len(tag, WireType::LengthDelimited);
                assert forall|key_spec: spec_fn(u32, K) -> Seq<u8>, val_spec: spec_fn(u32, V) -> Seq<
                    u8,
                >|
                    (forall|x: &K, n: usize| #[trigger]
                        key_encoded_len.ensures((1u32, x), n) ==> n == key_spec(1u32, *x).len())
                        && (forall|x: &V, n: usize| #[trigger]
                        val_encoded_len.ensures((2u32, x), n) ==> n == val_spec(2u32, *x).len())
                        implies total == #[trigger] spec_message_map_entries(
                    key_spec,
                    val_spec,
                    *key_default,
                                tag,
                    values@.take(i + 1),
                ).len() by {
                    assert(old_total == spec_message_map_entries(
                        key_spec,
                        val_spec,
                        *key_default,
                                        tag,
                        values@.take(i as int),
                    ).len());
                    assert(values@.take(i + 1).last() == *entry);
                }
            }
        }
        i = i + 1;
    }
    assert(values@.take(values@.len() as int) =~= values@);
    total
}

/// Decoding one field of a map entry from the front of `s`: its key, then
/// with tag 1 the key by `ks`, with tag 2 the value by `vs`, and otherwise a
/// skipped field; the entry after it and the bytes taken, key included.
pub open spec fn entry_field<K, V>(
    ks: spec_fn(WireType, K, Seq<u8>, nat) -> Result<(K, nat), DecodeError>,
    vs: spec_fn(WireType, V, Seq<u8>, nat) -> Result<(V, nat), DecodeError>,
    depth: nat,
    e: (K, V),
    s: Seq<u8>,
) -> Result<((K, V), nat), DecodeError> {
    match spec_decode_key(s) {
        Err(x) => Err(x),
        Ok((tag, wt, k)) => if tag == 1 {
            match ks(wt, e.0, s.skip(k as int), depth) {
                Ok((key, n)) => Ok(((key, e.1), k + n)),
                Err(x) => Err(x),
            }
        } else if tag == 2 {
            match vs(wt, e.1, s.skip(k as int), depth) {
                Ok((val, n)) => Ok(((e.0, val), k + n)),
                Err(x) => Err(x),
            }
        } else {
            match spec_skip_field(wt, tag, s.skip(k as int), depth) {
                Ok(n) => Ok((e, k + n)),
                Err(x) => Err(x),
            }
        },
    }
}

/// `entry_field` as a step of a length-delimited loop.
pub open spec fn entry_step<K, V>(
    ks: spec_fn(WireType, K, Seq<u8>, nat) -> Result<(K, nat), DecodeError>,
    vs: spec_fn(WireType, V, Seq<u8>, nat) -> Result<(V, nat), DecodeError>,
    depth: nat,
) -> spec_fn((K, V), Seq<u8>) -> Result<((K, V), nat), DecodeError> {
    |e: (K, V), s: Seq<u8>| entry_field(ks, vs, depth, e, s)
}

/// Decoding a map entry's field takes at least its key's byte.
proof fn lemma_entry_field_progress<K, V>(
    ks: spec_fn(WireType, K, Seq<u8>, nat) -> Result<(K, nat), DecodeError>,
    vs: spec_fn(WireType, V, Seq<u8>, nat) -> Result<(V, nat), DecodeError>,
    depth: nat,
    e: (K, V),
    s: Seq<u8>,
)
    ensures
        entry_field(ks, vs, depth, e, s) matches Ok((_, n)) ==> n >= 1,
{
    lemma_decode_key_bounds(s);
}

/// A step that consumes `field` at the front moves a length-delimited run
/// on to what follows it.
proof fn lemma_run_field<T>(
    step: spec_fn(T, Seq<u8>) -> Result<(T, nat), DecodeError>,
    t: T,
    t2: T,
    field: Seq<u8>,
    rest: Seq<u8>,
    limit: nat,
)
    requires
        field.len() > 0,
        rest.len() >= limit,
        step(t, field + rest) == Ok::<(T, nat), DecodeError>((t2, field.len())),
    ensures
        run_until(step, t, field + rest, limit) == run_until(step, t2, rest, limit),
{
    assert((field + rest).skip(field.len() as int) =~= rest);
}

/// The bytes an entry holds for a key or value: nothing for the default,
/// else what its codec writes for field `field`.
pub open spec fn present_bytes<T: MapValue>(
    spec: spec_fn(u32, T) -> Seq<u8>,
    field: u32,
    default: T,
    x: T,
) -> Seq<u8> {
    if x.same(&default) {
        Seq::empty()
    } else {
        spec(field, x)
    }
}

/// The fields of an entry decode to its key and value, or to the defaults
/// that the entry leaves out.
proof fn lemma_entry_fields_roundtrip<K: MapValue, V: MapValue>(
    ks: spec_fn(WireType, K, Seq<u8>, nat) -> Result<(K, nat), DecodeError>,
    vs: spec_fn(WireType, V, Seq<u8>, nat) -> Result<(V, nat), DecodeError>,
    key_spec: spec_fn(u32, K) -> Seq<u8>,
    val_spec: spec_fn(u32, V) -> Seq<u8>,
    key_default: K,
    val_default: V,
    key: K,
    val: V,
    rest: Seq<u8>,
    depth: nat,
)
    requires
        forall|x: K, e: (K, V), r: Seq<u8>|
            #[trigger] entry_field(ks, vs, depth, e, key_spec(1u32, x) + r) == Ok::<
                ((K, V), nat),
                DecodeError,
            >(((x, e.1), key_spec(1u32, x).len())),
        forall|y: V, e: (K, V), r: Seq<u8>|
            #[trigger] entry_field(ks, vs, depth, e, val_spec(2u32, y) + r) == Ok::<
                ((K, V), nat),
                DecodeError,
            >(((e.0, y), val_spec(2u32, y).len())),
    ensures
        run_until(
            entry_step(ks, vs, depth),
            (key_default, val_default),
            present_bytes(key_spec, 1u32, key_default, key) + present_bytes(
                val_spec,
                2u32,
                val_default,
                val,
            ) + rest,
            rest.len(),
        ) == Ok::<((K, V), Seq<u8>), DecodeError>(
            ((
                    if key.same(&key_default) {
                        key_default
                    } else {
                        key
                    },
                    if val.same(&val_default) {
                        val_default
                    } else {
                        val
                    },
                ), rest),
        ),
{
    let kb = present_bytes(key_spec, 1u32, key_default, key);
    let vb = present_bytes(val_spec, 2u32, val_default, val);
    let step = entry_step(ks, vs, depth);
    let k1 = if key.same(&key_default) {
        key_default
    } else {
        key
    };
    let v1 = if val.same(&val_default) {
        val_default
    } else {
        val
    };
    let after_key = vb + rest;
    if !key.same(&key_default) {
        assert(kb + vb + rest =~= key_spec(1u32, key) + after_key);
        assert(step((key_default, val_default), kb + vb + rest) == entry_field(
            ks,
            vs,
            depth,
            (key_default, val_default),
            key_spec(1u32, key) + after_key,
        ));
        lemma_entry_field_progress(ks, vs, depth, (key_default, val_default), kb + vb + rest);
        lemma_run_field(step, (key_default, val_default), (k1, val_default), kb, after_key, rest.len());
    } else {
        assert(kb + vb + rest =~= after_key);
    }
    if !val.same(&val_default) {
        assert(after_key =~= val_spec(2u32, val) + rest);
        assert(step((k1, val_default), after_key) == entry_field(
            ks,
            vs,
            depth,
            (k1, val_default),
            val_spec(2u32, val) + rest,
        ));
        lemma_entry_field_progress(ks, vs, depth, (k1, val_default), after_key);
        lemma_run_field(step, (k1, val_default), (k1, v1), vb, rest, rest.len());
    } else {
        assert(after_key =~= rest);
    }
}

/// After the key of a map field, the body of an entry that
/// `encode_with_defaults` writes for `key` and `val` decodes, by the field
/// decoders `ks` and `vs`, to the key and the value, or to the default
/// where the entry leaves one out, with `rest` left over; provided that
/// decoding the field each codec writes gives back what it wrote.
pub proof fn lemma_map_entry_roundtrip<K: MapValue, V: MapValue>(
    ks: spec_fn(WireType, K, Seq<u8>, nat) -> Result<(K, nat), DecodeError>,
    vs: spec_fn(WireType, V, Seq<u8>, nat) -> Result<(V, nat), DecodeError>,
    key_spec: spec_fn(u32, K) -> Seq<u8>,
    val_spec: spec_fn(u32, V) -> Seq<u8>,
    key_default: K,
    val_default: V,
    tag: u32,
    key: K,
    val: V,
    rest: Seq<u8>,
    depth: nat,
)
    requires
        valid_tag(tag),
        forall|x: K, e: (K, V), r: Seq<u8>|
            #[trigger] entry_field(ks, vs, depth, e, key_spec(1u32, x) + r) == Ok::<
                ((K, V), nat),
                DecodeError,
            >(((x, e.1), key_spec(1u32, x).len())),
        forall|y: V, e: (K, V), r: Seq<u8>|
            #[trigger] entry_field(ks, vs, depth, e, val_spec(2u32, y) + r) == Ok::<
                ((K, V), nat),
                DecodeError,
            >(((e.0, y), val_spec(2u32, y).len())),
        key_spec(1u32, key).len() + val_spec(2u32, val).len() <= u64::MAX,
    ensures
        ({
            let e = spec_map_entry(key_spec, val_spec, key_default, val_default, tag, key, val) + rest;
            let k = spec_encode_key(tag, WireType::LengthDelimited).len();
            &&& spec_decode_key(e) == Ok::<(u32, WireType, nat), DecodeError>(
                (tag, WireType::LengthDelimited, k),
            )
            &&& run_delimited(entry_step(ks, vs, depth), (key_default, val_default), e.skip(k as int))
                == Ok::<((K, V), Seq<u8>), DecodeError>(
                ((
                    if key.same(&key_default) {
                        key_default
                    } else {
                        key
                    },
                    if val.same(&val_default) {
                        val_default
                    } else {
                        val
                    },
                ), rest),
            )
        }),
{
    let kb = present_bytes(key_spec, 1u32, key_default, key);
    let vb = present_bytes(val_spec, 2u32, val_default, val);
    let len = kb.len() + vb.len();
    let head = spec_encode_key(tag, WireType::LengthDelimited);
    let prefix = spec_varint(len);
    let e = spec_map_entry(key_spec, val_spec, key_default, val_default, tag, key, val) + rest;
    assert(e =~= head + (prefix + (kb + vb + rest)));
    lemma_decode_encode_key(tag, WireType::LengthDelimited, prefix + (kb + vb + rest));
    let body = e.skip(head.len() as int);
    assert(body =~= prefix + (kb + vb + rest));
    lemma_decode_encode_varint(len as u64, kb + vb + rest);
    assert(body.skip(prefix.len() as int) =~= kb + vb + rest);
    lemma_entry_fields_roundtrip(
        ks,
        vs,
        key_spec,
        val_spec,
        key_default,
        val_default,
        key,
        val,
        rest,
        depth,
    );
}

/// Whether a decode step that succeeded consumed a front part of the buffer,
/// possibly nothing.
pub open spec fn consumes_front(before: Seq<u8>, after: Seq<u8>) -> bool {
    &&& after.len() <= before.len()
    &&& after == before.skip(before.len() - after.len())
}

/// Decodes one field of a map entry into `e`: its key, then the key by
/// `km` with tag 1, the value by `vm` with tag 2, and a skipped field
/// otherwise, each called with `c`.
#[verifier::rlimit(40)]
pub(crate) fn merge_entry_field<'arena, K, V, KM, VM>(
    km: &KM,
    vm: &VM,
    entry: &mut (K, V),
    buf: &mut &[u8],
    arena: &'arena Arena,
    ctx: DecodeContext,
) -> (res: Result<(), DecodeError>) where
    KM: Fn(WireType, &mut K, &mut &[u8], &'arena Arena, DecodeContext) -> Result<(), DecodeError>,
    VM: Fn(WireType, &mut V, &mut &[u8], &'arena Arena, DecodeContext) -> Result<(), DecodeError>,

    requires
        forall|w: WireType, x: &mut K, bb: &mut &[u8], a: &'arena Arena, cc: DecodeContext|
            km.requires((w, x, bb, a, cc)),
        forall|w: WireType, x: &mut V, bb: &mut &[u8], a: &'arena Arena, cc: DecodeContext|
            vm.requires((w, x, bb, a, cc)),
        forall|
            w: WireType,
            x: &mut K,
            bb: &mut &[u8],
            a: &'arena Arena,
            cc: DecodeContext,
            rr: Result<(), DecodeError>,
        | #[trigger] km.ensures((w, x, bb, a, cc), rr) ==> (rr is Ok ==> consumes_front(
            (*bb)@,
            final(bb)@,
        )),
        forall|
            w: WireType,
            x: &mut V,
            bb: &mut &[u8],
            a: &'arena Arena,
            cc: DecodeContext,
            rr: Result<(), DecodeError>,
        | #[trigger] vm.ensures((w, x, bb, a, cc), rr) ==> (rr is Ok ==> consumes_front(
            (*bb)@,
            final(bb)@,
        )),
    ensures
        res is Ok ==> consumes_some(old(buf)@, final(buf)@),
        forall|
            ks: spec_fn(WireType, K, Seq<u8>, nat) -> Result<(K, nat), DecodeError>,
            vs: spec_fn(WireType, V, Seq<u8>, nat) -> Result<(V, nat), DecodeError>,
        |
            #![trigger entry_field(ks, vs, ctx.budget(), *old(entry), old(buf)@)]
            (forall|w: WireType, x: &mut K, bb: &mut &[u8], a: &'arena Arena, cc: DecodeContext, rr: Result<
            (),
            DecodeError,
        >| #[trigger] km.ensures((w, x, bb, a, cc), rr) ==> match ks(w, *x, (*bb)@, cc.budget()) {
            Ok((k, n)) => rr is Ok && *final(x) == k && n <= (*bb)@.len() && final(bb)@ == (*bb)@.skip(
                n as int,
            ),
            Err(e) => rr == Err::<(), DecodeError>(e),
        }) && (forall|w: WireType, x: &mut V, bb: &mut &[u8], a: &'arena Arena, cc: DecodeContext, rr: Result<
            (),
            DecodeError,
        >| #[trigger] vm.ensures((w, x, bb, a, cc), rr) ==> match vs(w, *x, (*bb)@, cc.budget()) {
            Ok((k, n)) => rr is Ok && *final(x) == k && n <= (*bb)@.len() && final(bb)@ == (*bb)@.skip(
                n as int,
            ),
            Err(e) => rr == Err::<(), DecodeError>(e),
        }) ==> match entry_field(ks, vs, ctx.budget(), *old(entry), old(buf)@) {
                Ok((t, n)) => res is Ok && *final(entry) == t && n <= old(buf)@.len() && final(buf)@
                    == old(buf)@.skip(n as int),
                Err(x) => res == Err::<(), DecodeError>(x),
            },
{
    let ghost b0 = (*buf)@;
    let ghost e0 = *entry;
    proof {
        lemma_decode_key_bounds(b0);
    }
    let (tag, wire_type) = match decode_key(buf) {
        Ok(k) => k,
        Err(err) => return Err(err),
    };
    let ghost b1 = (*buf)@;
    let ghost k = (b0.len() - b1.len()) as nat;
    assert(b1 =~= b0.skip(k as int));
    if tag == 1 {
        let res = km(wire_type, &mut entry.0, buf, arena, ctx);
        proof {
            if res is Ok {
                assert((*buf)@ =~= b0.skip(b0.len() - (*buf)@.len()));
            }
        }
        res
    } else if tag == 2 {
        let res = vm(wire_type, &mut entry.1, buf, arena, ctx);
        proof {
            if res is Ok {
                assert((*buf)@ =~= b0.skip(b0.len() - (*buf)@.len()));
            }
        }
        res
    } else {
        proof {
            lemma_skip_bounds(wire_type, tag, b1, ctx.budget());
        }
        let res = skip_field(wire_type, tag, buf, ctx);
        proof {
            if res is Ok {
                assert((*buf)@ =~= b0.skip(b0.len() - (*buf)@.len()));
                let n = (b1.len() - (*buf)@.len()) as nat;
                assert(b0.skip((k + n) as int) =~= (*buf)@);
            }
        }
        res
    }
}
/// Decodes one map entry and appends it to `values`: the key from field 1
/// and the value from field 2 of the length-delimited entry, each starting
/// from its default; other fields are skipped.
///
/// Fails once the recursion limit is reached, on a malformed or overlong
/// length, on a malformed key or field, with the first error of the two merge
/// functions, or when a field runs past the entry. On success the entry's
/// bytes are consumed and one entry is appended; on failure `values` is as it
/// was. The merge functions are called one recursion level deeper; where
/// `ks` and `vs` say what they do, the result is that of running
/// `entry_field` over the entry.
#[verifier::rlimit(80)]
pub fn merge_with_defaults<'arena, K, V, KM, VM>(
    key_merge: KM,
    val_merge: VM,
    key_default: K,
    val_default: V,
    values: &mut Vec<(K, V)>,
    buf: &mut &[u8],
    arena: &'arena Arena,
    ctx: DecodeContext,
) -> (r: Result<(), DecodeError>) where
    KM: Fn(WireType, &mut K, &mut &[u8], &'arena Arena, DecodeContext) -> Result<(), DecodeError>,
    VM: Fn(WireType, &mut V, &mut &[u8], &'arena Arena, DecodeContext) -> Result<(), DecodeError>,

    requires
        forall|w: WireType, x: &mut K, b: &mut &[u8], a: &'arena Arena, c: DecodeContext|
            key_merge.requires((w, x, b, a, c)),
        forall|w: WireType, x: &mut V, b: &mut &[u8], a: &'arena Arena, c: DecodeContext|
            val_merge.requires((w, x, b, a, c)),
        forall|
            w: WireType,
            x: &mut K,
            b: &mut &[u8],
            a: &'arena Arena,
            c: DecodeContext,
            res: Result<(), DecodeError>,
        | #[trigger] key_merge.ensures((w, x, b, a, c), res) ==> (res is Ok ==> consumes_front(
            (*b)@,
            final(b)@,
        )),
        forall|
            w: WireType,
            x: &mut V,
            b: &mut &[u8],
            a: &'arena Arena,
            c: DecodeContext,
            res: Result<(), DecodeError>,
        | #[trigger] val_merge.ensures((w, x, b, a, c), res) ==> (res is Ok ==> consumes_front(
            (*b)@,
            final(b)@,
        )),
    ensures
        ctx.budget() == 0 ==> r == Err::<(), DecodeError>(DecodeError::RecursionLimitReached),
        ctx.budget() > 0 && spec_decode_varint(old(buf)@) is None ==> r == Err::<(), DecodeError>(
            DecodeError::InvalidVarint,
        ),
        ctx.budget() > 0 && (spec_decode_varint(old(buf)@) matches Some((len, n)) && len > old(
            buf,
        )@.len() - n) ==> r == Err::<(), DecodeError>(DecodeError::BufferUnderflow),
        r is Ok ==> (spec_decode_varint(old(buf)@) matches Some((len, n)) && n + len <= old(
            buf,
        )@.len() && final(buf)@ == old(buf)@.skip(n + len)) && final(values)@.len() == old(
            values,
        )@.len() + 1 && final(values)@.drop_last() == old(values)@,
        r is Err ==> final(values)@ == old(values)@,
        ctx.budget() > 0 && (spec_decode_varint(old(buf)@) matches Some((len, n)) && len == 0)
            ==> r is Ok && final(values)@ == old(values)@.push((key_default, val_default)),
        ctx.budget() == 0 ==> final(buf)@ == old(buf)@,
        forall|
            ks: spec_fn(WireType, K, Seq<u8>, nat) -> Result<(K, nat), DecodeError>,
            vs: spec_fn(WireType, V, Seq<u8>, nat) -> Result<(V, nat), DecodeError>,
        |
            #![trigger entry_step(ks, vs, (ctx.budget() - 1) as nat)]
            ctx.budget() > 0 && (forall|w: WireType, x: &mut K, b: &mut &[u8], a: &'arena Arena, c: DecodeContext, res: Result<
                (),
                DecodeError,
            >| #[trigger] key_merge.ensures((w, x, b, a, c), res) ==> match ks(w, *x, (*b)@, c.budget()) {
                Ok((k, n)) => res is Ok && *final(x) == k && n <= (*b)@.len() && final(b)@ == (*b)@.skip(
                    n as int,
                ),
                Err(e) => res == Err::<(), DecodeError>(e),
            }) && (forall|w: WireType, x: &mut V, b: &mut &[u8], a: &'arena Arena, c: DecodeContext, res: Result<
                (),
                DecodeError,
            >| #[trigger] val_merge.ensures((w, x, b, a, c), res) ==> match vs(w, *x, (*b)@, c.budget()) {
                Ok((k, n)) => res is Ok && *final(x) == k && n <= (*b)@.len() && final(b)@ == (*b)@.skip(
                    n as int,
                ),
                Err(e) => res == Err::<(), DecodeError>(e),
            }) ==> match run_delimited(
                entry_step(ks, vs, (ctx.budget() - 1) as nat),
                (key_default, val_default),
                old(buf)@,
            ) {
                Ok((e, rest)) => r is Ok && final(values)@ == old(values)@.push(e) && final(buf)@
                    == rest,
                Err(e) => r == Err::<(), DecodeError>(e) && final(values)@ == old(values)@,
            },
{
    match ctx.limit_reached() {
        Ok(()) => {},
        Err(e) => return Err(e),
    }
    let inner = ctx.enter_recursion();
    let mut entry: (K, V) = (key_default, val_default);
    let ghost s0 = (*buf)@;
    proof {
        lemma_decode_varint_bounds(s0);
    }
    let len = match decode_varint(buf) {
        Ok(l) => l,
        Err(e) => return Err(e),
    };
    let remaining = buf.len();
    if len > remaining as u64 {
        return Err(DecodeError::BufferUnderflow);
    }
    let limit = remaining - len as usize;
    assert(buf@ == s0.skip(s0.len() - buf@.len()));
    assert(s0.skip((s0.len() - remaining) as int) == buf@);
    while buf.len() > limit
        invariant
            forall|w: WireType, x: &mut K, b: &mut &[u8], a: &'arena Arena, c: DecodeContext|
                key_merge.requires((w, x, b, a, c)),
            forall|w: WireType, x: &mut V, b: &mut &[u8], a: &'arena Arena, c: DecodeContext|
                val_merge.requires((w, x, b, a, c)),
            forall|w: WireType, x: &mut K, b: &mut &[u8], a: &'arena Arena, c: DecodeContext, res: Result<(), DecodeError>|
                #[trigger] key_merge.ensures((w, x, b, a, c), res) ==> (res is Ok ==> consumes_front((*b)@, final(b)@)),
            forall|w: WireType, x: &mut V, b: &mut &[u8], a: &'arena Arena, c: DecodeContext, res: Result<(), DecodeError>|
                #[trigger] val_merge.ensures((w, x, b, a, c), res) ==> (res is Ok ==> consumes_front((*b)@, final(b)@)),
            buf@.len() <= s0.len(),
            buf@ == s0.skip(s0.len() - buf@.len()),
            s0 == old(buf)@,
            remaining <= s0.len(),
            len <= remaining,
            limit == remaining - len,
            buf@.len() <= remaining,
            inner.budget() == ctx.budget() - 1,
            len == 0 ==> buf@.len() == remaining && entry == (key_default, val_default),
            spec_decode_varint(s0) == Some((len, (s0.len() - remaining) as nat)),
            forall|
                ks: spec_fn(WireType, K, Seq<u8>, nat) -> Result<(K, nat), DecodeError>,
                vs: spec_fn(WireType, V, Seq<u8>, nat) -> Result<(V, nat), DecodeError>,
            |
                #![trigger entry_step(ks, vs, (ctx.budget() - 1) as nat)]
                (forall|w: WireType, x: &mut K, b: &mut &[u8], a: &'arena Arena, c: DecodeContext, res: Result<
                (),
                DecodeError,
            >| #[trigger] key_merge.ensures((w, x, b, a, c), res) ==> match ks(w, *x, (*b)@, c.budget()) {
                Ok((k, n)) => res is Ok && *final(x) == k && n <= (*b)@.len() && final(b)@ == (*b)@.skip(
                    n as int,
                ),
                Err(e) => res == Err::<(), DecodeError>(e),
            }) && (forall|w: WireType, x: &mut V, b: &mut &[u8], a: &'arena Arena, c: DecodeContext, res: Result<
                (),
                DecodeError,
            >| #[trigger] val_merge.ensures((w, x, b, a, c), res) ==> match vs(w, *x, (*b)@, c.budget()) {
                Ok((k, n)) => res is Ok && *final(x) == k && n <= (*b)@.len() && final(b)@ == (*b)@.skip(
                    n as int,
                ),
                Err(e) => res == Err::<(), DecodeError>(e),
            }) ==> run_delimited(
                entry_step(ks, vs, (ctx.budget() - 1) as nat),
                (key_default, val_default),
                s0,
            ) == run_until(entry_step(ks, vs, (ctx.budget() - 1) as nat), entry, buf@, limit as nat),
        decreases buf@.len(),
    {
        let ghost b0 = buf@;
        let ghost e0 = entry;
        let res = merge_entry_field(&key_merge, &val_merge, &mut entry, buf, arena, inner);
        match res {
            Ok(()) => {},
            Err(e) => {
                proof {
                    assert forall|
                        ks: spec_fn(WireType, K, Seq<u8>, nat) -> Result<(K, nat), DecodeError>,
                        vs: spec_fn(WireType, V, Seq<u8>, nat) -> Result<(V, nat), DecodeError>,
                    | #![trigger entry_step(ks, vs, (ctx.budget() - 1) as nat)]
                        (forall|w: WireType, x: &mut K, b: &mut &[u8], a: &'arena Arena, c: DecodeContext, res: Result<
                (),
                DecodeError,
            >| #[trigger] key_merge.ensures((w, x, b, a, c), res) ==> match ks(w, *x, (*b)@, c.budget()) {
                Ok((k, n)) => res is Ok && *final(x) == k && n <= (*b)@.len() && final(b)@ == (*b)@.skip(
                    n as int,
                ),
                Err(e) => res == Err::<(), DecodeError>(e),
            }) && (forall|w: WireType, x: &mut V, b: &mut &[u8], a: &'arena Arena, c: DecodeContext, res: Result<
                (),
                DecodeError,
            >| #[trigger] val_merge.ensures((w, x, b, a, c), res) ==> match vs(w, *x, (*b)@, c.budget()) {
                Ok((k, n)) => res is Ok && *final(x) == k && n <= (*b)@.len() && final(b)@ == (*b)@.skip(
                    n as int,
                ),
                Err(e) => res == Err::<(), DecodeError>(e),
            }) implies run_delimited(
                        entry_step(ks, vs, (ctx.budget() - 1) as nat),
                        (key_default, val_default),
                        s0,
                    ) == Err::<((K, V), Seq<u8>), DecodeError>(e) by {
                        assert(entry_step(ks, vs, inner.budget())(e0, b0) == entry_field(ks, vs, inner.budget(), e0, b0));
                    }
                }
                return Err(e);
            },
        }
        assert(buf@ =~= s0.skip(s0.len() - buf@.len()));
        assert forall|
            ks: spec_fn(WireType, K, Seq<u8>, nat) -> Result<(K, nat), DecodeError>,
            vs: spec_fn(WireType, V, Seq<u8>, nat) -> Result<(V, nat), DecodeError>,
        | #![trigger entry_step(ks, vs, (ctx.budget() - 1) as nat)]
            (forall|w: WireType, x: &mut K, b: &mut &[u8], a: &'arena Arena, c: DecodeContext, res: Result<
                (),
                DecodeError,
            >| #[trigger] key_merge.ensures((w, x, b, a, c), res) ==> match ks(w, *x, (*b)@, c.budget()) {
                Ok((k, n)) => res is Ok && *final(x) == k && n <= (*b)@.len() && final(b)@ == (*b)@.skip(
                    n as int,
                ),
                Err(e) => res == Err::<(), DecodeError>(e),
            }) && (forall|w: WireType, x: &mut V, b: &mut &[u8], a: &'arena Arena, c: DecodeContext, res: Result<
                (),
                DecodeError,
            >| #[trigger] val_merge.ensures((w, x, b, a, c), res) ==> match vs(w, *x, (*b)@, c.budget()) {
                Ok((k, n)) => res is Ok && *final(x) == k && n <= (*b)@.len() && final(b)@ == (*b)@.skip(
                    n as int,
                ),
                Err(e) => res == Err::<(), DecodeError>(e),
            }) implies run_delimited(
            entry_step(ks, vs, (ctx.budget() - 1) as nat),
            (key_default, val_default),
            s0,
        ) == run_until(entry_step(ks, vs, (ctx.budget() - 1) as nat), entry, buf@, limit as nat) by {
            assert(entry_step(ks, vs, inner.budget())(e0, b0) == entry_field(ks, vs, inner.budget(), e0, b0));
        }
    }
    if buf.len() != limit {
        return Err(DecodeError::DelimitedLengthExceeded);
    }
    values.push(entry);
    assert(values@.drop_last() =~= old(values)@);
    Ok(())
}

} // verus!
