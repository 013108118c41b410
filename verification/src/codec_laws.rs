//! What each numeric codec writes for a value, stated by arithmetic on the
//! value: the number a varint field carries and the bits a fixed-width
//! field carries.
use vstd::prelude::*;

use crate::buf::{pow256, spec_le_bytes};
use crate::encoding::spec_encode_key;
use crate::scalar::{spec_fixed_field, spec_varint_field};
use crate::varint::{pow128, spec_varint};
use crate::wire_type::WireType;
use crate::scalar::{
    BoolCodec, FixedScalar, Fixed32Codec, Fixed64Codec, Int32Codec, Int64Codec, Sfixed32Codec,
    Sfixed64Codec, Sint32Codec, Sint64Codec, Uint32Codec, Uint64Codec, VarintScalar,
};

verus! {

/// `sint64` writes values in zigzag order, so that small magnitudes of
/// either sign take few bytes: 0, -1, 1, -2, 2, ... become 0, 1, 2, 3, 4, ...
pub proof fn law_sint64_to_wire(v: i64)
    ensures
        Sint64Codec::spec_to_wire(v) as int == if v >= 0 {
            2 * v
        } else {
            -2 * v - 1
        },
{
    assert(v >= 0 ==> ((v << 1u64) ^ (v >> 63u64)) as u64 == (v as u64) * 2u64) by (bit_vector);
    assert(v < 0 ==> ((v << 1u64) ^ (v >> 63u64)) as u64 == (!(v as u64)) * 2u64 + 1u64)
        by (bit_vector);
    assert(v < 0 ==> (!(v as u64)) as int == -1 - v) by (bit_vector);
}

/// `sint64` reads a number in zigzag order: an even number `2k` is `k`, an
/// odd number `2k + 1` is `-k - 1`.
pub proof fn law_sint64_from_wire(w: u64)
    ensures
        Sint64Codec::spec_from_wire(w) as int == if w % 2 == 0 {
            (w / 2) as int
        } else {
            -(w / 2) - 1
        },
{
    assert(w % 2 == 0 ==> (((w >> 1u64) as i64) ^ (-((w & 1u64) as i64)) as i64) as int == (w / 2u64)
        as int) by (bit_vector);
    assert(w % 2 == 1 ==> (((w >> 1u64) as i64) ^ (-((w & 1u64) as i64)) as i64) as int == -((w
        / 2u64) as int) - 1) by (bit_vector);
}

/// `sint32` writes values in zigzag order: 0, -1, 1, -2, 2, ... become
/// 0, 1, 2, 3, 4, ...
pub proof fn law_sint32_to_wire(v: i32)
    ensures
        Sint32Codec::spec_to_wire(v) as int == if v >= 0 {
            2 * v
        } else {
            -2 * v - 1
        },
{
    assert(v >= 0 ==> ((((v << 1u32) ^ (v >> 31u32)) as u32) as u64) as int == 2 * (v as int))
        by (bit_vector);
    assert(v < 0 ==> ((((v << 1u32) ^ (v >> 31u32)) as u32) as u64) as int == -2 * (v as int) - 1)
        by (bit_vector);
}

/// `sint32` reads the low 32 bits of a number in zigzag order: an even
/// number `2k` is `k`, an odd number `2k + 1` is `-k - 1`.
pub proof fn law_sint32_from_wire(w: u64)
    ensures
        ({
            let x = w % 0x1_0000_0000;
            Sint32Codec::spec_from_wire(w) as int == if x % 2 == 0 {
                (x / 2) as int
            } else {
                -(x / 2) - 1
            }
        }),
{
    let value = w as u32;
    assert((w as u32) as int == w % 0x1_0000_0000) by (bit_vector);
    assert(value % 2 == 0 ==> (((value >> 1u32) as i32) ^ (-((value & 1u32) as i32)) as i32) as int
        == (value / 2u32) as int) by (bit_vector);
    assert(value % 2 == 1 ==> (((value >> 1u32) as i32) ^ (-((value & 1u32) as i32)) as i32) as int
        == -((value / 2u32) as int) - 1) by (bit_vector);
}

/// `int32` writes a value as the 64-bit two's complement number of its
/// sign extension: non-negative values as they are, negative ones plus
/// `2^64`.
pub proof fn law_int32_to_wire(v: i32)
    ensures
        Int32Codec::spec_to_wire(v) as int == if v >= 0 {
            v as int
        } else {
            v + 0x1_0000_0000_0000_0000
        },
{
    assert(v >= 0 ==> (v as u64) as int == v as int) by (bit_vector);
    assert(v < 0 ==> (v as u64) as int == (v as int) + 0x1_0000_0000_0000_0000) by (bit_vector);
}

/// `int32` reads the low 32 bits of a number as two's complement.
pub proof fn law_int32_from_wire(w: u64)
    ensures
        ({
            let x = w % 0x1_0000_0000;
            Int32Codec::spec_from_wire(w) as int == if x < 0x8000_0000 {
                x as int
            } else {
                x - 0x1_0000_0000
            }
        }),
{
    assert((w % 0x1_0000_0000) < 0x8000_0000 ==> (w as i32) as int == (w % 0x1_0000_0000) as int)
        by (bit_vector);
    assert((w % 0x1_0000_0000) >= 0x8000_0000 ==> (w as i32) as int == (w % 0x1_0000_0000) as int
        - 0x1_0000_0000) by (bit_vector);
}

/// `int64` writes a value as its 64-bit two's complement number.
pub proof fn law_int64_to_wire(v: i64)
    ensures
        Int64Codec::spec_to_wire(v) as int == if v >= 0 {
            v as int
        } else {
            v + 0x1_0000_0000_0000_0000
        },
{
    assert(v >= 0 ==> (v as u64) as int == v as int) by (bit_vector);
    assert(v < 0 ==> (v as u64) as int == (v as int) + 0x1_0000_0000_0000_0000) by (bit_vector);
}

/// `int64` reads a number as 64-bit two's complement.
pub proof fn law_int64_from_wire(w: u64)
    ensures
        Int64Codec::spec_from_wire(w) as int == if w < 0x8000_0000_0000_0000 {
            w as int
        } else {
            w - 0x1_0000_0000_0000_0000
        },
{
    assert(w < 0x8000_0000_0000_0000 ==> (w as i64) as int == w as int) by (bit_vector);
    assert(w >= 0x8000_0000_0000_0000 ==> (w as i64) as int == (w as int) - 0x1_0000_0000_0000_0000)
        by (bit_vector);
}

/// `uint32` writes a value as it is.
pub proof fn law_uint32_to_wire(v: u32)
    ensures
        Uint32Codec::spec_to_wire(v) as int == v as int,
{
}

/// `uint32` reads the low 32 bits of a number.
pub proof fn law_uint32_from_wire(w: u64)
    ensures
        Uint32Codec::spec_from_wire(w) as int == w % 0x1_0000_0000,
{
    assert((w as u32) as int == w % 0x1_0000_0000) by (bit_vector);
}

/// `uint64` writes and reads a number as it is.
pub proof fn law_uint64_wire(v: u64, w: u64)
    ensures
        Uint64Codec::spec_to_wire(v) == v,
        Uint64Codec::spec_from_wire(w) == w,
{
}

/// `bool` writes `true` as 1 and `false` as 0, and reads any number but 0
/// as `true`.
pub proof fn law_bool_wire(v: bool, w: u64)
    ensures
        BoolCodec::spec_to_wire(v) == if v {
            1u64
        } else {
            0u64
        },
        BoolCodec::spec_from_wire(w) == (w != 0),
{
}

/// `fixed32` writes four bytes holding the value, and reads them back.
pub proof fn law_fixed32_bits(v: u32, b: nat)
    requires
        b < 0x1_0000_0000,
    ensures
        Fixed32Codec::width() == 4,
        Fixed32Codec::spec_bits(v) == v as nat,
        Fixed32Codec::spec_from_bits(b) as nat == b,
{
}

/// `fixed64` writes eight bytes holding the value, and reads them back.
pub proof fn law_fixed64_bits(v: u64, b: nat)
    requires
        b < 0x1_0000_0000_0000_0000,
    ensures
        Fixed64Codec::width() == 8,
        Fixed64Codec::spec_bits(v) == v as nat,
        Fixed64Codec::spec_from_bits(b) as nat == b,
{
}

/// `sfixed32` writes four bytes holding the value's two's complement bits:
/// non-negative values as they are, negative ones plus `2^32`; it reads
/// numbers from `2^31` on as negative.
pub proof fn law_sfixed32_bits(v: i32, b: nat)
    requires
        b < 0x1_0000_0000,
    ensures
        Sfixed32Codec::width() == 4,
        Sfixed32Codec::spec_bits(v) == if v >= 0 {
            v as int
        } else {
            v + 0x1_0000_0000
        },
        Sfixed32Codec::spec_from_bits(b) as int == if b < 0x8000_0000 {
            b as int
        } else {
            b - 0x1_0000_0000
        },
{
    assert(v >= 0 ==> (v as u32) as int == v as int) by (bit_vector);
    assert(v < 0 ==> (v as u32) as int == (v as int) + 0x1_0000_0000) by (bit_vector);
    let x = b as u32;
    assert(x as nat == b);
    assert(x < 0x8000_0000 ==> (x as i32) as int == x as int) by (bit_vector);
    assert(x >= 0x8000_0000 ==> (x as i32) as int == (x as int) - 0x1_0000_0000) by (bit_vector);
}

/// `sfixed64` writes eight bytes holding the value's two's complement bits:
/// non-negative values as they are, negative ones plus `2^64`; it reads
/// numbers from `2^63` on as negative.
pub proof fn law_sfixed64_bits(v: i64, b: nat)
    requires
        b < 0x1_0000_0000_0000_0000,
    ensures
        Sfixed64Codec::width() == 8,
        Sfixed64Codec::spec_bits(v) == if v >= 0 {
            v as int
        } else {
            v + 0x1_0000_0000_0000_0000
        },
        Sfixed64Codec::spec_from_bits(b) as int == if b < 0x8000_0000_0000_0000 {
            b as int
        } else {
            b - 0x1_0000_0000_0000_0000
        },
{
    assert(v >= 0 ==> (v as u64) as int == v as int) by (bit_vector);
    assert(v < 0 ==> (v as u64) as int == (v as int) + 0x1_0000_0000_0000_0000) by (bit_vector);
    let x = b as u64;
    assert(x as nat == b);
    assert(x < 0x8000_0000_0000_0000 ==> (x as i64) as int == x as int) by (bit_vector);
    assert(x >= 0x8000_0000_0000_0000 ==> (x as i64) as int == (x as int) - 0x1_0000_0000_0000_0000)
        by (bit_vector);
}

/// Powers of 256 and of 128 are positive.
proof fn lemma_pows_positive(n: nat)
    ensures
        pow256(n) > 0,
        pow128(n) > 0,
    decreases n,
{
    if n > 0 {
        lemma_pows_positive((n - 1) as nat);
    }
}

/// A fixed-width value is written least significant byte first: byte `i`
/// of the `n` bytes of `v` is digit `i` of `v` in base 256.
pub proof fn law_le_bytes(v: nat, n: nat)
    ensures
        spec_le_bytes(v, n).len() == n,
        forall|i: int|
            0 <= i < n ==> #[trigger] spec_le_bytes(v, n)[i] as nat == (v / pow256(i as nat)) % 256,
    decreases n,
{
    reveal_with_fuel(pow256, 2);
    if n > 0 {
        law_le_bytes(v / 256, (n - 1) as nat);
        assert forall|i: int| 0 <= i < n implies #[trigger] spec_le_bytes(v, n)[i] as nat == (v
            / pow256(i as nat)) % 256 by {
            if i == 0 {
                assert(pow256(0) == 1);
                assert(v / 1 == v);
                assert(spec_le_bytes(v, n)[0] == (v % 256) as u8);
            } else {
                assert(spec_le_bytes(v, n)[i] == spec_le_bytes(v / 256, (n - 1) as nat)[i - 1]);
                assert(pow256(i as nat) == 256 * pow256((i - 1) as nat));
                lemma_pows_positive((i - 1) as nat);
                vstd::arithmetic::div_mod::lemma_div_denominator(v as int, 256, pow256((i - 1) as nat) as int);
            }
        }
    }
}

/// A varint is written in base 128, least significant digit first: byte
/// `i` holds digit `i` of the number, with the high bit set on every byte
/// but the last; it has as many bytes as the number has digits.
pub proof fn law_varint_digits(v: nat)
    ensures
        ({
            let s = spec_varint(v);
            &&& s.len() >= 1
            &&& v < pow128(s.len())
            &&& s.len() == 1 || v >= pow128((s.len() - 1) as nat)
            &&& forall|i: int|
                0 <= i < s.len() ==> #[trigger] s[i] as nat == (v / pow128(i as nat)) % 128 + if i
                    + 1 < s.len() {
                    128nat
                } else {
                    0nat
                }
        }),
    decreases v,
{
    reveal_with_fuel(pow128, 2);
    if v < 128 {
        assert(spec_varint(v)[0] as nat == v);
        assert(pow128(0) == 1);
        assert(v / 1 == v);
        assert(v % 128 == v);
    } else {
        law_varint_digits(v / 128);
        let s = spec_varint(v);
        let t = spec_varint(v / 128);
        assert(s =~= seq![(v % 128 + 128) as u8] + t);
        assert forall|i: int| 0 <= i < s.len() implies #[trigger] s[i] as nat == (v / pow128(
            i as nat,
        )) % 128 + if i + 1 < s.len() {
            128nat
        } else {
            0nat
        } by {
            if i == 0 {
                assert(pow128(0) == 1);
                assert(v / 1 == v);
                assert(s[0] == (v % 128 + 128) as u8);
                assert(t.len() >= 1);
            } else {
                assert(s[i] == t[i - 1]);
                assert(pow128(i as nat) == 128 * pow128((i - 1) as nat));
                lemma_pows_positive((i - 1) as nat);
                vstd::arithmetic::div_mod::lemma_div_denominator(v as int, 128, pow128((i - 1) as nat) as int);
            }
        }
        assert(pow128(s.len()) == 128 * pow128(t.len()));
        assert(pow128((s.len() - 1) as nat) == 128 * pow128((t.len() - 1) as nat)) by {
            if t.len() > 1 {
                assert(pow128((s.len() - 1) as nat) == 128 * pow128((s.len() - 2) as nat));
            }
        }
    }
}

/// The key of a field is its tag times eight plus the number of its wire
/// type: 0 varint, 1 sixty-four bits, 2 length-delimited, 3 start group, 4
/// end group, 5 thirty-two bits.
pub proof fn law_field_key(tag: u32, wt: WireType)
    ensures
        spec_encode_key(tag, wt) == spec_varint(tag as nat * 8 + match wt {
            WireType::Varint => 0nat,
            WireType::SixtyFourBit => 1nat,
            WireType::LengthDelimited => 2nat,
            WireType::StartGroup => 3nat,
            WireType::EndGroup => 4nat,
            WireType::ThirtyTwoBit => 5nat,
        }),
{
}

/// The fixed-width codecs use the wire type of their width: 32 bits for
/// `fixed32` and `sfixed32`, 64 bits for `fixed64` and `sfixed64`.
pub proof fn law_fixed_wire_types()
    ensures
        Fixed32Codec::wire_type() == WireType::ThirtyTwoBit,
        Sfixed32Codec::wire_type() == WireType::ThirtyTwoBit,
        Fixed64Codec::wire_type() == WireType::SixtyFourBit,
        Sfixed64Codec::wire_type() == WireType::SixtyFourBit,
{
}

/// A `sint64` field is its varint key followed by the varint of the value
/// in zigzag order.
pub proof fn law_sint64_field(tag: u32, v: i64)
    ensures
        spec_varint_field::<Sint64Codec>(tag, v) == spec_varint(tag as nat * 8) + spec_varint(
            (if v >= 0 {
                2 * v
            } else {
                -2 * v - 1
            }) as nat,
        ),
{
    law_sint64_to_wire(v);
}

/// An `sfixed64` field is its key with the 64-bit wire type followed by the
/// eight bytes of the value's two's complement bits, least significant
/// first.
pub proof fn law_sfixed64_field(tag: u32, v: i64)
    ensures
        spec_fixed_field::<Sfixed64Codec>(tag, v) == spec_varint(tag as nat * 8 + 1) + spec_le_bytes(
            (if v >= 0 {
                v as int
            } else {
                v + 0x1_0000_0000_0000_0000
            }) as nat,
            8,
        ),
{
    law_sfixed64_bits(v, 0);
}

} // verus!
