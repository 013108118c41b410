use vstd::prelude::*;

use crate::error::DecodeError;

verus! {

/// `128` raised to the power `n`.
pub open spec fn pow128(n: nat) -> nat
    decreases n,
{
    if n == 0 {
        1
    } else {
        128 * pow128((n - 1) as nat)
    }
}

/// The varint encoding of `v`: its base-128 digits, least significant first,
/// every digit but the last with the high bit set.
pub open spec fn spec_varint(v: nat) -> Seq<u8>
    decreases v,
{
    if v < 128 {
        seq![v as u8]
    } else {
        seq![(v % 128 + 128) as u8] + spec_varint(v / 128)
    }
}

/// Reads the base-128 digits at the front of `s`, at most `fuel` of them:
/// the value and the number of bytes read, or `None` when no byte below
/// `0x80` ends the number within `fuel` bytes.
pub open spec fn spec_varint_digits(s: Seq<u8>, fuel: nat) -> Option<(nat, nat)>
    decreases fuel,
{
    if fuel == 0 || s.len() == 0 {
        None
    } else if s[0] < 128 {
        Some((s[0] as nat, 1))
    } else {
        match spec_varint_digits(s.drop_first(), (fuel - 1) as nat) {
            Some((v, n)) => Some(((s[0] - 128) as nat + 128 * v, n + 1)),
            None => None,
        }
    }
}

/// The varint at the front of `s`: at most ten bytes whose value fits in
/// 64 bits; the value and the number of bytes it takes.
pub open spec fn spec_decode_varint(s: Seq<u8>) -> Option<(u64, nat)> {
    match spec_varint_digits(s, 10) {
        Some((v, n)) => if v <= u64::MAX {
            Some((v as u64, n))
        } else {
            None
        },
        None => None,
    }
}

/// The number of bytes in the varint encoding of `v`.
pub open spec fn spec_varint_len(v: nat) -> nat {
    spec_varint(v).len()
}

/// The encoding is one byte for values below 128, and one byte more than
/// the encoding of `v / 128` otherwise.
pub proof fn lemma_varint_len_step(v: nat)
    ensures
        v < 128 ==> spec_varint_len(v) == 1,
        v >= 128 ==> spec_varint_len(v) == 1 + spec_varint_len(v / 128),
        spec_varint_len(v) >= 1,
    decreases v,
{
    if v >= 128 {
        lemma_varint_len_step(v / 128);
    }
}

/// The encoding of `v` takes `k` bytes exactly when `v` has `k` base-128
/// digits.
pub proof fn lemma_varint_len_range(v: nat, k: nat)
    requires
        1 <= k,
        v < pow128(k),
        k == 1 || v >= pow128((k - 1) as nat),
    ensures
        spec_varint_len(v) == k,
    decreases k,
{
    lemma_varint_len_step(v);
    lemma_pow128_values();
    if k > 1 {
        let k1 = (k - 1) as nat;
        assert(v / 128 < pow128(k1)) by {
            assert(pow128(k) == 128 * pow128(k1));
            vstd::arithmetic::div_mod::lemma_div_by_multiple_is_strongly_ordered(
                v as int, pow128(k) as int, pow128(k1) as int, 128);
            vstd::arithmetic::div_mod::lemma_div_multiples_vanish(pow128(k1) as int, 128);
        }
        if k1 > 1 {
            let k2 = (k1 - 1) as nat;
            assert(v / 128 >= pow128(k2)) by {
                assert(pow128(k1) == 128 * pow128(k2));
                vstd::arithmetic::div_mod::lemma_div_is_ordered(
                    (128 * pow128(k2)) as int, v as int, 128);
                vstd::arithmetic::div_mod::lemma_div_multiples_vanish(pow128(k2) as int, 128);
            }
        } else {
            assert(v >= 128);
        }
        lemma_varint_len_range(v / 128, k1);
    }
}

/// The values of `pow128` up to ten digits.
pub proof fn lemma_pow128_values()
    ensures
        pow128(1) == 0x80,
        pow128(2) == 0x4000,
        pow128(3) == 0x20_0000,
        pow128(4) == 0x1000_0000,
        pow128(5) == 0x8_0000_0000,
        pow128(6) == 0x400_0000_0000,
        pow128(7) == 0x2_0000_0000_0000,
        pow128(8) == 0x100_0000_0000_0000,
        pow128(9) == 0x8000_0000_0000_0000,
        pow128(10) == 0x40_0000_0000_0000_0000,
{
    reveal_with_fuel(pow128, 11);
}

/// No 64-bit value takes more than ten bytes.
pub proof fn lemma_varint_len_le_10(v: u64)
    ensures
        1 <= spec_varint_len(v as nat) <= 10,
{
    lemma_pow128_values();
    let n = v as nat;
    if n < pow128(1) {
        lemma_varint_len_range(n, 1);
    } else if n < pow128(2) {
        lemma_varint_len_range(n, 2);
    } else if n < pow128(3) {
        lemma_varint_len_range(n, 3);
    } else if n < pow128(4) {
        lemma_varint_len_range(n, 4);
    } else if n < pow128(5) {
        lemma_varint_len_range(n, 5);
    } else if n < pow128(6) {
        lemma_varint_len_range(n, 6);
    } else if n < pow128(7) {
        lemma_varint_len_range(n, 7);
    } else if n < pow128(8) {
        lemma_varint_len_range(n, 8);
    } else if n < pow128(9) {
        lemma_varint_len_range(n, 9);
    } else {
        lemma_varint_len_range(n, 10);
    }
}

/// Reading digits back from an encoding gives the encoded value and its
/// length, whatever follows the encoding.
pub proof fn lemma_digits_of_encoding(v: nat, rest: Seq<u8>, fuel: nat)
    requires
        spec_varint_len(v) <= fuel,
    ensures
        spec_varint_digits(spec_varint(v) + rest, fuel) == Some((v, spec_varint_len(v))),
    decreases v,
{
    let s = spec_varint(v) + rest;
    lemma_varint_len_step(v);
    if v < 128 {
        assert(s[0] == v as u8);
    } else {
        let tail = spec_varint(v / 128);
        assert(s.drop_first() =~= tail + rest);
        lemma_digits_of_encoding(v / 128, rest, (fuel - 1) as nat);
        vstd::arithmetic::div_mod::lemma_fundamental_div_mod(v as int, 128);
        assert(s[0] == (v % 128 + 128) as u8);
    }
}

/// Decoding the varint encoding of a 64-bit value gives the value back and
/// consumes exactly the encoding.
pub proof fn lemma_decode_encode_varint(v: u64, rest: Seq<u8>)
    ensures
        spec_decode_varint(spec_varint(v as nat) + rest) == Some((v, spec_varint_len(v as nat))),
{
    lemma_varint_len_le_10(v);
    lemma_digits_of_encoding(v as nat, rest, 10);
}

/// Digits that are read stop at a byte below `0x80`, consume at least one
/// byte and at most `fuel`, and are less than `128` to the power of their
/// count.
pub proof fn lemma_digits_bounds(s: Seq<u8>, fuel: nat)
    ensures
        spec_varint_digits(s, fuel) matches Some((v, n)) ==> 1 <= n <= fuel && n <= s.len()
            && v < pow128(n),
    decreases fuel,
{
    lemma_pow128_values();
    if fuel > 0 && s.len() > 0 && s[0] >= 128 {
        lemma_digits_bounds(s.drop_first(), (fuel - 1) as nat);
        if let Some((v, n)) = spec_varint_digits(s.drop_first(), (fuel - 1) as nat) {
            assert(pow128(n + 1) == 128 * pow128(n));
        }
    }
}

/// A varint that decodes takes between one and ten bytes of the buffer.
pub proof fn lemma_decode_varint_bounds(s: Seq<u8>)
    ensures
        spec_decode_varint(s) matches Some((v, n)) ==> 1 <= n <= 10 && n <= s.len(),
{
    lemma_digits_bounds(s, 10);
}

/// Decoding looks only at the bytes of the varint itself.
pub proof fn lemma_digits_prefix(s: Seq<u8>, t: Seq<u8>, fuel: nat)
    requires
        spec_varint_digits(s, fuel) is Some,
    ensures
        spec_varint_digits(s + t, fuel) == spec_varint_digits(s, fuel),
    decreases fuel,
{
    if s[0] >= 128 {
        assert((s + t).drop_first() =~= s.drop_first() + t);
        lemma_digits_prefix(s.drop_first(), t, (fuel - 1) as nat);
    }
}

/// Reads the digits of `s` from index `i` on, at most `fuel` of them.
fn read_digits(s: &[u8], i: usize, fuel: usize) -> (r: Option<(u128, usize)>)
    requires
        i <= s@.len(),
        fuel <= 10,
    ensures
        match spec_varint_digits(s@.skip(i as int), fuel as nat) {
            Some((v, n)) => r == Some((v as u128, n as usize)),
            None => r is None,
        },
    decreases fuel,
{
    proof {
        lemma_digits_bounds(s@.skip(i as int), fuel as nat);
    }
    if fuel == 0 || i >= s.len() {
        return None;
    }
    let b = s[i];
    if b < 0x80 {
        Some((b as u128, 1))
    } else {
        assert(s@.skip(i as int).drop_first() =~= s@.skip(i + 1));
        proof {
            lemma_digits_bounds(s@.skip(i + 1), (fuel - 1) as nat);
            lemma_pow128_values();
            if fuel >= 2 {
                // `pow128` grows with its argument.
                lemma_pow128_mono((fuel - 1) as nat, 9);
            }
        }
        match read_digits(s, i + 1, fuel - 1) {
            Some((v, n)) => Some(((b - 0x80) as u128 + 128 * v, n + 1)),
            None => None,
        }
    }
}

/// `pow128` grows with its argument.
pub proof fn lemma_pow128_mono(a: nat, b: nat)
    requires
        a <= b,
    ensures
        pow128(a) <= pow128(b),
    decreases b,
{
    if a < b {
        lemma_pow128_mono(a, (b - 1) as nat);
    }
}

/// Encodes `value` as a varint at the end of `buf`.
pub fn encode_varint(value: u64, buf: &mut Vec<u8>)
    ensures
        final(buf)@ == old(buf)@ + spec_varint(value as nat),
{
    let mut v = value;
    while v >= 0x80
        invariant
            old(buf)@ + spec_varint(value as nat) == buf@ + spec_varint(v as nat),
        decreases v,
    {
        let byte = ((v & 0x7F) | 0x80) as u8;
        assert(((v & 0x7F) | 0x80) == v % 128 + 128) by (bit_vector)
            requires
                v >= 0x80,
        ;
        assert(v >> 7 == v / 128) by (bit_vector);
        let ghost before = buf@;
        buf.push(byte);
        assert(spec_varint(v as nat) == seq![byte] + spec_varint((v / 128) as nat));
        assert(before + spec_varint(v as nat) =~= buf@ + spec_varint((v >> 7) as nat));
        v = v >> 7;
    }
    buf.push(v as u8);
    assert(spec_varint(v as nat) == seq![v as u8]);
}

/// Decodes a varint from the front of `buf` and advances past it.
///
/// Fails, leaving `buf` as it was, when the buffer ends inside the varint,
/// when ten bytes pass without its end, or when its value does not fit in
/// 64 bits.
pub fn decode_varint(buf: &mut &[u8]) -> (r: Result<u64, DecodeError>)
    ensures
        match spec_decode_varint(old(buf)@) {
            Some((v, n)) => r == Ok::<u64, DecodeError>(v) && final(buf)@ == old(buf)@.skip(
                n as int,
            ),
            None => r == Err::<u64, DecodeError>(DecodeError::InvalidVarint) && final(buf)@
                == old(buf)@,
        },
{
    let s: &[u8] = *buf;
    assert(s@.skip(0) =~= s@);
    proof {
        lemma_digits_bounds(s@, 10);
        lemma_pow128_values();
        if let Some((v, n)) = spec_varint_digits(s@, 10) {
            lemma_pow128_mono(n, 10);
        }
    }
    match read_digits(s, 0, 10) {
        Some((v, n)) => {
            if v <= 0xFFFF_FFFF_FFFF_FFFF {
                *buf = &s[n..s.len()];
                assert(s@.subrange(n as int, s@.len() as int) =~= s@.skip(n as int));
                Ok(v as u64)
            } else {
                Err(DecodeError::InvalidVarint)
            }
        },
        None => Err(DecodeError::InvalidVarint),
    }
}

/// The number of bytes in the varint encoding of `value`, from 1 to 10.
pub fn encoded_len_varint(value: u64) -> (r: usize)
    ensures
        r == spec_varint_len(value as nat),
        1 <= r <= 10,
{
    proof {
        lemma_pow128_values();
        lemma_varint_len_le_10(value);
    }
    let ghost n = value as nat;
    if value < 0x80 {
        proof { lemma_varint_len_range(n, 1); }
        1
    } else if value < 0x4000 {
        proof { lemma_varint_len_range(n, 2); }
        2
    } else if value < 0x20_0000 {
        proof { lemma_varint_len_range(n, 3); }
        3
    } else if value < 0x1000_0000 {
        proof { lemma_varint_len_range(n, 4); }
        4
    } else if value < 0x8_0000_0000 {
        proof { lemma_varint_len_range(n, 5); }
        5
    } else if value < 0x400_0000_0000 {
        proof { lemma_varint_len_range(n, 6); }
        6
    } else if value < 0x2_0000_0000_0000 {
        proof { lemma_varint_len_range(n, 7); }
        7
    } else if value < 0x100_0000_0000_0000 {
        proof { lemma_varint_len_range(n, 8); }
        8
    } else if value < 0x8000_0000_0000_0000 {
        proof { lemma_varint_len_range(n, 9); }
        9
    } else {
        proof { lemma_varint_len_range(n, 10); }
        10
    }
}

} // verus!
