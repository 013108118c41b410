//! The byte-buffer operations of the `bytes` crate that the codecs use.
//!
//! Encoders append to a `Vec<u8>` through `bytes::BufMut`; decoders read from
//! the front of a `&[u8]` through `bytes::Buf`.
use vstd::prelude::*;

verus! {

/// `256` raised to the power `n`.
pub open spec fn pow256(n: nat) -> nat
    decreases n,
{
    if n == 0 {
        1
    } else {
        256 * pow256((n - 1) as nat)
    }
}

/// The `n` low bytes of `v`, least significant first.
pub open spec fn spec_le_bytes(v: nat, n: nat) -> Seq<u8>
    decreases n,
{
    if n == 0 {
        Seq::empty()
    } else {
        seq![(v % 256) as u8] + spec_le_bytes(v / 256, (n - 1) as nat)
    }
}

/// The number whose bytes, least significant first, are `s`.
pub open spec fn spec_le_value(s: Seq<u8>) -> nat
    decreases s.len(),
{
    if s.len() == 0 {
        0
    } else {
        s[0] as nat + 256 * spec_le_value(s.drop_first())
    }
}

/// The little-endian bytes of a value have the requested count and give
/// the value back.
pub proof fn lemma_le_roundtrip(v: nat, n: nat)
    requires
        v < pow256(n),
    ensures
        spec_le_bytes(v, n).len() == n,
        spec_le_value(spec_le_bytes(v, n)) == v,
    decreases n,
{
    if n > 0 {
        let n1 = (n - 1) as nat;
        assert(v / 256 < pow256(n1)) by {
            vstd::arithmetic::div_mod::lemma_div_by_multiple_is_strongly_ordered(
                v as int, pow256(n) as int, pow256(n1) as int, 256);
            vstd::arithmetic::div_mod::lemma_div_multiples_vanish(pow256(n1) as int, 256);
        }
        lemma_le_roundtrip(v / 256, n1);
        vstd::arithmetic::div_mod::lemma_fundamental_div_mod(v as int, 256);
        assert(spec_le_bytes(v, n).drop_first() =~= spec_le_bytes(v / 256, n1));
    }
}

/// A value read from `n` bytes is less than `256` to the power `n`.
pub proof fn lemma_le_value_bound(s: Seq<u8>)
    ensures
        spec_le_value(s) < pow256(s.len()),
    decreases s.len(),
{
    if s.len() > 0 {
        lemma_le_value_bound(s.drop_first());
        assert(pow256(s.len()) == 256 * pow256((s.len() - 1) as nat));
    }
}

/// The values of `pow256` for four and eight bytes.
pub proof fn lemma_pow256_values()
    ensures
        pow256(4) == 0x1_0000_0000,
        pow256(8) == 0x1_0000_0000_0000_0000,
{
    reveal_with_fuel(pow256, 9);
}

/// Calls `bytes::BufMut::remaining_mut` on a vector: the `bytes` crate lets a
/// vector grow to `isize::MAX` bytes, so the room left is that bound minus its
/// length.
#[verifier::external_body]
pub(crate) fn remaining_mut(buf: &Vec<u8>) -> (r: usize)
    ensures
        r == isize::MAX - buf@.len(),
{
    bytes::BufMut::remaining_mut(buf)
}

/// Calls `bytes::BufMut::put_slice` on a vector, which appends the bytes of
/// `src`.
#[verifier::external_body]
pub(crate) fn put_slice(buf: &mut Vec<u8>, src: &[u8])
    ensures
        final(buf)@ == old(buf)@ + src@,
{
    bytes::BufMut::put_slice(buf, src)
}

/// Calls `bytes::BufMut::put_u32_le`, which appends the four bytes of `n`,
/// least significant first.
#[verifier::external_body]
pub(crate) fn put_u32_le(buf: &mut Vec<u8>, n: u32)
    ensures
        final(buf)@ == old(buf)@ + spec_le_bytes(n as nat, 4),
{
    bytes::BufMut::put_u32_le(buf, n)
}

/// Calls `bytes::BufMut::put_u64_le`, which appends the eight bytes of `n`,
/// least significant first.
#[verifier::external_body]
pub(crate) fn put_u64_le(buf: &mut Vec<u8>, n: u64)
    ensures
        final(buf)@ == old(buf)@ + spec_le_bytes(n as nat, 8),
{
    bytes::BufMut::put_u64_le(buf, n)
}

/// Calls `bytes::Buf::get_u32_le` on a slice, which reads the number whose
/// four bytes, least significant first, start the slice, and advances past
/// them. It panics on a shorter slice.
#[verifier::external_body]
pub(crate) fn get_u32_le(buf: &mut &[u8]) -> (r: u32)
    requires
        old(buf)@.len() >= 4,
    ensures
        r as nat == spec_le_value(old(buf)@.take(4)),
        final(buf)@ == old(buf)@.skip(4),
{
    bytes::Buf::get_u32_le(buf)
}

/// Calls `bytes::Buf::get_u64_le` on a slice, which reads the number whose
/// eight bytes, least significant first, start the slice, and advances past
/// them. It panics on a shorter slice.
#[verifier::external_body]
pub(crate) fn get_u64_le(buf: &mut &[u8]) -> (r: u64)
    requires
        old(buf)@.len() >= 8,
    ensures
        r as nat == spec_le_value(old(buf)@.take(8)),
        final(buf)@ == old(buf)@.skip(8),
{
    bytes::Buf::get_u64_le(buf)
}

/// Calls `bytes::Buf::advance` on a slice, which drops its first `cnt`
/// bytes. It panics when the slice is shorter.
#[verifier::external_body]
pub(crate) fn advance(buf: &mut &[u8], cnt: usize)
    requires
        cnt <= old(buf)@.len(),
    ensures
        final(buf)@ == old(buf)@.skip(cnt as int),
{
    bytes::Buf::advance(buf, cnt)
}

} // verus!
