//! Field keys, the decode context, skipping unknown fields, and the
//! length-delimited loop that the codecs of the field types share.
use vstd::prelude::*;

pub mod arena_map;
pub mod bool;
pub mod bytes;
pub mod message;
pub mod group;
pub mod string;
pub mod int32;
pub mod int64;
pub mod uint32;
pub mod uint64;
pub mod sint32;
pub mod sint64;
pub mod fixed32;
pub mod fixed64;
pub mod sfixed32;
pub mod sfixed64;

use crate::buf::{advance, put_slice};
use crate::error::DecodeError;
use crate::varint::{
    encode_varint, encoded_len_varint, decode_varint, lemma_decode_encode_varint,
    lemma_decode_varint_bounds, spec_decode_varint, spec_varint, spec_varint_len,
};
use crate::wire_type::{
    lemma_wire_type_value_roundtrip, spec_wire_type_from, wire_type_value, WireType,
};

verus! {

/// How deep nested messages and groups may go while decoding.
pub const RECURSION_LIMIT: u32 = 100;

/// The smallest field tag.
pub const MIN_TAG: u32 = 1;

/// The largest field tag.
pub const MAX_TAG: u32 = 536_870_911;

/// State passed to every decode function: how many more levels of nested
/// messages or groups may be entered.
#[derive(Clone, Copy, Debug)]
pub struct DecodeContext {
    recurse_count: u32,
}

impl DecodeContext {
    /// How many more levels of nesting may be entered.
    pub closed spec fn budget(self) -> nat {
        self.recurse_count as nat
    }

    /// A context at the top level, with the full recursion limit.
    pub fn new() -> (r: DecodeContext)
        ensures
            r.budget() == RECURSION_LIMIT,
    {
        DecodeContext { recurse_count: RECURSION_LIMIT }
    }

    /// The context for the next level of nesting. Call it only after
    /// `limit_reached` has returned `Ok`.
    pub fn enter_recursion(&self) -> (r: DecodeContext)
        requires
            self.budget() > 0,
        ensures
            r.budget() == self.budget() - 1,
    {
        DecodeContext { recurse_count: self.recurse_count - 1 }
    }

    /// `Ok` when another level of nesting may be entered, an error once the
    /// recursion limit is reached.
    pub fn limit_reached(&self) -> (r: Result<(), DecodeError>)
        ensures
            self.budget() > 0 ==> r is Ok,
            self.budget() == 0 ==> r == Err::<(), DecodeError>(DecodeError::RecursionLimitReached),
    {
        if self.recurse_count == 0 {
            Err(DecodeError::RecursionLimitReached)
        } else {
            Ok(())
        }
    }
}

impl Default for DecodeContext {
    fn default() -> (r: DecodeContext)
        ensures
            r.budget() == RECURSION_LIMIT,
    {
        DecodeContext::new()
    }
}

/// Contexts entered one level at a time from the top: the context `i`
/// levels down has `RECURSION_LIMIT - i` levels left, so the last one
/// passes `limit_reached` exactly when fewer than `RECURSION_LIMIT` levels
/// were entered.
pub proof fn lemma_nested_contexts(cs: Seq<DecodeContext>)
    requires
        cs.len() > 0,
        cs[0].budget() == RECURSION_LIMIT,
        forall|i: int| 0 < i < cs.len() ==> #[trigger] cs[i].budget() == cs[i - 1].budget() - 1,
    ensures
        forall|i: int| 0 <= i < cs.len() ==> #[trigger] cs[i].budget() == RECURSION_LIMIT - i,
        (cs.last().budget() > 0) <==> (cs.len() - 1 < RECURSION_LIMIT),
    decreases cs.len(),
{
    if cs.len() > 1 {
        let front = cs.drop_last();
        assert forall|i: int| 0 < i < front.len() implies #[trigger] front[i].budget() == front[i
            - 1].budget() - 1 by {
            assert(front[i] == cs[i] && front[i - 1] == cs[i - 1]);
        }
        lemma_nested_contexts(front);
        assert forall|i: int| 0 <= i < cs.len() implies #[trigger] cs[i].budget() == RECURSION_LIMIT
            - i by {
            if i < cs.len() - 1 {
                assert(front[i] == cs[i]);
            } else {
                assert(front[i - 1] == cs[i - 1]);
            }
        }
    }
}

/// The number that a key encodes: the tag shifted past the three bits of the
/// wire type.
pub open spec fn spec_key(tag: u32, wt: WireType) -> nat {
    tag as nat * 8 + wire_type_value(wt)
}

/// The bytes of the key of a field.
pub open spec fn spec_encode_key(tag: u32, wt: WireType) -> Seq<u8> {
    spec_varint(spec_key(tag, wt))
}

/// Whether a tag lies in the range that field keys can carry.
pub open spec fn valid_tag(tag: u32) -> bool {
    MIN_TAG <= tag <= MAX_TAG
}

/// The key at the front of `s`: its tag, wire type and length, or the error
/// that decoding it meets.
pub open spec fn spec_decode_key(s: Seq<u8>) -> Result<(u32, WireType, nat), DecodeError> {
    match spec_decode_varint(s) {
        None => Err(DecodeError::InvalidVarint),
        Some((key, n)) => if key > u32::MAX {
            Err(DecodeError::InvalidKey(key))
        } else {
            match spec_wire_type_from((key % 8) as int) {
                None => Err(DecodeError::InvalidWireType(key % 8)),
                Some(wt) => if key / 8 < 1 {
                    Err(DecodeError::InvalidTag)
                } else {
                    Ok(((key / 8) as u32, wt, n))
                },
            }
        },
    }
}

/// A decoded key takes between one and five bytes of the buffer.
pub proof fn lemma_decode_key_bounds(s: Seq<u8>)
    ensures
        spec_decode_key(s) matches Ok((tag, wt, n)) ==> 1 <= n <= s.len() && valid_tag(tag),
{
    lemma_decode_varint_bounds(s);
}

/// Decoding the key of a field gives back its tag and wire type, whatever
/// follows the key.
pub proof fn lemma_decode_encode_key(tag: u32, wt: WireType, rest: Seq<u8>)
    requires
        valid_tag(tag),
    ensures
        spec_decode_key(spec_encode_key(tag, wt) + rest) == Ok::<(u32, WireType, nat), DecodeError>(
            (tag, wt, spec_varint_len(spec_key(tag, wt))),
        ),
{
    let key = spec_key(tag, wt);
    lemma_wire_type_value_roundtrip(wt);
    assert(key <= u64::MAX);
    lemma_decode_encode_varint(key as u64, rest);
    assert(key % 8 == wire_type_value(wt));
    assert(key / 8 == tag);
}

/// Appends the key of a field with the given tag and wire type.
pub fn encode_key(tag: u32, wire_type: WireType, buf: &mut Vec<u8>)
    requires
        valid_tag(tag),
    ensures
        final(buf)@ == old(buf)@ + spec_encode_key(tag, wire_type),
{
    let w = wire_type.value();
    let key = (tag << 3) | w;
    assert((tag << 3) | w == tag * 8 + w) by (bit_vector)
        requires
            tag <= 536_870_911u32,
            w < 8,
    ;
    encode_varint(key as u64, buf);
}

/// Decodes a field key from the front of `buf`: the tag and the wire type.
///
/// Fails, leaving `buf` as it was, on a malformed varint, a key above
/// `u32::MAX`, an unknown wire type, or a zero tag.
///
/// On every failure the buffer is left where the item began, so that the
/// caller sees it whole; how far a failing read has advanced is a detail
/// that no caller relies on, since decoding stops at the first error.
pub fn decode_key(buf: &mut &[u8]) -> (r: Result<(u32, WireType), DecodeError>)
    ensures
        match spec_decode_key(old(buf)@) {
            Ok((tag, wt, n)) => r == Ok::<(u32, WireType), DecodeError>((tag, wt)) && final(buf)@
                == old(buf)@.skip(n as int),
            Err(e) => r == Err::<(u32, WireType), DecodeError>(e) && final(buf)@ == old(buf)@,
        },
{
    let start: &[u8] = *buf;
    let key = match decode_varint(buf) {
        Ok(k) => k,
        Err(e) => return Err(e),
    };
    if key > 0xFFFF_FFFF {
        *buf = start;
        return Err(DecodeError::InvalidKey(key));
    }
    assert(key & 7 == key % 8) by (bit_vector);
    let wire_type = match WireType::try_from_u64(key & 0x07) {
        Ok(wt) => wt,
        Err(e) => {
            *buf = start;
            return Err(e);
        },
    };
    let k32 = key as u32;
    let tag = k32 >> 3;
    assert(k32 >> 3 == key / 8) by (bit_vector)
        requires
            key <= 0xFFFF_FFFFu64,
            k32 == key as u32,
    ;
    if tag < MIN_TAG {
        *buf = start;
        return Err(DecodeError::InvalidTag);
    }
    Ok((tag, wire_type))
}

/// The number of bytes in the key of a field with the given tag, from 1 to
/// 5. The tag is shifted within 32 bits, so tags above `MAX_TAG` lose their
/// high bits.
pub fn key_len(tag: u32) -> (r: usize)
    ensures
        r == spec_varint_len((tag as nat * 8) % 0x1_0000_0000),
        1 <= r <= 10,
        valid_tag(tag) ==> r == spec_varint_len(spec_key(tag, WireType::Varint)),
{
    let shifted = tag << 3;
    assert(shifted as nat == (tag as nat * 8) % 0x1_0000_0000) by (bit_vector)
        requires
            shifted == tag << 3,
    ;
    encoded_len_varint(shifted as u64)
}

/// What skipping a field of the given wire type and tag at the front of `s`
/// consumes, with `depth` more levels of nesting allowed; or the error it
/// meets.
pub open spec fn spec_skip_field(wt: WireType, tag: u32, s: Seq<u8>, depth: nat) -> Result<
    nat,
    DecodeError,
>
    decreases depth, s.len(), 1nat,
{
    if depth == 0 {
        Err(DecodeError::RecursionLimitReached)
    } else {
        let prefix: Result<(nat, nat), DecodeError> = match wt {
            WireType::Varint => match spec_decode_varint(s) {
                Some((_, n)) => Ok((n, 0)),
                None => Err(DecodeError::InvalidVarint),
            },
            WireType::ThirtyTwoBit => Ok((0, 4)),
            WireType::SixtyFourBit => Ok((0, 8)),
            WireType::LengthDelimited => match spec_decode_varint(s) {
                Some((len, n)) => Ok((n, len as nat)),
                None => Err(DecodeError::InvalidVarint),
            },
            WireType::StartGroup => match spec_skip_group(tag, s, depth) {
                Ok(n) => Ok((n, 0)),
                Err(e) => Err(e),
            },
            WireType::EndGroup => Err(DecodeError::UnexpectedEndGroupTag),
        };
        match prefix {
            Err(e) => Err(e),
            Ok((n, len)) => if n > s.len() || len > s.len() - n {
                Err(DecodeError::BufferUnderflow)
            } else {
                Ok(n + len)
            },
        }
    }
}

/// What skipping the fields of a group up to its end-group key consumes, the
/// end key included; or the error it meets.
pub open spec fn spec_skip_group(tag: u32, s: Seq<u8>, depth: nat) -> Result<nat, DecodeError>
    decreases depth, s.len(), 0nat,
{
    match spec_decode_key(s) {
        Err(e) => Err(e),
        Ok((inner_tag, inner_wt, n)) => if inner_wt == WireType::EndGroup {
            if inner_tag != tag {
                Err(DecodeError::UnexpectedEndGroupTag)
            } else {
                Ok(n)
            }
        } else if depth == 0 || n == 0 || n > s.len() {
            Err(DecodeError::RecursionLimitReached)
        } else {
            match spec_skip_field(inner_wt, inner_tag, s.skip(n as int), (depth - 1) as nat) {
                Err(e) => Err(e),
                Ok(m) => if m > s.len() - n {
                    Err(DecodeError::BufferUnderflow)
                } else {
                    match spec_skip_group(tag, s.skip((n + m) as int), depth) {
                        Err(e) => Err(e),
                        Ok(k) => Ok(n + m + k),
                    }
                },
            }
        },
    }
}

/// A skipped field or group never consumes more than the buffer holds.
pub proof fn lemma_skip_bounds(wt: WireType, tag: u32, s: Seq<u8>, depth: nat)
    ensures
        spec_skip_field(wt, tag, s, depth) matches Ok(n) ==> n <= s.len(),
        spec_skip_group(tag, s, depth) matches Ok(n) ==> 1 <= n <= s.len(),
    decreases depth, s.len(),
{
    lemma_decode_key_bounds(s);
    if let Ok((inner_tag, inner_wt, n)) = spec_decode_key(s) {
        if inner_wt != WireType::EndGroup && depth > 0 && n > 0 && n <= s.len() {
            if let Ok(m) = spec_skip_field(inner_wt, inner_tag, s.skip(n as int), (depth - 1) as nat) {
                if m <= s.len() - n {
                    lemma_skip_bounds(wt, tag, s.skip((n + m) as int), depth);
                }
            }
        }
    }
}

/// Skips the value of a field of the given wire type and tag at the front of
/// `buf`, a whole group for `StartGroup`.
///
/// Fails, leaving `buf` as it was, once the recursion limit is reached, on a
/// malformed varint or key, a value that runs past the buffer, or an
/// end-group key that does not close the group.
///
/// On every failure the buffer is left where the item began, so that the
/// caller sees it whole; how far a failing read has advanced is a detail
/// that no caller relies on, since decoding stops at the first error.
pub fn skip_field(wire_type: WireType, tag: u32, buf: &mut &[u8], ctx: DecodeContext) -> (r: Result<
    (),
    DecodeError,
>)
    ensures
        match spec_skip_field(wire_type, tag, old(buf)@, ctx.budget()) {
            Ok(n) => r is Ok && final(buf)@ == old(buf)@.skip(n as int),
            Err(e) => r == Err::<(), DecodeError>(e) && final(buf)@ == old(buf)@,
        },
    decreases ctx.budget(), 1nat,
{
    let ghost s0 = buf@;
    match ctx.limit_reached() {
        Ok(()) => {},
        Err(e) => return Err(e),
    }
    let start: &[u8] = *buf;
    let mut cur: &[u8] = start;
    let len: u64 = match wire_type {
        WireType::Varint => match decode_varint(&mut cur) {
            Ok(_) => 0,
            Err(e) => return Err(e),
        },
        WireType::ThirtyTwoBit => 4,
        WireType::SixtyFourBit => 8,
        WireType::LengthDelimited => match decode_varint(&mut cur) {
            Ok(l) => l,
            Err(e) => return Err(e),
        },
        WireType::StartGroup => match skip_group(tag, &mut cur, ctx) {
            Ok(()) => 0,
            Err(e) => return Err(e),
        },
        WireType::EndGroup => return Err(DecodeError::UnexpectedEndGroupTag),
    };
    proof {
        lemma_decode_varint_bounds(s0);
        lemma_skip_bounds(wire_type, tag, s0, ctx.budget());
    }
    let ghost n = s0.len() - cur@.len();
    assert(cur@ == s0.skip(n));
    if len > cur.len() as u64 {
        return Err(DecodeError::BufferUnderflow);
    }
    advance(&mut cur, len as usize);
    assert(cur@ =~= s0.skip(n + len));
    *buf = cur;
    Ok(())
}

/// Skips the fields of a group at the front of `buf`, through its end-group
/// key, which must carry `tag`.
///
/// Fails, leaving `buf` as it was, as `skip_field` does.
pub fn skip_group(tag: u32, buf: &mut &[u8], ctx: DecodeContext) -> (r: Result<(), DecodeError>)
    requires
        ctx.budget() > 0,
    ensures
        match spec_skip_group(tag, old(buf)@, ctx.budget()) {
            Ok(n) => r is Ok && final(buf)@ == old(buf)@.skip(n as int),
            Err(e) => r == Err::<(), DecodeError>(e) && final(buf)@ == old(buf)@,
        },
    decreases ctx.budget(), 0nat,
{
    let ghost s0 = buf@;
    let ghost depth = ctx.budget();
    let start: &[u8] = *buf;
    let mut cur: &[u8] = start;
    loop
        invariant_except_break
            depth == ctx.budget(),
            depth > 0,
            s0 == start@,
            s0 == old(buf)@,
            cur@.len() <= s0.len(),
            cur@ == s0.skip(s0.len() - cur@.len()),
            spec_skip_group(tag, s0, depth) == match spec_skip_group(tag, cur@, depth) {
                Ok(k) => Ok::<nat, DecodeError>(((s0.len() - cur@.len()) + k) as nat),
                Err(e) => Err(e),
            },
        ensures
            cur@.len() <= s0.len(),
            cur@ == s0.skip(s0.len() - cur@.len()),
            spec_skip_group(tag, s0, depth) == Ok::<nat, DecodeError>(
                (s0.len() - cur@.len()) as nat,
            ),
        decreases cur@.len(),
    {
        let ghost c0 = cur@;
        proof {
            lemma_decode_key_bounds(c0);
        }
        let (inner_tag, inner_wire_type) = match decode_key(&mut cur) {
            Ok(k) => k,
            Err(e) => return Err(e),
        };
        let ghost n = (c0.len() - cur@.len()) as nat;
        assert(cur@ =~= c0.skip(n as int));
        if inner_wire_type == WireType::EndGroup {
            if inner_tag != tag {
                return Err(DecodeError::UnexpectedEndGroupTag);
            }
            assert(cur@ =~= s0.skip(s0.len() - cur@.len()));
            break;
        }
        let ghost c1 = cur@;
        proof {
            lemma_skip_bounds(inner_wire_type, inner_tag, c1, (depth - 1) as nat);
        }
        match skip_field(inner_wire_type, inner_tag, &mut cur, ctx.enter_recursion()) {
            Ok(()) => {},
            Err(e) => return Err(e),
        }
        let ghost m = (c1.len() - cur@.len()) as nat;
        assert(c0.skip((n + m) as int) =~= cur@);
        assert(cur@ =~= s0.skip(s0.len() - cur@.len()));
    }
    *buf = cur;
    Ok(())
}

/// Running `step` on the front of `s`, carrying a value from `t`, until no
/// more than `limit` bytes are left: the value and the bytes left, or the
/// first error. Ending short of `limit` is `DelimitedLengthExceeded`.
pub open spec fn run_until<T>(
    step: spec_fn(T, Seq<u8>) -> Result<(T, nat), DecodeError>,
    t: T,
    s: Seq<u8>,
    limit: nat,
) -> Result<(T, Seq<u8>), DecodeError>
    decreases s.len(),
{
    if s.len() <= limit {
        if s.len() == limit {
            Ok((t, s))
        } else {
            Err(DecodeError::DelimitedLengthExceeded)
        }
    } else {
        match step(t, s) {
            Err(e) => Err(e),
            Ok((t2, n)) => if 0 < n <= s.len() {
                run_until(step, t2, s.skip(n as int), limit)
            } else {
                Err(DecodeError::BufferUnderflow)
            },
        }
    }
}

/// Running `step` over the length-prefixed bytes at the front of `s`: a
/// malformed length or one past the end is an error; otherwise `run_until`
/// over the announced bytes.
pub open spec fn run_delimited<T>(
    step: spec_fn(T, Seq<u8>) -> Result<(T, nat), DecodeError>,
    t: T,
    s: Seq<u8>,
) -> Result<(T, Seq<u8>), DecodeError> {
    match spec_decode_varint(s) {
        None => Err(DecodeError::InvalidVarint),
        Some((len, n)) => if len > s.len() - n {
            Err(DecodeError::BufferUnderflow)
        } else {
            run_until(step, t, s.skip(n as int), (s.len() - n - len) as nat)
        },
    }
}

/// What a step of a length-delimited loop may do: on success it consumes at
/// least one byte from the front of the buffer.
pub open spec fn consumes_some(before: Seq<u8>, after: Seq<u8>) -> bool {
    &&& after.len() < before.len()
    &&& after == before.skip(before.len() - after.len())
}

/// Reads a length prefix, then calls `merge`, each time with `ctx`, until
/// the bytes it announced are consumed.
///
/// Fails on a malformed prefix, on a length past the end of the buffer
/// (`BufferUnderflow`), with the first error of `merge`, or when a call of
/// `merge` reads past the announced length (`DelimitedLengthExceeded`). On
/// success exactly the prefix and the announced bytes are consumed.
pub fn merge_loop<T, M>(value: &mut T, buf: &mut &[u8], ctx: DecodeContext, merge: M) -> (r: Result<
    (),
    DecodeError,
>) where M: Fn(&mut T, &mut &[u8], DecodeContext) -> Result<(), DecodeError>
    requires
        forall|v: &mut T, b: &mut &[u8], c: DecodeContext| merge.requires((v, b, c)),
        forall|v: &mut T, b: &mut &[u8], c: DecodeContext, res: Result<(), DecodeError>| #[trigger]
            merge.ensures((v, b, c), res) ==> (res is Ok ==> consumes_some((*b)@, final(b)@)),
    ensures
        spec_decode_varint(old(buf)@) is None ==> r == Err::<(), DecodeError>(
            DecodeError::InvalidVarint,
        ),
        spec_decode_varint(old(buf)@) matches Some((len, n)) && len > old(buf)@.len() - n ==> r
            == Err::<(), DecodeError>(DecodeError::BufferUnderflow) && *final(value) == *old(value),
        r is Ok ==> (spec_decode_varint(old(buf)@) matches Some((len, n)) && n + len <= old(
            buf,
        )@.len() && final(buf)@ == old(buf)@.skip(n + len)),
        spec_decode_varint(old(buf)@) matches Some((len, n)) && len == 0 ==> r is Ok
            && *final(value) == *old(value),
        forall|step: spec_fn(T, Seq<u8>) -> Result<(T, nat), DecodeError>|
            #![trigger run_delimited(step, *old(value), old(buf)@)]
            (forall|v: &mut T, b: &mut &[u8], res: Result<(), DecodeError>|
                #[trigger] merge.ensures((v, b, ctx), res) ==> match step(*v, (*b)@) {
                    Ok((t, n)) => res is Ok && *final(v) == t && n <= (*b)@.len() && final(b)@
                        == (*b)@.skip(n as int),
                    Err(e) => res == Err::<(), DecodeError>(e),
                }) ==> match run_delimited(step, *old(value), old(buf)@) {
                Ok((t, rest)) => r is Ok && *final(value) == t && final(buf)@ == rest,
                Err(e) => r == Err::<(), DecodeError>(e),
            },
{
    let ghost s0 = buf@;
    proof {
        lemma_decode_varint_bounds(s0);
    }
    let len = match decode_varint(buf) {
        Ok(l) => l,
        Err(e) => return Err(e),
    };
    let remaining = buf.len();
    if len > remaining as u64 {
        return Err(DecodeError::BufferUnderflow);
    }
    let limit = remaining - len as usize;
    assert(buf@ == s0.skip(s0.len() - buf@.len()));
    assert(s0.skip((s0.len() - remaining) as int) == buf@);
    while buf.len() > limit
        invariant
            forall|v: &mut T, b: &mut &[u8], c: DecodeContext| merge.requires((v, b, c)),
            forall|v: &mut T, b: &mut &[u8], c: DecodeContext, res: Result<(), DecodeError>|
                #[trigger] merge.ensures((v, b, c), res) ==> (res is Ok ==> consumes_some(
                    (*b)@,
                    final(b)@,
                )),
            buf@.len() <= s0.len(),
            buf@ == s0.skip(s0.len() - buf@.len()),
            s0 == old(buf)@,
            remaining <= s0.len(),
            len <= remaining,
            limit == remaining - len,
            buf@.len() <= remaining,
            len == 0 ==> buf@.len() == remaining && *value == *old(value),
            spec_decode_varint(s0) == Some((len, (s0.len() - remaining) as nat)),
            forall|step: spec_fn(T, Seq<u8>) -> Result<(T, nat), DecodeError>|
                #![trigger run_delimited(step, *old(value), s0)]
                (forall|v: &mut T, b: &mut &[u8], res: Result<(), DecodeError>|
                #[trigger] merge.ensures((v, b, ctx), res) ==> match step(*v, (*b)@) {
                    Ok((t, n)) => res is Ok && *final(v) == t && n <= (*b)@.len() && final(b)@
                        == (*b)@.skip(n as int),
                    Err(e) => res == Err::<(), DecodeError>(e),
                }) ==> run_delimited(step, *old(value), s0) == run_until(
                    step,
                    *value,
                    buf@,
                    limit as nat,
                ),
        decreases buf@.len(),
    {
        let ghost b0 = buf@;
        let ghost v0 = *value;
        match merge(value, buf, ctx) {
            Ok(()) => {},
            Err(e) => return Err(e),
        }
        assert(buf@ =~= s0.skip(s0.len() - buf@.len()));
        assert forall|step: spec_fn(T, Seq<u8>) -> Result<(T, nat), DecodeError>|
            #![trigger run_delimited(step, *old(value), s0)]
            (forall|v: &mut T, b: &mut &[u8], res: Result<(), DecodeError>|
                #[trigger] merge.ensures((v, b, ctx), res) ==> match step(*v, (*b)@) {
                    Ok((t, n)) => res is Ok && *final(v) == t && n <= (*b)@.len() && final(b)@
                        == (*b)@.skip(n as int),
                    Err(e) => res == Err::<(), DecodeError>(e),
                }) implies run_delimited(step, *old(value), s0) == run_until(
            step,
            *value,
            buf@,
            limit as nat,
        ) by {
            assert(run_delimited(step, *old(value), s0) == run_until(step, v0, b0, limit as nat));
            match step(v0, b0) {
                Ok((t, n)) => {
                    assert(*value == t && buf@ == b0.skip(n as int));
                },
                Err(e) => {},
            }
        }
    }
    if buf.len() != limit {
        return Err(DecodeError::DelimitedLengthExceeded);
    }
    Ok(())
}

/// A length-delimited field: its key, the length of the data, and the data.
pub open spec fn spec_length_delimited(tag: u32, data: Seq<u8>) -> Seq<u8> {
    spec_encode_key(tag, WireType::LengthDelimited) + spec_varint(data.len()) + data
}

/// The length-prefixed data at the front of `s` and the bytes it takes, or
/// the error that reading it meets.
pub open spec fn spec_decode_length_delimited(s: Seq<u8>) -> Result<(Seq<u8>, nat), DecodeError> {
    match spec_decode_varint(s) {
        None => Err(DecodeError::InvalidVarint),
        Some((len, n)) => if len > s.len() - n {
            Err(DecodeError::BufferUnderflow)
        } else {
            Ok((s.subrange(n as int, n + len), (n + len) as nat))
        },
    }
}

/// Appends a length-delimited field holding `data`.
pub fn encode_length_delimited(tag: u32, data: &[u8], buf: &mut Vec<u8>)
    requires
        valid_tag(tag),
    ensures
        final(buf)@ == old(buf)@ + spec_length_delimited(tag, data@),
{
    encode_key(tag, WireType::LengthDelimited, buf);
    encode_varint(data.len() as u64, buf);
    put_slice(buf, data);
    assert(final(buf)@ =~= old(buf)@ + spec_length_delimited(tag, data@));
}

/// Reads length-prefixed data from the front of `buf` and advances past it.
///
/// Fails, leaving `buf` as it was, on a malformed length or a length past the
/// end of the buffer.
pub fn decode_length_delimited<'a>(buf: &mut &'a [u8]) -> (r: Result<&'a [u8], DecodeError>)
    ensures
        match spec_decode_length_delimited(old(buf)@) {
            Ok((data, n)) => r matches Ok(d) && d@ == data && final(buf)@ == old(buf)@.skip(
                n as int,
            ),
            Err(e) => r == Err::<&[u8], DecodeError>(e) && final(buf)@ == old(buf)@,
        },
{
    let start: &'a [u8] = *buf;
    let mut cur: &'a [u8] = start;
    proof {
        lemma_decode_varint_bounds(start@);
    }
    let len = match decode_varint(&mut cur) {
        Ok(l) => l,
        Err(e) => return Err(e),
    };
    if len > cur.len() as u64 {
        return Err(DecodeError::BufferUnderflow);
    }
    let n = start.len() - cur.len();
    let len = len as usize;
    let data: &'a [u8] = &cur[0..len];
    *buf = &cur[len..cur.len()];
    assert(data@ =~= start@.subrange(n as int, n + len));
    assert(buf@ =~= start@.skip(n + len));
    Ok(data)
}

/// Decoding a length-delimited field gives its data back.
pub proof fn lemma_length_delimited_roundtrip(tag: u32, data: Seq<u8>, rest: Seq<u8>)
    requires
        valid_tag(tag),
        data.len() <= u64::MAX,
    ensures
        ({
            let s = spec_length_delimited(tag, data) + rest;
            let k = spec_encode_key(tag, WireType::LengthDelimited).len();
            &&& spec_decode_key(s) == Ok::<(u32, WireType, nat), DecodeError>(
                (tag, WireType::LengthDelimited, k),
            )
            &&& spec_decode_length_delimited(s.skip(k as int)) == Ok::<(Seq<u8>, nat), DecodeError>(
                (data, (spec_length_delimited(tag, data).len() - k) as nat),
            )
        }),
{
    let key = spec_encode_key(tag, WireType::LengthDelimited);
    let prefix = spec_varint(data.len());
    let s = spec_length_delimited(tag, data) + rest;
    assert(s =~= key + (prefix + data + rest));
    lemma_decode_encode_key(tag, WireType::LengthDelimited, prefix + data + rest);
    let body = s.skip(key.len() as int);
    assert(body =~= prefix + (data + rest));
    lemma_decode_encode_varint(data.len() as u64, data + rest);
    assert(body.subrange(prefix.len() as int, (prefix.len() + data.len()) as int) =~= data);
}

/// Skipping a length-delimited field consumes exactly what follows its
/// key: the length prefix and the data.
pub proof fn lemma_skip_length_delimited_field(tag: u32, data: Seq<u8>, rest: Seq<u8>, depth: nat)
    requires
        valid_tag(tag),
        data.len() <= u64::MAX,
        depth > 0,
    ensures
        ({
            let s = spec_length_delimited(tag, data) + rest;
            let k = spec_encode_key(tag, WireType::LengthDelimited).len();
            spec_skip_field(WireType::LengthDelimited, tag, s.skip(k as int), depth) == Ok::<
                nat,
                DecodeError,
            >((spec_length_delimited(tag, data).len() - k) as nat)
        }),
{
    let key = spec_encode_key(tag, WireType::LengthDelimited);
    let prefix = spec_varint(data.len());
    let s = spec_length_delimited(tag, data) + rest;
    assert(s.skip(key.len() as int) =~= prefix + (data + rest));
    lemma_decode_encode_varint(data.len() as u64, data + rest);
}

} // verus!
