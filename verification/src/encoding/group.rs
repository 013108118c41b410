//! The codec of fields of group type: the fields of a message between a
//! start-group key and an end-group key with the same tag.
use vstd::prelude::*;

use crate::arena::Arena;
use crate::encoding::{
    consumes_some, decode_key, encode_key, key_len, lemma_decode_key_bounds, spec_decode_key,
    spec_encode_key, valid_tag, DecodeContext,
};
use crate::error::DecodeError;
use crate::message::{is_suffix, Decode, Encode};
use crate::scalar::{lemma_key_len, spec_key_len};
use crate::wire_type::{check_wire_type, WireType};

verus! {

/// A group field: the start key, the message's fields, the end key.
pub open spec fn spec_group(tag: u32, body: Seq<u8>) -> Seq<u8> {
    spec_encode_key(tag, WireType::StartGroup) + body + spec_encode_key(tag, WireType::EndGroup)
}

/// Appends a group field holding `msg`.
pub fn encode<M: Encode>(tag: u32, msg: &M, buf: &mut Vec<u8>)
    requires
        valid_tag(tag),
    ensures
        final(buf)@ == old(buf)@ + spec_group(tag, msg.encoding()),
{
    encode_key(tag, WireType::StartGroup, buf);
    msg.encode_raw(buf);
    encode_key(tag, WireType::EndGroup, buf);
    assert(final(buf)@ =~= old(buf)@ + spec_group(tag, msg.encoding()));
}

/// Decoding the fields of a group of tag `tag` from the front of `s` into a
/// builder whose decoded state is `d`, up to and including the end-group
/// key: the state and the bytes left, or the first error met. An end-group
/// key of another tag is `UnexpectedEndGroupTag`.
pub open spec fn decode_group<D>(
    step: spec_fn(D, u32, WireType, Seq<u8>, nat) -> Result<(D, nat), DecodeError>,
    d: D,
    s: Seq<u8>,
    tag: u32,
    depth: nat,
) -> Result<
    (D, Seq<u8>),
    DecodeError,
>
    decreases s.len(),
{
    match spec_decode_key(s) {
        Err(e) => Err(e),
        Ok((t, wt, k)) => if !(1 <= k && k <= s.len()) {
            Err(DecodeError::BufferUnderflow)
        } else if wt == WireType::EndGroup {
            if t != tag {
                Err(DecodeError::UnexpectedEndGroupTag)
            } else {
                Ok((d, s.skip(k as int)))
            }
        } else {
            match step(d, t, wt, s.skip(k as int), depth) {
                Err(e) => Err(e),
                Ok((d2, n)) => if k + n <= s.len() {
                    decode_group(step, d2, s.skip((k + n) as int), tag, depth)
                } else {
                    Err(DecodeError::BufferUnderflow)
                },
            }
        },
    }
}

/// Decodes the fields of a group into `msg` up to the end-group key, each
/// field one level of nesting deeper, as `decode_group` says.
///
/// Fails, leaving `buf` as it was, on another wire type or at the
/// recursion limit.
pub fn merge<'arena, M: Decode<'arena>>(
    tag: u32,
    wire_type: WireType,
    msg: &mut M,
    buf: &mut &[u8],
    arena: &'arena Arena,
    ctx: DecodeContext,
) -> (r: Result<(), DecodeError>)
    ensures
        wire_type != WireType::StartGroup ==> r == Err::<(), DecodeError>(
            DecodeError::WireTypeMismatch { expected: WireType::StartGroup, actual: wire_type },
        ) && final(buf)@ == old(buf)@,
        wire_type == WireType::StartGroup && ctx.budget() == 0 ==> r == Err::<(), DecodeError>(
            DecodeError::RecursionLimitReached,
        ) && final(buf)@ == old(buf)@,
        wire_type == WireType::StartGroup && ctx.budget() > 0 ==> match decode_group(
            (|d: M::Decoded, t: u32, w: WireType, x: Seq<u8>, dp: nat| M::field_step(d, t, w, x, dp)),
            old(msg).decoded(),
            old(buf)@,
            tag,
            (ctx.budget() - 1) as nat,
        ) {
            Ok((d, rest)) => r is Ok && final(msg).decoded() == d && final(buf)@ == rest,
            Err(e) => r == Err::<(), DecodeError>(e),
        },
        r is Ok ==> consumes_some(old(buf)@, final(buf)@),
{
    match check_wire_type(WireType::StartGroup, wire_type) {
        Ok(()) => {},
        Err(e) => return Err(e),
    }
    match ctx.limit_reached() {
        Ok(()) => {},
        Err(e) => return Err(e),
    }
    let inner = ctx.enter_recursion();
    let ghost start = buf@;
    assert(start.skip(0) =~= start);
    loop
        invariant
            is_suffix(start, buf@),
            start == old(buf)@,
            ctx.budget() > 0,
            inner.budget() == ctx.budget() - 1,
            wire_type == WireType::StartGroup,
            decode_group(
            (|d: M::Decoded, t: u32, w: WireType, x: Seq<u8>, dp: nat| M::field_step(d, t, w, x, dp)),old(msg).decoded(), start, tag, inner.budget()) == decode_group(
            (|d: M::Decoded, t: u32, w: WireType, x: Seq<u8>, dp: nat| M::field_step(d, t, w, x, dp)),
                msg.decoded(),
                buf@,
                tag,
                inner.budget(),
            ),
        decreases buf@.len(),
    {
        let ghost before = buf@;
        proof {
            lemma_decode_key_bounds(before);
        }
        let (field_tag, field_wire_type) = match decode_key(buf) {
            Ok(k) => k,
            Err(e) => return Err(e),
        };
        if field_wire_type == WireType::EndGroup {
            if field_tag != tag {
                return Err(DecodeError::UnexpectedEndGroupTag);
            }
            assert(buf@ =~= start.skip(start.len() - buf@.len()));
            return Ok(());
        }
        let ghost after_key = buf@;
        let ghost d0 = msg.decoded();
        assert((|d: M::Decoded, t: u32, w: WireType, x: Seq<u8>, dp: nat| M::field_step(d, t, w, x, dp))(d0, field_tag, field_wire_type, after_key, inner.budget())
            == M::field_step(d0, field_tag, field_wire_type, after_key, inner.budget()));
        match msg.merge_field(field_tag, field_wire_type, buf, arena, inner) {
            Ok(()) => {},
            Err(e) => return Err(e),
        }
        proof {
            let k = (before.len() - after_key.len()) as nat;
            assert(after_key == before.skip(k as int));
            assert(buf@ =~= before.skip(before.len() - buf@.len()));
        }
        assert(buf@ =~= start.skip(start.len() - buf@.len()));
    }
}

/// The group fields holding each message, one after the other.
pub open spec fn spec_group_fields<M: Encode>(tag: u32, msgs: Seq<M>) -> Seq<u8>
    decreases msgs.len(),
{
    if msgs.len() == 0 {
        Seq::empty()
    } else {
        spec_group_fields(tag, msgs.drop_last()) + spec_group(tag, msgs.last().encoding())
    }
}

/// Appends one group field per message.
pub fn encode_repeated<M: Encode>(tag: u32, messages: &[M], buf: &mut Vec<u8>)
    requires
        valid_tag(tag),
    ensures
        final(buf)@ == old(buf)@ + spec_group_fields(tag, messages@),
{
    let mut i: usize = 0;
    while i < messages.len()
        invariant
            valid_tag(tag),
            i <= messages@.len(),
            buf@ == old(buf)@ + spec_group_fields(tag, messages@.take(i as int)),
        decreases messages@.len() - i,
    {
        encode(tag, &messages[i], buf);
        assert(messages@.take(i + 1).drop_last() =~= messages@.take(i as int));
        assert(buf@ =~= old(buf)@ + spec_group_fields(tag, messages@.take(i + 1)));
        i = i + 1;
    }
    assert(messages@.take(messages@.len() as int) =~= messages@);
}

/// Decodes one more group of a repeated field and appends it; on failure
/// `messages` is left as it was.
pub fn merge_repeated<'arena, M: Decode<'arena>>(
    tag: u32,
    wire_type: WireType,
    messages: &mut Vec<M>,
    buf: &mut &[u8],
    arena: &'arena Arena,
    ctx: DecodeContext,
) -> (r: Result<(), DecodeError>)
    ensures
        wire_type != WireType::StartGroup ==> r == Err::<(), DecodeError>(
            DecodeError::WireTypeMismatch { expected: WireType::StartGroup, actual: wire_type },
        ) && final(buf)@ == old(buf)@,
        r is Err ==> final(messages)@ == old(messages)@,
        wire_type == WireType::StartGroup && ctx.budget() > 0 ==> match decode_group(
            (|d: M::Decoded, t: u32, w: WireType, x: Seq<u8>, dp: nat| M::field_step(d, t, w, x, dp)),
            M::initial(),
            old(buf)@,
            tag,
            (ctx.budget() - 1) as nat,
        ) {
            Ok((d, rest)) => r is Ok && final(messages)@.len() == old(messages)@.len() + 1
                && final(messages)@.take(old(messages)@.len() as int) == old(messages)@
                && final(messages)@.last().decoded() == d && final(buf)@ == rest,
            Err(e) => r == Err::<(), DecodeError>(e),
        },
{
    match check_wire_type(WireType::StartGroup, wire_type) {
        Ok(()) => {},
        Err(e) => return Err(e),
    }
    let mut msg = M::new_in(arena);
    match merge(tag, WireType::StartGroup, &mut msg, buf, arena, ctx) {
        Ok(()) => {},
        Err(e) => return Err(e),
    }
    messages.push(msg);
    assert(messages@.take(old(messages)@.len() as int) =~= old(messages)@);
    Ok(())
}

/// The number of bytes of a group field holding `msg`: two keys and the
/// message.
pub fn encoded_len<M: Encode>(tag: u32, msg: &M) -> (r: usize)
    requires
        2 * spec_key_len(tag) + msg.encoding().len() <= usize::MAX,
    ensures
        r == 2 * spec_key_len(tag) + msg.encoding().len(),
        valid_tag(tag) ==> r == spec_group(tag, msg.encoding()).len(),
{
    proof {
        if valid_tag(tag) {
            lemma_key_len(tag, WireType::StartGroup);
            lemma_key_len(tag, WireType::EndGroup);
        }
    }
    2 * key_len(tag) + msg.encoded_len()
}

/// The number of bytes of the messages, without keys.
pub open spec fn spec_group_bodies_len<M: Encode>(msgs: Seq<M>) -> nat
    decreases msgs.len(),
{
    if msgs.len() == 0 {
        0
    } else {
        spec_group_bodies_len(msgs.drop_last()) + msgs.last().encoding().len()
    }
}

/// The group fields of the messages take two keys each and their bodies.
pub proof fn lemma_group_fields_len<M: Encode>(tag: u32, msgs: Seq<M>)
    requires
        valid_tag(tag),
    ensures
        spec_group_fields(tag, msgs).len() == 2 * spec_key_len(tag) * msgs.len()
            + spec_group_bodies_len(msgs),
    decreases msgs.len(),
{
    lemma_key_len(tag, WireType::StartGroup);
    lemma_key_len(tag, WireType::EndGroup);
    if msgs.len() > 0 {
        lemma_group_fields_len(tag, msgs.drop_last());
        vstd::arithmetic::mul::lemma_mul_is_distributive_sub(
            2 * spec_key_len(tag) as int,
            msgs.len() as int,
            1,
        );
    }
}

/// The bodies of a prefix take no more bytes than the bodies of the whole.
proof fn lemma_group_bodies_prefix<M: Encode>(msgs: Seq<M>, i: int)
    requires
        0 <= i <= msgs.len(),
    ensures
        spec_group_bodies_len(msgs.take(i)) <= spec_group_bodies_len(msgs),
    decreases msgs.len() - i,
{
    if i < msgs.len() {
        lemma_group_bodies_prefix(msgs, i + 1);
        assert(msgs.take(i + 1).drop_last() =~= msgs.take(i));
    } else {
        assert(msgs.take(i) =~= msgs);
    }
}

/// The number of bytes of one group field per message.
pub fn encoded_len_repeated<M: Encode>(tag: u32, messages: &[M]) -> (r: usize)
    requires
        2 * spec_key_len(tag) * messages@.len() + spec_group_bodies_len(messages@) <= usize::MAX,
    ensures
        r == 2 * spec_key_len(tag) * messages@.len() + spec_group_bodies_len(messages@),
        valid_tag(tag) ==> r == spec_group_fields(tag, messages@).len(),
{
    proof {
        if valid_tag(tag) {
            lemma_group_fields_len(tag, messages@);
        }
        vstd::arithmetic::mul::lemma_mul_nonnegative(
            2 * spec_key_len(tag) as int,
            messages@.len() as int,
        );
    }
    let k = key_len(tag);
    let n = messages.len();
    assert(2 * k * n <= usize::MAX);
    let mut total: usize = 2 * k * n;
    let mut i: usize = 0;
    while i < messages.len()
        invariant
            i <= messages@.len(),
            2 * k * n + spec_group_bodies_len(messages@) <= usize::MAX,
            total == 2 * k * n + spec_group_bodies_len(messages@.take(i as int)),
        decreases messages@.len() - i,
    {
        proof {
            lemma_group_bodies_prefix(messages@, i + 1);
            assert(messages@.take(i + 1).drop_last() =~= messages@.take(i as int));
        }
        total = total + messages[i].encoded_len();
        i = i + 1;
    }
    assert(messages@.take(messages@.len() as int) =~= messages@);
    total
}

} // verus!
