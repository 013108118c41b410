//! The codec of fields of message type: a key, the length of the message,
//! and its fields.
use vstd::prelude::*;

use crate::arena::Arena;
use crate::encoding::{encode_key, key_len, spec_length_delimited, valid_tag, DecodeContext};
use crate::error::DecodeError;
use crate::message::{decode_delimited, Decode, Encode};
use crate::scalar::{lemma_key_len, spec_key_len};
use crate::varint::{
    decode_varint, encode_varint, encoded_len_varint, lemma_decode_varint_bounds, spec_varint_len,
};
use crate::wire_type::{check_wire_type, WireType};

verus! {

/// Appends a field holding `msg`.
pub fn encode<M: Encode>(tag: u32, msg: &M, buf: &mut Vec<u8>)
    requires
        valid_tag(tag),
        msg.encoding().len() <= usize::MAX,
    ensures
        final(buf)@ == old(buf)@ + spec_length_delimited(tag, msg.encoding()),
{
    encode_key(tag, WireType::LengthDelimited, buf);
    encode_varint(msg.encoded_len() as u64, buf);
    msg.encode_raw(buf);
    assert(final(buf)@ =~= old(buf)@ + spec_length_delimited(tag, msg.encoding()));
}

/// Decodes the length-prefixed fields of a message field into `msg`, one
/// level of nesting deeper, as `decode_delimited` says.
///
/// Fails, leaving `buf` as it was, on another wire type or at the
/// recursion limit.
pub fn merge<'arena, M: Decode<'arena>>(
    wire_type: WireType,
    msg: &mut M,
    buf: &mut &[u8],
    arena: &'arena Arena,
    ctx: DecodeContext,
) -> (r: Result<(), DecodeError>)
    ensures
        wire_type != WireType::LengthDelimited ==> r == Err::<(), DecodeError>(
            DecodeError::WireTypeMismatch { expected: WireType::LengthDelimited, actual: wire_type },
        ) && final(buf)@ == old(buf)@,
        wire_type == WireType::LengthDelimited && ctx.budget() == 0 ==> r == Err::<(), DecodeError>(
            DecodeError::RecursionLimitReached,
        ) && final(buf)@ == old(buf)@,
        wire_type == WireType::LengthDelimited && ctx.budget() > 0 ==> match decode_delimited(
            (|d: M::Decoded, t: u32, w: WireType, x: Seq<u8>, dp: nat| M::field_step(d, t, w, x, dp)),
            old(msg).decoded(),
            old(buf)@,
            (ctx.budget() - 1) as nat,
        ) {
            Ok((d, rest)) => r is Ok && final(msg).decoded() == d && final(buf)@ == rest,
            Err(e) => r == Err::<(), DecodeError>(e),
        },
{
    match check_wire_type(WireType::LengthDelimited, wire_type) {
        Ok(()) => {},
        Err(e) => return Err(e),
    }
    match ctx.limit_reached() {
        Ok(()) => {},
        Err(e) => return Err(e),
    }
    proof {
        lemma_decode_varint_bounds(buf@);
    }
    let len = match decode_varint(buf) {
        Ok(l) => l,
        Err(e) => return Err(e),
    };
    let remaining = buf.len();
    if len > remaining as u64 {
        return Err(DecodeError::BufferUnderflow);
    }
    let limit = remaining - len as usize;
    msg.merge_fields_until(buf, limit, arena, ctx.enter_recursion())
}

/// The fields holding each message, one after the other.
pub open spec fn spec_message_fields<M: Encode>(tag: u32, msgs: Seq<M>) -> Seq<u8>
    decreases msgs.len(),
{
    if msgs.len() == 0 {
        Seq::empty()
    } else {
        spec_message_fields(tag, msgs.drop_last()) + spec_length_delimited(
            tag,
            msgs.last().encoding(),
        )
    }
}

/// Appends one field per message.
pub fn encode_repeated<M: Encode>(tag: u32, messages: &[M], buf: &mut Vec<u8>)
    requires
        valid_tag(tag),
        forall|i: int| 0 <= i < messages@.len() ==> (#[trigger] messages@[i]).encoding().len()
            <= usize::MAX,
    ensures
        final(buf)@ == old(buf)@ + spec_message_fields(tag, messages@),
{
    let mut i: usize = 0;
    while i < messages.len()
        invariant
            valid_tag(tag),
            i <= messages@.len(),
            forall|i: int| 0 <= i < messages@.len() ==> (#[trigger] messages@[i]).encoding().len()
                <= usize::MAX,
            buf@ == old(buf)@ + spec_message_fields(tag, messages@.take(i as int)),
        decreases messages@.len() - i,
    {
        encode(tag, &messages[i], buf);
        assert(messages@.take(i + 1).drop_last() =~= messages@.take(i as int));
        assert(buf@ =~= old(buf)@ + spec_message_fields(tag, messages@.take(i + 1)));
        i = i + 1;
    }
    assert(messages@.take(messages@.len() as int) =~= messages@);
}

/// Decodes one more message of a repeated field and appends it; on failure
/// `messages` is left as it was.
pub fn merge_repeated<'arena, M: Decode<'arena>>(
    wire_type: WireType,
    messages: &mut Vec<M>,
    buf: &mut &[u8],
    arena: &'arena Arena,
    ctx: DecodeContext,
) -> (r: Result<(), DecodeError>)
    ensures
        wire_type != WireType::LengthDelimited ==> r == Err::<(), DecodeError>(
            DecodeError::WireTypeMismatch { expected: WireType::LengthDelimited, actual: wire_type },
        ) && final(buf)@ == old(buf)@,
        r is Err ==> final(messages)@ == old(messages)@,
        wire_type == WireType::LengthDelimited && ctx.budget() == 0 ==> r == Err::<(), DecodeError>(
            DecodeError::RecursionLimitReached,
        ),
        wire_type == WireType::LengthDelimited && ctx.budget() > 0 ==> match decode_delimited(
            (|d: M::Decoded, t: u32, w: WireType, x: Seq<u8>, dp: nat| M::field_step(d, t, w, x, dp)),
            M::initial(),
            old(buf)@,
            (ctx.budget() - 1) as nat,
        ) {
            Ok((d, rest)) => r is Ok && final(messages)@.len() == old(messages)@.len() + 1
                && final(messages)@.take(old(messages)@.len() as int) == old(messages)@
                && final(messages)@.last().decoded() == d && final(buf)@ == rest,
            Err(e) => r == Err::<(), DecodeError>(e),
        },
{
    match check_wire_type(WireType::LengthDelimited, wire_type) {
        Ok(()) => {},
        Err(e) => return Err(e),
    }
    let mut msg = M::new_in(arena);
    match merge(WireType::LengthDelimited, &mut msg, buf, arena, ctx) {
        Ok(()) => {},
        Err(e) => return Err(e),
    }
    messages.push(msg);
    assert(messages@.take(old(messages)@.len() as int) =~= old(messages)@);
    Ok(())
}

/// The number of bytes of a field holding `msg`.
pub fn encoded_len<M: Encode>(tag: u32, msg: &M) -> (r: usize)
    requires
        spec_key_len(tag) + 10 + msg.encoding().len() <= usize::MAX,
    ensures
        r == spec_key_len(tag) + spec_varint_len(msg.encoding().len()) + msg.encoding().len(),
        valid_tag(tag) ==> r == spec_length_delimited(tag, msg.encoding()).len(),
{
    proof {
        if valid_tag(tag) {
            lemma_key_len(tag, WireType::LengthDelimited);
        }
    }
    let len = msg.encoded_len();
    key_len(tag) + encoded_len_varint(len as u64) + len
}

/// The number of bytes of the messages and their length prefixes, without
/// keys.
pub open spec fn spec_message_bodies_len<M: Encode>(msgs: Seq<M>) -> nat
    decreases msgs.len(),
{
    if msgs.len() == 0 {
        0
    } else {
        spec_message_bodies_len(msgs.drop_last()) + spec_varint_len(msgs.last().encoding().len())
            + msgs.last().encoding().len()
    }
}

/// The fields of the messages take a key each and their bodies.
pub proof fn lemma_message_fields_len<M: Encode>(tag: u32, msgs: Seq<M>)
    requires
        valid_tag(tag),
    ensures
        spec_message_fields(tag, msgs).len() == spec_key_len(tag) * msgs.len()
            + spec_message_bodies_len(msgs),
    decreases msgs.len(),
{
    lemma_key_len(tag, WireType::LengthDelimited);
    if msgs.len() > 0 {
        lemma_message_fields_len(tag, msgs.drop_last());
        vstd::arithmetic::mul::lemma_mul_is_distributive_sub(
            spec_key_len(tag) as int,
            msgs.len() as int,
            1,
        );
    }
}

/// The bodies of a prefix take no more bytes than the bodies of the whole.
proof fn lemma_message_bodies_prefix<M: Encode>(msgs: Seq<M>, i: int)
    requires
        0 <= i <= msgs.len(),
    ensures
        spec_message_bodies_len(msgs.take(i)) <= spec_message_bodies_len(msgs),
    decreases msgs.len() - i,
{
    if i < msgs.len() {
        lemma_message_bodies_prefix(msgs, i + 1);
        assert(msgs.take(i + 1).drop_last() =~= msgs.take(i));
    } else {
        assert(msgs.take(i) =~= msgs);
    }
}

/// The number of bytes of one field per message.
pub fn encoded_len_repeated<M: Encode>(tag: u32, messages: &[M]) -> (r: usize)
    requires
        spec_key_len(tag) * messages@.len() + spec_message_bodies_len(messages@) <= usize::MAX,
    ensures
        r == spec_key_len(tag) * messages@.len() + spec_message_bodies_len(messages@),
        valid_tag(tag) ==> r == spec_message_fields(tag, messages@).len(),
{
    proof {
        if valid_tag(tag) {
            lemma_message_fields_len(tag, messages@);
        }
        vstd::arithmetic::mul::lemma_mul_nonnegative(
            spec_key_len(tag) as int,
            messages@.len() as int,
        );
    }
    let k = key_len(tag);
    let n = messages.len();
    assert(k * n <= usize::MAX);
    let mut total: usize = k * n;
    let mut i: usize = 0;
    while i < messages.len()
        invariant
            i <= messages@.len(),
            k * n + spec_message_bodies_len(messages@) <= usize::MAX,
            total == k * n + spec_message_bodies_len(messages@.take(i as int)),
        decreases messages@.len() - i,
    {
        proof {
            lemma_message_bodies_prefix(messages@, i + 1);
            assert(messages@.take(i + 1).drop_last() =~= messages@.take(i as int));
        }
        let len = messages[i].encoded_len();
        total = total + encoded_len_varint(len as u64) + len;
        i = i + 1;
    }
    assert(messages@.take(messages@.len() as int) =~= messages@);
    total
}

} // verus!
