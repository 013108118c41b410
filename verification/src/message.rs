//! The interfaces that messages implement: encoding a frozen message, and
//! decoding into a builder whose variable-length data lives in an arena.
use vstd::prelude::*;

use crate::arena::Arena;
use crate::buf::remaining_mut;
use crate::encoding::{
    decode_key, lemma_decode_key_bounds, spec_decode_key, DecodeContext, RECURSION_LIMIT,
};
use crate::error::{DecodeError, EncodeError};
use crate::varint::{
    decode_varint, encode_varint, encoded_len_varint, lemma_decode_varint_bounds,
    spec_decode_varint, spec_varint, spec_varint_len,
};
use crate::wire_type::WireType;

verus! {

/// Whether `after` is what is left of `before` once some bytes, possibly
/// none, are taken from its front.
pub open spec fn is_suffix(before: Seq<u8>, after: Seq<u8>) -> bool {
    &&& after.len() <= before.len()
    &&& after == before.skip(before.len() - after.len())
}

/// Encoding a message to the protobuf wire format.
pub trait Encode {
    /// The bytes of the message's fields, without a length prefix.
    spec fn encoding(&self) -> Seq<u8>;

    /// Appends the message's fields, without a length prefix.
    fn encode_raw(&self, buf: &mut Vec<u8>)
        ensures
            final(buf)@ == old(buf)@ + self.encoding(),
    ;

    /// The number of bytes of the message's fields, where that number fits
    /// in `usize`.
    fn encoded_len(&self) -> (r: usize)
        requires
            self.encoding().len() <= usize::MAX,
        ensures
            r == self.encoding().len(),
    ;

    /// Appends the message where the buffer has room for it; otherwise
    /// leaves the buffer as it was and reports the bytes needed and left.
    fn encode(&self, buf: &mut Vec<u8>) -> (r: Result<(), EncodeError>)
        requires
            self.encoding().len() <= usize::MAX,
        ensures
            self.encoding().len() <= isize::MAX - old(buf)@.len() ==> r is Ok && final(buf)@ == old(
                buf,
            )@ + self.encoding(),
            self.encoding().len() > isize::MAX - old(buf)@.len() ==> r == Err::<(), EncodeError>(
                EncodeError {
                    required: self.encoding().len() as usize,
                    remaining: (isize::MAX - old(buf)@.len()) as usize,
                },
            ) && final(buf)@ == old(buf)@,
    {
        let required = self.encoded_len();
        let remaining = remaining_mut(buf);
        if required > remaining {
            return Err(EncodeError::new(required, remaining));
        }
        self.encode_raw(buf);
        Ok(())
    }

    /// The message's fields in a new vector.
    fn encode_to_vec(&self) -> (r: Vec<u8>)
        ensures
            r@ == self.encoding(),
    {
        let mut buf: Vec<u8> = Vec::new();
        self.encode_raw(&mut buf);
        assert(buf@ =~= self.encoding());
        buf
    }

    /// Appends the length of the message and the message where the buffer
    /// has room for both; otherwise leaves the buffer as it was and reports
    /// the bytes needed and left.
    fn encode_length_delimited(&self, buf: &mut Vec<u8>) -> (r: Result<(), EncodeError>)
        requires
            self.encoding().len() + spec_varint_len(self.encoding().len()) <= usize::MAX,
        ensures
            ({
                let required = self.encoding().len() + spec_varint_len(self.encoding().len());
                &&& required <= isize::MAX - old(buf)@.len() ==> r is Ok && final(buf)@ == old(
                    buf,
                )@ + spec_varint(self.encoding().len()) + self.encoding()
                &&& required > isize::MAX - old(buf)@.len() ==> r == Err::<(), EncodeError>(
                    EncodeError {
                        required: required as usize,
                        remaining: (isize::MAX - old(buf)@.len()) as usize,
                    },
                ) && final(buf)@ == old(buf)@
            }),
    {
        let len = self.encoded_len();
        let required = len + encoded_len_varint(len as u64);
        let remaining = remaining_mut(buf);
        if required > remaining {
            return Err(EncodeError::new(required, remaining));
        }
        encode_varint(len as u64, buf);
        self.encode_raw(buf);
        assert(final(buf)@ =~= old(buf)@ + spec_varint(self.encoding().len()) + self.encoding());
        Ok(())
    }

    /// The length of the message and the message, in a new vector.
    fn encode_length_delimited_to_vec(&self) -> (r: Vec<u8>)
        requires
            self.encoding().len() <= usize::MAX,
        ensures
            r@ == spec_varint(self.encoding().len()) + self.encoding(),
    {
        let len = self.encoded_len();
        let mut buf: Vec<u8> = Vec::new();
        encode_varint(len as u64, &mut buf);
        self.encode_raw(&mut buf);
        assert(buf@ =~= spec_varint(self.encoding().len()) + self.encoding());
        buf
    }

    /// The message's fields, copied into the arena.
    fn arena_encode<'arena>(&self, arena: &'arena Arena) -> (r: &'arena [u8])
        ensures
            r@ == self.encoding(),
    {
        let buf = self.encode_to_vec();
        arena.alloc_bytes(buf.as_slice())
    }
}

/// Decoding the fields of `s` one after another into a builder whose
/// decoded state is `d`, until no more than `limit` bytes are left: the state
/// and the bytes left, or the first error met. Ending short of `limit`
/// (a field that runs past it) is `DelimitedLengthExceeded`.
pub open spec fn decode_fields<D>(
    step: spec_fn(D, u32, WireType, Seq<u8>, nat) -> Result<(D, nat), DecodeError>,
    d: D,
    s: Seq<u8>,
    limit: nat,
    depth: nat,
) -> Result<(D, Seq<u8>), DecodeError>
    decreases s.len(),
{
    if s.len() <= limit {
        if s.len() == limit {
            Ok((d, s))
        } else {
            Err(DecodeError::DelimitedLengthExceeded)
        }
    } else {
        match spec_decode_key(s) {
            Err(e) => Err(e),
            Ok((tag, wt, k)) => match step(d, tag, wt, s.skip(k as int), depth) {
                Err(e) => Err(e),
                Ok((d2, n)) => if 1 <= k && k + n <= s.len() {
                    decode_fields(step, d2, s.skip((k + n) as int), limit, depth)
                } else {
                    Err(DecodeError::BufferUnderflow)
                },
            },
        }
    }
}

/// Decoding the length-prefixed fields at the front of `s`: a malformed
/// length or one past the end is an error; otherwise the fields of the
/// announced bytes, as `decode_fields` says.
pub open spec fn decode_delimited<D>(
    step: spec_fn(D, u32, WireType, Seq<u8>, nat) -> Result<(D, nat), DecodeError>,
    d: D,
    s: Seq<u8>,
    depth: nat,
) -> Result<(D, Seq<u8>), DecodeError> {
    match spec_decode_varint(s) {
        None => Err(DecodeError::InvalidVarint),
        Some((len, n)) => if len > s.len() - n {
            Err(DecodeError::BufferUnderflow)
        } else {
            decode_fields(step, d, s.skip(n as int), (s.len() - n - len) as nat, depth)
        },
    }
}

/// Decoding a message into a builder that allocates from an arena.
///
/// Each message type says, as `field_step`, what decoding the value of one
/// field does to what it has decoded so far; `merge_field` follows it, and
/// the decoding of whole messages is proved from it.
pub trait Decode<'arena>: Sized {
    /// What a builder has decoded, as the contracts see it.
    type Decoded;

    /// What this builder has decoded.
    spec fn decoded(&self) -> Self::Decoded;

    /// What an empty builder has decoded.
    spec fn initial() -> Self::Decoded;

    /// Decoding the value of a field with the given tag and wire type from
    /// the front of `s`, after its key, with `depth` more levels of nesting
    /// allowed: the decoded state after it and the bytes it takes, or the
    /// error it meets.
    spec fn field_step(
        d: Self::Decoded,
        tag: u32,
        wire_type: WireType,
        s: Seq<u8>,
        depth: nat,
    ) -> Result<(Self::Decoded, nat), DecodeError>;

    /// An empty builder that allocates from `arena`.
    fn new_in(arena: &'arena Arena) -> (r: Self)
        ensures
            r.decoded() == Self::initial(),
    ;

    /// Decodes the value of the field with the given tag and wire type from
    /// the front of `buf`, whose key was just read, into the builder, as
    /// `field_step` says.
    fn merge_field(
        &mut self,
        tag: u32,
        wire_type: WireType,
        buf: &mut &[u8],
        arena: &'arena Arena,
        ctx: DecodeContext,
    ) -> (r: Result<(), DecodeError>)
        ensures
            match Self::field_step(old(self).decoded(), tag, wire_type, old(buf)@, ctx.budget()) {
                Ok((d, n)) => r is Ok && final(self).decoded() == d && n <= old(buf)@.len()
                    && final(buf)@ == old(buf)@.skip(n as int),
                Err(e) => r == Err::<(), DecodeError>(e),
            },
    ;

    /// Decodes fields from the front of `buf` into the builder, each with
    /// the context `ctx`, until no more than `limit` bytes are left, as
    /// `decode_fields` says.
    fn merge_fields_until(
        &mut self,
        buf: &mut &[u8],
        limit: usize,
        arena: &'arena Arena,
        ctx: DecodeContext,
    ) -> (r: Result<(), DecodeError>)
        ensures
            match decode_fields((|d: Self::Decoded, t: u32, w: WireType, x: Seq<u8>, dp: nat| Self::field_step(d, t, w, x, dp)), old(self).decoded(), old(buf)@, limit as nat, ctx.budget()) {
                Ok((d, rest)) => r is Ok && final(self).decoded() == d && final(buf)@ == rest,
                Err(e) => r == Err::<(), DecodeError>(e),
            },
    {
        let ghost s0 = buf@;
        assert(s0.skip(0) =~= s0);
        while buf.len() > limit
            invariant
                is_suffix(s0, buf@),
                s0 == old(buf)@,
                decode_fields((|d: Self::Decoded, t: u32, w: WireType, x: Seq<u8>, dp: nat| Self::field_step(d, t, w, x, dp)), old(self).decoded(), s0, limit as nat, ctx.budget())
                    == decode_fields((|d: Self::Decoded, t: u32, w: WireType, x: Seq<u8>, dp: nat| Self::field_step(d, t, w, x, dp)), self.decoded(), buf@, limit as nat, ctx.budget()),
            decreases buf@.len(),
        {
            let ghost before = buf@;
            proof {
                lemma_decode_key_bounds(before);
            }
            let (tag, wire_type) = match decode_key(buf) {
                Ok(k) => k,
                Err(e) => return Err(e),
            };
            let ghost after_key = buf@;
            let ghost d0 = self.decoded();
            assert((|d: Self::Decoded, t: u32, w: WireType, x: Seq<u8>, dp: nat| Self::field_step(d, t, w, x, dp))(d0, tag, wire_type, after_key, ctx.budget()) == Self::field_step(
                d0,
                tag,
                wire_type,
                after_key,
                ctx.budget(),
            ));
            match self.merge_field(tag, wire_type, buf, arena, ctx) {
                Ok(()) => {},
                Err(e) => return Err(e),
            }
            proof {
                let k = (before.len() - after_key.len()) as nat;
                assert(after_key == before.skip(k as int));
                assert(buf@ =~= before.skip(before.len() - buf@.len()));
                assert(buf@ =~= s0.skip(s0.len() - buf@.len()));
            }
        }
        if buf.len() != limit {
            return Err(DecodeError::DelimitedLengthExceeded);
        }
        Ok(())
    }

    /// Decodes the fields in `buf`, all of it, into the builder, in order,
    /// each with the top-level context, as `decode_fields` says.
    fn merge(&mut self, buf: &[u8], arena: &'arena Arena) -> (r: Result<(), DecodeError>)
        ensures
            match decode_fields((|d: Self::Decoded, t: u32, w: WireType, x: Seq<u8>, dp: nat| Self::field_step(d, t, w, x, dp)), old(self).decoded(), buf@, 0, RECURSION_LIMIT as nat) {
                Ok((d, _)) => r is Ok && final(self).decoded() == d,
                Err(e) => r == Err::<(), DecodeError>(e),
            },
    {
        let mut cur: &[u8] = buf;
        self.merge_fields_until(&mut cur, 0, arena, DecodeContext::default())
    }

    /// Decodes a message from all of `buf`.
    fn decode(buf: &[u8], arena: &'arena Arena) -> (r: Result<Self, DecodeError>)
        ensures
            match decode_fields((|d: Self::Decoded, t: u32, w: WireType, x: Seq<u8>, dp: nat| Self::field_step(d, t, w, x, dp)), Self::initial(), buf@, 0, RECURSION_LIMIT as nat) {
                Ok((d, _)) => r matches Ok(m) && m.decoded() == d,
                Err(e) => r == Err::<Self, DecodeError>(e),
            },
    {
        let mut msg = Self::new_in(arena);
        match msg.merge(buf, arena) {
            Ok(()) => Ok(msg),
            Err(e) => Err(e),
        }
    }

    /// Decodes a message from the length-prefixed bytes at the front of
    /// `buf`.
    fn decode_length_delimited(buf: &[u8], arena: &'arena Arena) -> (r: Result<Self, DecodeError>)
        ensures
            match decode_delimited((|d: Self::Decoded, t: u32, w: WireType, x: Seq<u8>, dp: nat| Self::field_step(d, t, w, x, dp)), Self::initial(), buf@, (RECURSION_LIMIT - 1) as nat) {
                Ok((d, _)) => r matches Ok(m) && m.decoded() == d,
                Err(e) => r == Err::<Self, DecodeError>(e),
            },
    {
        let mut msg = Self::new_in(arena);
        match msg.merge_length_delimited(buf, arena) {
            Ok(()) => Ok(msg),
            Err(e) => Err(e),
        }
    }

    /// Decodes the length-prefixed fields at the front of `buf` into the
    /// builder, one level of nesting below the top.
    fn merge_length_delimited(&mut self, buf: &[u8], arena: &'arena Arena) -> (r: Result<
        (),
        DecodeError,
    >)
        ensures
            match decode_delimited((|d: Self::Decoded, t: u32, w: WireType, x: Seq<u8>, dp: nat| Self::field_step(d, t, w, x, dp)), old(self).decoded(), buf@, (RECURSION_LIMIT - 1) as nat) {
                Ok((d, _)) => r is Ok && final(self).decoded() == d,
                Err(e) => r == Err::<(), DecodeError>(e),
            },
    {
        let mut cur: &[u8] = buf;
        proof {
            lemma_decode_varint_bounds(buf@);
        }
        let len = match decode_varint(&mut cur) {
            Ok(l) => l,
            Err(e) => return Err(e),
        };
        let remaining = cur.len();
        if len > remaining as u64 {
            return Err(DecodeError::BufferUnderflow);
        }
        let limit = remaining - len as usize;
        let ctx = DecodeContext::default().enter_recursion();
        self.merge_fields_until(&mut cur, limit, arena, ctx)
    }
}

/// A frozen message type, linked to the builder that decodes it.
pub trait MessageView<'arena>: Sized {
    /// The builder that decodes messages of this type.
    type Builder: Decode<'arena>;

    /// Decodes a message of this type from all of `buf`.
    fn from_buf(buf: &[u8], arena: &'arena Arena) -> Result<Self, DecodeError>;
}

} // verus!
