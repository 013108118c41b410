//! The length prefix that frames a length-delimited message.
use vstd::prelude::*;

use crate::buf::remaining_mut;
use crate::error::{DecodeError, EncodeError};
use crate::varint::{
    decode_varint, encode_varint, encoded_len_varint, lemma_decode_encode_varint,
    spec_decode_varint, spec_varint, spec_varint_len,
};

verus! {

/// Appends `length` as a varint length prefix, or fails, leaving `buf` as it
/// was, when the buffer has no room for it.
pub fn encode_length_delimiter(length: usize, buf: &mut Vec<u8>) -> (r: Result<(), EncodeError>)
    ensures
        spec_varint_len(length as nat) > isize::MAX - old(buf)@.len() ==> r == Err::<
            (),
            EncodeError,
        >(
            EncodeError {
                required: spec_varint_len(length as nat) as usize,
                remaining: (isize::MAX - old(buf)@.len()) as usize,
            },
        ) && final(buf)@ == old(buf)@,
        spec_varint_len(length as nat) <= isize::MAX - old(buf)@.len() ==> r is Ok && final(buf)@
            == old(buf)@ + spec_varint(length as nat),
{
    let length = length as u64;
    let required = encoded_len_varint(length);
    let remaining = remaining_mut(buf);
    if required > remaining {
        return Err(EncodeError::new(required, remaining));
    }
    encode_varint(length, buf);
    Ok(())
}

/// The number of bytes in the length prefix for `length`.
pub fn length_delimiter_len(length: usize) -> (r: usize)
    ensures
        r == spec_varint_len(length as nat),
{
    encoded_len_varint(length as u64)
}

/// Decodes a length prefix from the front of `buf` and advances past it.
///
/// Fails, leaving `buf` as it was, on a malformed varint or a length that does
/// not fit in `usize`.
pub fn decode_length_delimiter(buf: &mut &[u8]) -> (r: Result<usize, DecodeError>)
    ensures
        match spec_decode_varint(old(buf)@) {
            Some((v, n)) => if v <= usize::MAX {
                r == Ok::<usize, DecodeError>(v as usize) && final(buf)@ == old(buf)@.skip(n as int)
            } else {
                r == Err::<usize, DecodeError>(DecodeError::LengthDelimiterTooLarge) && final(buf)@
                    == old(buf)@
            },
            None => r == Err::<usize, DecodeError>(DecodeError::InvalidVarint) && final(buf)@
                == old(buf)@,
        },
{
    let start: &[u8] = *buf;
    let length = match decode_varint(buf) {
        Ok(l) => l,
        Err(e) => return Err(e),
    };
    if length > usize::MAX as u64 {
        *buf = start;
        return Err(DecodeError::LengthDelimiterTooLarge);
    }
    Ok(length as usize)
}

/// A length prefix decodes to the length it was encoded from, taking
/// exactly its own bytes, whatever follows it.
pub proof fn lemma_length_delimiter_roundtrip(length: usize, rest: Seq<u8>)
    ensures
        spec_decode_varint(spec_varint(length as nat) + rest) == Some(
            (length as u64, spec_varint_len(length as nat)),
        ),
{
    lemma_decode_encode_varint(length as u64, rest);
}

} // verus!
