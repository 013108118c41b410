use vstd::prelude::*;

use crate::debug::{fmt_unsigned, spec_digits};
use crate::text::{chars_of, concat_str, string_from_chars};
use crate::wire_type::{spec_wire_type_name, WireType};

verus! {

/// The reasons for which decoding a Protobuf message can fail.
#[derive(Debug, Clone, Copy, PartialEq, Eq, Structural)]
pub enum DecodeError {
    /// The buffer ended inside a varint, or the varint is longer than ten
    /// bytes, or its value does not fit in 64 bits.
    InvalidVarint,
    /// A field key whose value does not fit in 32 bits.
    InvalidKey(u64),
    /// A field key whose low three bits name no wire type.
    InvalidWireType(u64),
    /// A field key whose tag is zero.
    InvalidTag,
    /// A length prefix or a fixed-width value reaches past the end of the buffer.
    BufferUnderflow,
    /// The fields of a length-delimited value run past its declared length.
    DelimitedLengthExceeded,
    /// An end-group key without a matching start group.
    UnexpectedEndGroupTag,
    /// Nested messages or groups exceed the recursion limit.
    RecursionLimitReached,
    /// A field arrived with a wire type other than the one its type uses.
    WireTypeMismatch { expected: WireType, actual: WireType },
    /// A string field holds bytes that are not UTF-8.
    InvalidUtf8,
    /// A length delimiter that does not fit in `usize`.
    LengthDelimiterTooLarge,
}

/// The message of a decode error.
pub open spec fn spec_decode_error_text(e: DecodeError) -> Seq<char> {
    match e {
        DecodeError::InvalidVarint => "invalid varint"@,
        DecodeError::InvalidTag => "invalid tag value: 0"@,
        DecodeError::BufferUnderflow => "buffer underflow"@,
        DecodeError::DelimitedLengthExceeded => "delimited length exceeded"@,
        DecodeError::UnexpectedEndGroupTag => "unexpected end group tag"@,
        DecodeError::RecursionLimitReached => "recursion limit reached"@,
        DecodeError::InvalidUtf8 => "invalid string value: data is not UTF-8 encoded"@,
        DecodeError::LengthDelimiterTooLarge => "length delimiter exceeds maximum usize value"@,
        DecodeError::InvalidKey(k) => "invalid key value: "@ + spec_digits(k as nat),
        DecodeError::InvalidWireType(v) => "invalid wire type value: "@ + spec_digits(v as nat),
        DecodeError::WireTypeMismatch { expected, actual } => "invalid wire type: "@
            + spec_wire_type_name(actual) + " (expected "@ + spec_wire_type_name(expected) + ")"@,
    }
}

impl DecodeError {
    /// The message that describes the error, as its `Display` text reads.
    pub fn description(&self) -> (r: String)
        ensures
            r@ == spec_decode_error_text(*self),
    {
        match self {
            DecodeError::InvalidVarint => string_from_chars(&chars_of("invalid varint")),
            DecodeError::InvalidTag => string_from_chars(&chars_of("invalid tag value: 0")),
            DecodeError::BufferUnderflow => string_from_chars(&chars_of("buffer underflow")),
            DecodeError::DelimitedLengthExceeded => string_from_chars(&chars_of("delimited length exceeded")),
            DecodeError::UnexpectedEndGroupTag => string_from_chars(&chars_of("unexpected end group tag")),
            DecodeError::RecursionLimitReached => string_from_chars(&chars_of("recursion limit reached")),
            DecodeError::InvalidUtf8 => string_from_chars(&chars_of("invalid string value: data is not UTF-8 encoded")),
            DecodeError::LengthDelimiterTooLarge => string_from_chars(&chars_of("length delimiter exceeds maximum usize value")),
            DecodeError::InvalidKey(k) => {
                let d = fmt_unsigned(*k);
                concat_str("invalid key value: ", d.as_str())
            },
            DecodeError::InvalidWireType(v) => {
                let d = fmt_unsigned(*v);
                concat_str("invalid wire type value: ", d.as_str())
            },
            DecodeError::WireTypeMismatch { expected, actual } => {
                let a = concat_str("invalid wire type: ", actual.name());
                let b = concat_str(a.as_str(), " (expected ");
                let c = concat_str(b.as_str(), expected.name());
                concat_str(c.as_str(), ")")
            },
        }
    }
}

/// A buffer is too small to hold an encoded message.
#[derive(Debug, Clone, Copy, PartialEq, Eq, Structural)]
pub struct EncodeError {
    /// Bytes the encoding needs.
    pub required: usize,
    /// Bytes the buffer has room for.
    pub remaining: usize,
}

impl EncodeError {
    /// Creates an error for an encoding that needs `required` bytes where
    /// `remaining` are left.
    pub fn new(required: usize, remaining: usize) -> (r: EncodeError)
        ensures
            r.required == required,
            r.remaining == remaining,
    {
        EncodeError { required, remaining }
    }

    /// Bytes the encoding needs.
    pub fn required_capacity(&self) -> (r: usize)
        ensures
            r == self.required,
    {
        self.required
    }

    /// Bytes the buffer has room for.
    pub fn remaining(&self) -> (r: usize)
        ensures
            r == self.remaining,
    {
        self.remaining
    }
}

} // verus!
