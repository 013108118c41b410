//! Arena-based Protocol Buffers encoding and decoding.
pub mod error;
pub mod varint;
pub mod wire_type;
pub mod buf;
pub mod encoding;
pub mod length_delimiter;
pub mod scalar;
pub mod scalar_laws;
pub mod codec_laws;
pub mod map_laws;
pub mod arena;
pub mod text;
pub mod debug;
pub mod enumeration;
pub mod conformance;
pub mod descriptor;
pub mod map_field;
pub mod bytes_adapter;
pub mod message_fields;
pub mod message;
pub mod field_type;
pub mod field_plan;

pub use crate::arena::{Arena, ArenaFrom, ArenaInto, ArenaMap};
pub use crate::enumeration::UnknownEnumValue;
pub use crate::error::{DecodeError, EncodeError};
pub use crate::length_delimiter::{
    decode_length_delimiter, encode_length_delimiter, length_delimiter_len,
};
pub use crate::message::{Decode, Encode, MessageView};
