use defiant::arena::Arena;
use defiant::encoding::{
    bool as pbool, bytes, fixed32, fixed64, int32, int64, sfixed32, sfixed64, sint32, sint64,
    string, uint32, uint64, DecodeContext,
};
use defiant::error::DecodeError;
use defiant::wire_type::WireType;

fn ctx() -> DecodeContext {
    DecodeContext::new()
}

#[test]
fn int32_negative_takes_ten_bytes() {
    let mut buf = Vec::new();
    int32::encode(1, &-1, &mut buf);
    assert_eq!(buf.len(), 11);
    assert_eq!(int32::encoded_len(1, &-1), 11);
    let mut slice: &[u8] = &buf[1..];
    let mut v = 0i32;
    assert_eq!(int32::merge(WireType::Varint, &mut v, &mut slice, ctx()), Ok(()));
    assert_eq!(v, -1);
}

#[test]
fn sint_zigzag_values() {
    let mut buf = Vec::new();
    sint32::encode(1, &-1, &mut buf);
    assert_eq!(buf, vec![0x08, 0x01]);
    let mut buf = Vec::new();
    sint32::encode(1, &1, &mut buf);
    assert_eq!(buf, vec![0x08, 0x02]);
    let mut buf = Vec::new();
    sint64::encode(2, &i64::MIN, &mut buf);
    let mut slice: &[u8] = &buf[1..];
    let mut v = 0i64;
    assert_eq!(sint64::merge(WireType::Varint, &mut v, &mut slice, ctx()), Ok(()));
    assert_eq!(v, i64::MIN);
}

#[test]
fn varint_codecs_roundtrip() {
    let mut buf = Vec::new();
    int64::encode(3, &-42, &mut buf);
    uint32::encode(4, &u32::MAX, &mut buf);
    uint64::encode(5, &u64::MAX, &mut buf);
    pbool::encode(6, &true, &mut buf);
    let mut slice: &[u8] = &buf;
    let mut a = 0i64;
    let mut b = 0u32;
    let mut c = 0u64;
    let mut d = false;
    slice = &slice[1..];
    assert_eq!(int64::merge(WireType::Varint, &mut a, &mut slice, ctx()), Ok(()));
    slice = &slice[1..];
    assert_eq!(uint32::merge(WireType::Varint, &mut b, &mut slice, ctx()), Ok(()));
    slice = &slice[1..];
    assert_eq!(uint64::merge(WireType::Varint, &mut c, &mut slice, ctx()), Ok(()));
    slice = &slice[1..];
    assert_eq!(pbool::merge(WireType::Varint, &mut d, &mut slice, ctx()), Ok(()));
    assert_eq!((a, b, c, d), (-42, u32::MAX, u64::MAX, true));
    assert!(slice.is_empty());
}

#[test]
fn fixed_codecs_roundtrip() {
    let mut buf = Vec::new();
    fixed32::encode(1, &0x0102_0304, &mut buf);
    assert_eq!(buf, vec![0x0d, 0x04, 0x03, 0x02, 0x01]);
    assert_eq!(fixed32::encoded_len(1, &7), 5);
    fixed64::encode(2, &u64::MAX, &mut buf);
    sfixed32::encode(3, &-2, &mut buf);
    sfixed64::encode(4, &i64::MIN, &mut buf);
    assert_eq!(sfixed64::encoded_len(4, &0), 9);

    let mut slice: &[u8] = &buf[1..];
    let mut a = 0u32;
    assert_eq!(fixed32::merge(WireType::ThirtyTwoBit, &mut a, &mut slice, ctx()), Ok(()));
    slice = &slice[1..];
    let mut b = 0u64;
    assert_eq!(fixed64::merge(WireType::SixtyFourBit, &mut b, &mut slice, ctx()), Ok(()));
    slice = &slice[1..];
    let mut c = 0i32;
    assert_eq!(sfixed32::merge(WireType::ThirtyTwoBit, &mut c, &mut slice, ctx()), Ok(()));
    slice = &slice[1..];
    let mut d = 0i64;
    assert_eq!(sfixed64::merge(WireType::SixtyFourBit, &mut d, &mut slice, ctx()), Ok(()));
    assert_eq!((a, b, c, d), (0x0102_0304, u64::MAX, -2, i64::MIN));
}

#[test]
fn fixed_merge_errors() {
    let short: &[u8] = &[1, 2, 3];
    let mut slice = short;
    let mut v = 9u32;
    assert_eq!(
        fixed32::merge(WireType::ThirtyTwoBit, &mut v, &mut slice, ctx()),
        Err(DecodeError::BufferUnderflow)
    );
    assert_eq!((v, slice), (9, short));
    assert_eq!(
        fixed32::merge(WireType::Varint, &mut v, &mut slice, ctx()),
        Err(DecodeError::WireTypeMismatch {
            expected: WireType::ThirtyTwoBit,
            actual: WireType::Varint
        })
    );
}

#[test]
fn varint_merge_wire_type_mismatch() {
    let data: &[u8] = &[1];
    let mut slice = data;
    let mut v = 5i32;
    assert_eq!(
        int32::merge(WireType::LengthDelimited, &mut v, &mut slice, ctx()),
        Err(DecodeError::WireTypeMismatch {
            expected: WireType::Varint,
            actual: WireType::LengthDelimited
        })
    );
    assert_eq!(v, 5);
}

#[test]
fn repeated_and_packed() {
    let values = [1u32, 150, 3];
    let mut buf = Vec::new();
    uint32::encode_packed(4, &values, &mut buf);
    assert_eq!(buf, vec![0x22, 0x04, 0x01, 0x96, 0x01, 0x03]);
    assert_eq!(uint32::encoded_len_packed(4, &values), buf.len());

    let mut decoded = Vec::new();
    let mut slice: &[u8] = &buf[1..];
    assert_eq!(uint32::merge_repeated(WireType::LengthDelimited, &mut decoded, &mut slice, ctx()), Ok(()));
    assert_eq!(decoded, values);

    let mut empty = Vec::new();
    uint32::encode_packed(4, &[], &mut empty);
    assert!(empty.is_empty());
    assert_eq!(uint32::encoded_len_packed(4, &[]), 0);

    let mut rep = Vec::new();
    uint32::encode_repeated(4, &values, &mut rep);
    assert_eq!(rep, vec![0x20, 0x01, 0x20, 0x96, 0x01, 0x20, 0x03]);
    assert_eq!(uint32::encoded_len_repeated(4, &values), rep.len());
    let mut one = vec![7u32];
    let mut slice: &[u8] = &rep[1..];
    assert_eq!(uint32::merge_repeated(WireType::Varint, &mut one, &mut slice, ctx()), Ok(()));
    assert_eq!(one, vec![7, 1]);

    let fixed = [1u64, 2];
    let mut buf = Vec::new();
    fixed64::encode_packed(1, &fixed, &mut buf);
    assert_eq!(fixed64::encoded_len_packed(1, &fixed), buf.len());
    let mut out = Vec::new();
    let mut slice: &[u8] = &buf[1..];
    assert_eq!(fixed64::merge_repeated(WireType::LengthDelimited, &mut out, &mut slice, ctx()), Ok(()));
    assert_eq!(out, fixed);
}

#[test]
fn string_and_bytes_roundtrip() {
    let arena = Arena::new();
    let mut buf = Vec::new();
    string::encode(2, "héllo", &mut buf);
    assert_eq!(buf[0], 0x12);
    assert_eq!(buf[1] as usize, "héllo".len());
    assert_eq!(string::encoded_len(2, "héllo"), buf.len());
    let mut slice: &[u8] = &buf[1..];
    let s = string::merge_arena(WireType::LengthDelimited, &mut slice, &arena, ctx()).unwrap();
    assert_eq!(s, "héllo");
    assert!(slice.is_empty());

    let mut buf = Vec::new();
    bytes::encode(3, &[0, 255], &mut buf);
    assert_eq!(buf, vec![0x1a, 0x02, 0x00, 0xff]);
    assert_eq!(bytes::encoded_len(3, &[0, 255]), 4);
    let mut slice: &[u8] = &buf[1..];
    let b = bytes::merge_arena(WireType::LengthDelimited, &mut slice, &arena, ctx()).unwrap();
    assert_eq!(b, &[0, 255]);
}

#[test]
fn string_invalid_utf8_is_refused() {
    let arena = Arena::new();
    let data: &[u8] = &[0x02, 0xff, 0xfe];
    let mut slice = data;
    assert_eq!(
        string::merge_arena(WireType::LengthDelimited, &mut slice, &arena, ctx()),
        Err(DecodeError::InvalidUtf8)
    );
    assert_eq!(slice, data);
}

#[test]
fn string_underflow_and_repeated() {
    let arena = Arena::new();
    let data: &[u8] = &[0x05, b'a'];
    let mut slice = data;
    assert_eq!(
        string::merge_arena(WireType::LengthDelimited, &mut slice, &arena, ctx()),
        Err(DecodeError::BufferUnderflow)
    );

    let values = ["x", "", "yz"];
    let mut buf = Vec::new();
    string::encode_repeated(1, &values, &mut buf);
    assert_eq!(string::encoded_len_repeated(1, &values), buf.len());
    let mut out: Vec<&str> = Vec::new();
    let mut slice: &[u8] = &buf;
    while !slice.is_empty() {
        slice = &slice[1..];
        string::merge_repeated_arena(WireType::LengthDelimited, &mut out, &mut slice, &arena, ctx()).unwrap();
    }
    assert_eq!(out, values);

    let byte_values: [&[u8]; 2] = [b"ab", b""];
    let mut buf = Vec::new();
    bytes::encode_repeated(1, &byte_values, &mut buf);
    assert_eq!(bytes::encoded_len_repeated(1, &byte_values), buf.len());
    let mut outb: Vec<&[u8]> = Vec::new();
    let mut slice: &[u8] = &buf;
    while !slice.is_empty() {
        slice = &slice[1..];
        bytes::merge_repeated_arena(WireType::LengthDelimited, &mut outb, &mut slice, &arena, ctx()).unwrap();
    }
    assert_eq!(outb, byte_values);
}
