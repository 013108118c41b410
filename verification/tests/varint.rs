use defiant::encoding::{decode_key, encode_key, key_len, skip_field, DecodeContext};
use defiant::error::DecodeError;
use defiant::length_delimiter::{
    decode_length_delimiter, encode_length_delimiter, length_delimiter_len,
};
use defiant::varint::{decode_varint, encode_varint, encoded_len_varint};
use defiant::wire_type::{check_wire_type, WireType};

#[test]
fn split_varint_decoding() {
    let mut test_values = Vec::<u64>::with_capacity(10 * 2);
    test_values.push(128);
    for i in 2..9 {
        test_values.push((1 << (7 * i)) - 1);
        test_values.push(1 << (7 * i));
    }

    for v in test_values {
        let mut buf = Vec::with_capacity(10);
        encode_varint(v, &mut buf);
        let len = buf.len();
        let half_len = buf.len() / 2;
        let (first, second) = buf.split_at(half_len);
        let mut joined: Vec<u8> = first.to_vec();
        joined.extend_from_slice(second);
        assert_eq!(joined.len(), len);
        assert_eq!(first.len(), half_len);
        let mut slice: &[u8] = &joined;
        assert_eq!(v, decode_varint(&mut slice).unwrap());
    }
}

#[test]
fn varint_known_encodings() {
    let cases: [(u64, &[u8]); 6] = [
        (0, &[0x00]),
        (1, &[0x01]),
        (127, &[0x7f]),
        (128, &[0x80, 0x01]),
        (300, &[0xac, 0x02]),
        (u64::MAX, &[0xff, 0xff, 0xff, 0xff, 0xff, 0xff, 0xff, 0xff, 0xff, 0x01]),
    ];
    for (v, bytes) in cases {
        let mut buf = Vec::new();
        encode_varint(v, &mut buf);
        assert_eq!(buf, bytes);
        assert_eq!(encoded_len_varint(v), bytes.len());
        let mut slice: &[u8] = bytes;
        assert_eq!(decode_varint(&mut slice), Ok(v));
        assert!(slice.is_empty());
    }
}

#[test]
fn varint_roundtrip_leaves_the_rest() {
    for v in [0u64, 5, 1 << 14, (1 << 35) + 17, u64::MAX - 1] {
        let mut buf = Vec::new();
        encode_varint(v, &mut buf);
        buf.extend_from_slice(&[9, 9]);
        let mut slice: &[u8] = &buf;
        assert_eq!(decode_varint(&mut slice), Ok(v));
        assert_eq!(slice, &[9, 9]);
    }
}

#[test]
fn varint_errors_leave_buffer() {
    let truncated: &[u8] = &[0x80, 0x80];
    let mut slice = truncated;
    assert_eq!(decode_varint(&mut slice), Err(DecodeError::InvalidVarint));
    assert_eq!(slice, truncated);

    let too_long: &[u8] = &[0xff; 11];
    let mut slice = too_long;
    assert_eq!(decode_varint(&mut slice), Err(DecodeError::InvalidVarint));

    let overflow: &[u8] = &[0xff, 0xff, 0xff, 0xff, 0xff, 0xff, 0xff, 0xff, 0xff, 0x02];
    let mut slice = overflow;
    assert_eq!(decode_varint(&mut slice), Err(DecodeError::InvalidVarint));
    assert_eq!(slice, overflow);

    let empty: &[u8] = &[];
    let mut slice = empty;
    assert_eq!(decode_varint(&mut slice), Err(DecodeError::InvalidVarint));
}

#[test]
fn key_roundtrip_and_errors() {
    let mut buf = Vec::new();
    encode_key(1, WireType::Varint, &mut buf);
    assert_eq!(buf, vec![0x08]);
    encode_key(536_870_911, WireType::ThirtyTwoBit, &mut buf);
    let mut slice: &[u8] = &buf;
    assert_eq!(decode_key(&mut slice), Ok((1, WireType::Varint)));
    assert_eq!(decode_key(&mut slice), Ok((536_870_911, WireType::ThirtyTwoBit)));
    assert!(slice.is_empty());

    let zero_tag: &[u8] = &[0x00];
    let mut slice = zero_tag;
    assert_eq!(decode_key(&mut slice), Err(DecodeError::InvalidTag));
    assert_eq!(slice, zero_tag);

    let bad_wire_type: &[u8] = &[0x0f];
    let mut slice = bad_wire_type;
    assert_eq!(decode_key(&mut slice), Err(DecodeError::InvalidWireType(7)));

    let mut big = Vec::new();
    encode_varint(1 << 33, &mut big);
    let mut slice: &[u8] = &big;
    assert_eq!(decode_key(&mut slice), Err(DecodeError::InvalidKey(1 << 33)));
}

#[test]
fn key_len_values() {
    assert_eq!(key_len(1), 1);
    assert_eq!(key_len(15), 1);
    assert_eq!(key_len(16), 2);
    assert_eq!(key_len(536_870_911), 5);
}

#[test]
fn wire_type_values() {
    assert_eq!(WireType::Varint.value(), 0);
    assert_eq!(WireType::ThirtyTwoBit.value(), 5);
    assert_eq!(WireType::try_from_u64(2), Ok(WireType::LengthDelimited));
    assert_eq!(WireType::try_from_u64(6), Err(DecodeError::InvalidWireType(6)));
    assert_eq!(check_wire_type(WireType::Varint, WireType::Varint), Ok(()));
    assert_eq!(
        check_wire_type(WireType::Varint, WireType::SixtyFourBit),
        Err(DecodeError::WireTypeMismatch {
            expected: WireType::Varint,
            actual: WireType::SixtyFourBit
        })
    );
}

#[test]
fn skip_field_each_wire_type() {
    let ctx = DecodeContext::new();
    let data: &[u8] = &[0xac, 0x02, 0xaa];
    let mut slice = data;
    assert_eq!(skip_field(WireType::Varint, 1, &mut slice, ctx), Ok(()));
    assert_eq!(slice, &[0xaa]);

    let data: &[u8] = &[1, 2, 3, 4, 5];
    let mut slice = data;
    assert_eq!(skip_field(WireType::ThirtyTwoBit, 1, &mut slice, ctx), Ok(()));
    assert_eq!(slice, &[5]);

    let mut slice = data;
    assert_eq!(skip_field(WireType::SixtyFourBit, 1, &mut slice, ctx), Err(DecodeError::BufferUnderflow));
    assert_eq!(slice, data);

    let data: &[u8] = &[0x02, 7, 8, 9];
    let mut slice = data;
    assert_eq!(skip_field(WireType::LengthDelimited, 1, &mut slice, ctx), Ok(()));
    assert_eq!(slice, &[9]);

    // A group of tag 3 holding a varint field of tag 1, then its end key.
    let mut group = Vec::new();
    encode_key(1, WireType::Varint, &mut group);
    encode_varint(150, &mut group);
    encode_key(3, WireType::EndGroup, &mut group);
    group.push(0x55);
    let mut slice: &[u8] = &group;
    assert_eq!(skip_field(WireType::StartGroup, 3, &mut slice, ctx), Ok(()));
    assert_eq!(slice, &[0x55]);

    let mut slice: &[u8] = &group;
    assert_eq!(
        skip_field(WireType::StartGroup, 4, &mut slice, ctx),
        Err(DecodeError::UnexpectedEndGroupTag)
    );

    let data: &[u8] = &[];
    let mut slice = data;
    assert_eq!(
        skip_field(WireType::EndGroup, 1, &mut slice, ctx),
        Err(DecodeError::UnexpectedEndGroupTag)
    );
}

#[test]
fn skip_field_recursion_limit() {
    let mut nested = Vec::new();
    for _ in 0..101 {
        encode_key(1, WireType::StartGroup, &mut nested);
    }
    for _ in 0..101 {
        encode_key(1, WireType::EndGroup, &mut nested);
    }
    let mut slice: &[u8] = &nested[1..];
    assert_eq!(
        skip_field(WireType::StartGroup, 1, &mut slice, DecodeContext::new()),
        Err(DecodeError::RecursionLimitReached)
    );

    let mut shallow = Vec::new();
    for _ in 0..10 {
        encode_key(1, WireType::StartGroup, &mut shallow);
    }
    for _ in 0..10 {
        encode_key(1, WireType::EndGroup, &mut shallow);
    }
    let mut slice: &[u8] = &shallow[1..];
    assert_eq!(skip_field(WireType::StartGroup, 1, &mut slice, DecodeContext::new()), Ok(()));
    assert!(slice.is_empty());
}

#[test]
fn decode_context_limit() {
    let mut ctx = DecodeContext::default();
    for _ in 0..100 {
        assert_eq!(ctx.limit_reached(), Ok(()));
        ctx = ctx.enter_recursion();
    }
    assert_eq!(ctx.limit_reached(), Err(DecodeError::RecursionLimitReached));
}

#[test]
fn length_delimiter_roundtrip() {
    for len in [0usize, 1, 127, 128, 16_384, usize::MAX] {
        let mut buf = Vec::new();
        assert_eq!(encode_length_delimiter(len, &mut buf), Ok(()));
        assert_eq!(buf.len(), length_delimiter_len(len));
        let mut slice: &[u8] = &buf;
        assert_eq!(decode_length_delimiter(&mut slice), Ok(len));
        assert!(slice.is_empty());
    }
    let bad: &[u8] = &[0x80];
    let mut slice = bad;
    assert_eq!(decode_length_delimiter(&mut slice), Err(DecodeError::InvalidVarint));
}
