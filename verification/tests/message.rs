use defiant::arena::Arena;
use defiant::conformance::{ConformanceRequest, ConformanceResult, Payload};
use defiant::encoding::{encode_key, group, int32, message, string, DecodeContext};
use defiant::error::DecodeError;
use defiant::message::{Decode, Encode};
use defiant::wire_type::WireType;

fn body() -> Vec<u8> {
    let mut b = Vec::new();
    int32::encode(3, &1, &mut b);
    string::encode(4, "t", &mut b);
    b
}

#[test]
fn message_field_roundtrip() {
    let arena = Arena::new();
    let r = ConformanceResult::Skipped("why".to_string());
    let mut buf = Vec::new();
    message::encode(7, &r, &mut buf);
    assert_eq!(message::encoded_len(7, &r), buf.len());
    assert_eq!(buf[0], (7 << 3) | 2);
    assert_eq!(&buf[2..], &r.encode_to_vec()[..]);

    let rs = [r.clone(), ConformanceResult::ParseError(String::new())];
    let mut rep = Vec::new();
    message::encode_repeated(7, &rs, &mut rep);
    assert_eq!(message::encoded_len_repeated(7, &rs), rep.len());

    let mut framed = Vec::new();
    defiant::varint::encode_varint(body().len() as u64, &mut framed);
    framed.extend_from_slice(&body());
    framed.push(0xee);
    let mut req = ConformanceRequest::new_in(&arena);
    let mut slice: &[u8] = &framed;
    assert_eq!(
        message::merge(WireType::LengthDelimited, &mut req, &mut slice, &arena, DecodeContext::new()),
        Ok(())
    );
    assert_eq!(slice, &[0xee]);
    assert_eq!(req.requested_output_format, 1);
    assert_eq!(req.message_type, "t");
}

#[test]
fn message_merge_errors() {
    let arena = Arena::new();
    let mut req = ConformanceRequest::new_in(&arena);
    let data: &[u8] = &[0x05, 0x08];
    let mut slice = data;
    assert_eq!(
        message::merge(WireType::LengthDelimited, &mut req, &mut slice, &arena, DecodeContext::new()),
        Err(DecodeError::BufferUnderflow)
    );
    let mut slice = data;
    assert_eq!(
        message::merge(WireType::Varint, &mut req, &mut slice, &arena, DecodeContext::new()),
        Err(DecodeError::WireTypeMismatch {
            expected: WireType::LengthDelimited,
            actual: WireType::Varint
        })
    );
    let mut ctx = DecodeContext::new();
    for _ in 0..100 {
        ctx = ctx.enter_recursion();
    }
    let empty: &[u8] = &[0x00];
    let mut slice = empty;
    assert_eq!(
        message::merge(WireType::LengthDelimited, &mut req, &mut slice, &arena, ctx),
        Err(DecodeError::RecursionLimitReached)
    );
    // A field running past the announced length.
    let over: &[u8] = &[0x01, 0x18, 0x01];
    let mut slice = over;
    assert_eq!(
        message::merge(WireType::LengthDelimited, &mut req, &mut slice, &arena, DecodeContext::new()),
        Err(DecodeError::DelimitedLengthExceeded)
    );
}

#[test]
fn message_merge_repeated_appends() {
    let arena = Arena::new();
    let mut framed = Vec::new();
    defiant::varint::encode_varint(body().len() as u64, &mut framed);
    framed.extend_from_slice(&body());
    let mut reqs: Vec<ConformanceRequest> = Vec::new();
    let mut slice: &[u8] = &framed;
    assert_eq!(
        message::merge_repeated(WireType::LengthDelimited, &mut reqs, &mut slice, &arena, DecodeContext::new()),
        Ok(())
    );
    assert_eq!(reqs.len(), 1);
    assert_eq!(reqs[0].message_type, "t");
    let bad: &[u8] = &[0x09];
    let mut slice = bad;
    assert!(message::merge_repeated(WireType::LengthDelimited, &mut reqs, &mut slice, &arena, DecodeContext::new()).is_err());
    assert_eq!(reqs.len(), 1);
}

#[test]
fn group_field_roundtrip() {
    let arena = Arena::new();
    let r = ConformanceResult::ProtobufPayload(vec![1, 2]);
    let mut buf = Vec::new();
    group::encode(2, &r, &mut buf);
    assert_eq!(group::encoded_len(2, &r), buf.len());
    assert_eq!(buf[0], (2 << 3) | 3);
    assert_eq!(buf[buf.len() - 1], (2 << 3) | 4);

    let rs = [r.clone(), r];
    let mut rep = Vec::new();
    group::encode_repeated(2, &rs, &mut rep);
    assert_eq!(group::encoded_len_repeated(2, &rs), rep.len());

    let mut g = body();
    encode_key(6, WireType::EndGroup, &mut g);
    g.push(0x77);
    let mut req = ConformanceRequest::new_in(&arena);
    let mut slice: &[u8] = &g;
    assert_eq!(
        group::merge(6, WireType::StartGroup, &mut req, &mut slice, &arena, DecodeContext::new()),
        Ok(())
    );
    assert_eq!(slice, &[0x77]);
    assert_eq!(req.message_type, "t");

    let mut slice: &[u8] = &g;
    assert_eq!(
        group::merge(5, WireType::StartGroup, &mut req, &mut slice, &arena, DecodeContext::new()),
        Err(DecodeError::UnexpectedEndGroupTag)
    );
    let mut reqs: Vec<ConformanceRequest> = Vec::new();
    let mut slice: &[u8] = &g;
    assert_eq!(
        group::merge_repeated(6, WireType::StartGroup, &mut reqs, &mut slice, &arena, DecodeContext::new()),
        Ok(())
    );
    assert_eq!(reqs.len(), 1);
}

#[test]
fn decode_traits() {
    let arena = Arena::new();
    let empty: &[u8] = &[];
    let req = ConformanceRequest::decode(empty, &arena).unwrap();
    assert_eq!(req.payload, None);
    let bad_key: &[u8] = &[0x00];
    assert_eq!(ConformanceRequest::decode(bad_key, &arena).err(), Some(DecodeError::InvalidTag));

    let mut framed = Vec::new();
    defiant::varint::encode_varint(body().len() as u64, &mut framed);
    framed.extend_from_slice(&body());
    let req = ConformanceRequest::decode_length_delimited(&framed, &arena).unwrap();
    assert_eq!(req.requested_output_format, 1);
    let mut req2 = ConformanceRequest::new_in(&arena);
    assert_eq!(req2.merge_length_delimited(&[0x00], &arena), Ok(()));
    assert_eq!(req2.merge(&body(), &arena), Ok(()));
    assert_eq!(req2.message_type, "t");
    assert_eq!(
        ConformanceRequest::decode_length_delimited(&[0x03, 0x08], &arena).err(),
        Some(DecodeError::BufferUnderflow)
    );
    let mut bytes_field = Vec::new();
    defiant::encoding::bytes::encode(1, b"p", &mut bytes_field);
    let req = ConformanceRequest::decode(&bytes_field, &arena).unwrap();
    assert_eq!(req.payload, Some(Payload::ProtobufPayload(b"p")));
}

#[test]
fn arena_encode_copies_encoding() {
    let arena = Arena::new();
    let r = ConformanceResult::ParseError("e".to_string());
    assert_eq!(r.arena_encode(&arena), &r.encode_to_vec()[..]);
    let mut buf = Vec::new();
    assert_eq!(r.encode_length_delimited(&mut buf), Ok(()));
    assert_eq!(buf, r.encode_length_delimited_to_vec());
}
