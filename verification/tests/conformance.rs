use defiant::arena::Arena;
use defiant::conformance::{
    finish_request, handle_request, plan_request, ConformanceRequest, ConformanceResult, Payload,
    Plan, RoundtripResult, TestMessage, WireFormat,
};
use defiant::encoding::{bytes, int32, string};
use defiant::enumeration::UnknownEnumValue;
use defiant::message::{Decode, Encode};

const PROTO2: &str = "protobuf_test_messages.proto2.TestAllTypesProto2";
const PROTO3: &str = "protobuf_test_messages.proto3.TestAllTypesProto3";

fn request<'a>(format: i32, payload: Option<Payload<'a>>, ty: &'a str) -> ConformanceRequest<'a> {
    ConformanceRequest { requested_output_format: format, payload, message_type: ty }
}

fn parse_error(s: &str) -> Plan<'static> {
    Plan::Answer(ConformanceResult::ParseError(s.to_string()))
}

fn skipped(s: &str) -> Plan<'static> {
    Plan::Answer(ConformanceResult::Skipped(s.to_string()))
}

#[test]
fn wire_format_numbers() {
    assert_eq!(WireFormat::try_from_i32(0), Ok(WireFormat::Unspecified));
    assert_eq!(WireFormat::try_from_i32(1), Ok(WireFormat::Protobuf));
    assert_eq!(WireFormat::try_from_i32(4), Ok(WireFormat::TextFormat));
    assert_eq!(WireFormat::try_from_i32(5), Err(UnknownEnumValue(5)));
}

#[test]
fn output_formats_other_than_protobuf() {
    let p = Some(Payload::ProtobufPayload(&[]));
    assert_eq!(plan_request(&request(0, p, PROTO3)), parse_error("output format unspecified"));
    assert_eq!(plan_request(&request(77, p, PROTO3)), parse_error("output format unspecified"));
    assert_eq!(plan_request(&request(2, p, PROTO3)), skipped("JSON output is not supported"));
    assert_eq!(plan_request(&request(3, p, PROTO3)), skipped("JSPB output is not supported"));
    assert_eq!(plan_request(&request(4, p, PROTO3)), skipped("TEXT_FORMAT output is not supported"));
}

#[test]
fn payloads_other_than_protobuf() {
    assert_eq!(plan_request(&request(1, None, PROTO3)), parse_error("no payload"));
    assert_eq!(
        plan_request(&request(1, Some(Payload::JsonPayload("{}")), PROTO3)),
        skipped("JSON input is not supported")
    );
    assert_eq!(
        plan_request(&request(1, Some(Payload::JspbPayload("[]")), PROTO3)),
        skipped("JSPB input is not supported")
    );
    assert_eq!(
        plan_request(&request(1, Some(Payload::TextPayload("")), PROTO3)),
        skipped("TEXT input is not supported")
    );
}

#[test]
fn message_types() {
    let data: &[u8] = &[8, 1];
    let p = Some(Payload::ProtobufPayload(data));
    assert_eq!(plan_request(&request(1, p, PROTO2)), Plan::Roundtrip(TestMessage::Proto2, data));
    assert_eq!(plan_request(&request(1, p, PROTO3)), Plan::Roundtrip(TestMessage::Proto3, data));
    assert_eq!(
        plan_request(&request(1, p, "foo.Bar")),
        parse_error("unknown message type: foo.Bar")
    );
}

#[test]
fn roundtrip_outcomes() {
    assert_eq!(
        finish_request(RoundtripResult::Encoded(vec![1, 2])),
        ConformanceResult::ProtobufPayload(vec![1, 2])
    );
    assert_eq!(
        finish_request(RoundtripResult::DecodeError("bad".to_string())),
        ConformanceResult::ParseError("bad".to_string())
    );
    assert_eq!(
        finish_request(RoundtripResult::Error("mismatch".to_string())),
        ConformanceResult::RuntimeError("mismatch".to_string())
    );
}

#[test]
fn handle_request_calls_roundtrip_only_when_planned() {
    let data: &[u8] = &[8, 1];
    let echo = |m: TestMessage, b: &[u8]| {
        let mut out = b.to_vec();
        out.push(if m == TestMessage::Proto2 { 2 } else { 3 });
        RoundtripResult::Encoded(out)
    };
    let r = handle_request(&request(1, Some(Payload::ProtobufPayload(data)), PROTO2), echo);
    assert_eq!(r, ConformanceResult::ProtobufPayload(vec![8, 1, 2]));
    let r = handle_request(&request(2, Some(Payload::ProtobufPayload(data)), PROTO2), echo);
    assert_eq!(r, ConformanceResult::Skipped("JSON output is not supported".to_string()));
}

#[test]
fn request_decodes_from_wire_bytes() {
    let arena = Arena::new();
    let mut buf = Vec::new();
    bytes::encode(1, &[8, 150, 1], &mut buf);
    int32::encode(3, &1, &mut buf);
    string::encode(4, PROTO3, &mut buf);
    // test_category, which the runner does not read
    int32::encode(5, &2, &mut buf);
    let req = ConformanceRequest::decode(&buf, &arena).unwrap();
    assert_eq!(req.requested_output_format, 1);
    assert_eq!(req.message_type, PROTO3);
    assert_eq!(req.payload, Some(Payload::ProtobufPayload(&[8, 150, 1])));

    let mut buf = Vec::new();
    string::encode(2, "{}", &mut buf);
    let req = ConformanceRequest::decode(&buf, &arena).unwrap();
    assert_eq!(req.payload, Some(Payload::JsonPayload("{}")));
    assert_eq!(req.requested_output_format, 0);
    assert_eq!(req.message_type, "");
}

#[test]
fn response_encodes_one_field() {
    let r = ConformanceResult::ParseError("no".to_string());
    assert_eq!(r.encode_to_vec(), vec![0x0a, 0x02, b'n', b'o']);
    assert_eq!(r.encoded_len(), 4);
    let r = ConformanceResult::ProtobufPayload(vec![7]);
    assert_eq!(r.encode_to_vec(), vec![0x1a, 0x01, 7]);
    let r = ConformanceResult::Skipped(String::new());
    assert_eq!(r.encode_to_vec(), vec![0x2a, 0x00]);
    let r = ConformanceResult::RuntimeError("x".to_string());
    assert_eq!(r.encode_length_delimited_to_vec(), vec![3, 0x12, 0x01, b'x']);
    let mut buf = vec![9];
    assert_eq!(r.encode(&mut buf), Ok(()));
    assert_eq!(buf, vec![9, 0x12, 0x01, b'x']);
}

#[test]
fn request_encodes_and_decodes_back() {
    let arena = Arena::new();
    let reqs = [
        request(1, Some(Payload::ProtobufPayload(&[8, 1])), PROTO3),
        request(0, None, ""),
        request(-3, Some(Payload::JsonPayload("")), PROTO2),
        request(4, Some(Payload::TextPayload("a: 1")), "x"),
        request(2, Some(Payload::JspbPayload("[1]")), ""),
    ];
    for req in reqs {
        let bytes = req.encode_to_vec();
        assert_eq!(bytes.len(), req.encoded_len());
        let back = ConformanceRequest::decode(&bytes, &arena).unwrap();
        assert_eq!(back, req);
    }
    let req = request(1, Some(Payload::ProtobufPayload(&[8, 1])), PROTO3);
    let mut expected = Vec::new();
    bytes::encode(1, &[8, 1], &mut expected);
    int32::encode(3, &1, &mut expected);
    string::encode(4, PROTO3, &mut expected);
    assert_eq!(req.encode_to_vec(), expected);
    assert!(request(0, None, "").encode_to_vec().is_empty());
}

#[test]
fn request_decode_errors() {
    let arena = Arena::new();
    // tag 4 holding bytes that are not UTF-8
    let bad_utf8: &[u8] = &[0x22, 0x01, 0xff];
    assert_eq!(
        ConformanceRequest::decode(bad_utf8, &arena).err(),
        Some(defiant::DecodeError::InvalidUtf8)
    );
    // tag 3 sent length-delimited
    let mismatch: &[u8] = &[0x1a, 0x00];
    assert_eq!(
        ConformanceRequest::decode(mismatch, &arena).err(),
        Some(defiant::DecodeError::WireTypeMismatch {
            expected: defiant::wire_type::WireType::Varint,
            actual: defiant::wire_type::WireType::LengthDelimited
        })
    );
}
