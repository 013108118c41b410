//! What the conformance runner answers to a request: which requests it
//! round-trips through a test message, and what it reports otherwise.
use vstd::prelude::*;

use crate::arena::Arena;
use crate::encoding::{
    decode_key, int32, key_len, lemma_decode_key_bounds, lemma_length_delimited_roundtrip,
    lemma_skip_bounds, skip_field, spec_decode_key, spec_decode_length_delimited, spec_encode_key,
    spec_length_delimited, spec_skip_field, string, DecodeContext, RECURSION_LIMIT,
};
use crate::enumeration::UnknownEnumValue;
use crate::error::DecodeError;
use crate::message::{decode_fields, Decode, Encode, MessageView};
use crate::scalar::{lemma_key_len, spec_varint_field, Int32Codec, VarintScalar};
use crate::scalar_laws::lemma_varint_field_roundtrip;
use crate::text::{concat_str, str_eq};
use crate::varint::{encoded_len_varint, spec_decode_varint};
use crate::wire_type::WireType;
use vstd::string::StringSliceAdditionalSpecFns;
use vstd::utf8::{encode_utf8, valid_utf8};

verus! {

/// The output formats that a conformance request can ask for.
#[derive(Debug, Clone, Copy, PartialEq, Eq, Structural)]
pub enum WireFormat {
    Unspecified,
    Protobuf,
    Json,
    Jspb,
    TextFormat,
}

/// The wire format numbered `value`, if there is one.
pub open spec fn spec_wire_format(value: i32) -> Option<WireFormat> {
    if value == 0 {
        Some(WireFormat::Unspecified)
    } else if value == 1 {
        Some(WireFormat::Protobuf)
    } else if value == 2 {
        Some(WireFormat::Json)
    } else if value == 3 {
        Some(WireFormat::Jspb)
    } else if value == 4 {
        Some(WireFormat::TextFormat)
    } else {
        None
    }
}

impl WireFormat {
    /// The wire format numbered `value`, or the number as an error.
    pub fn try_from_i32(value: i32) -> (r: Result<WireFormat, UnknownEnumValue>)
        ensures
            match spec_wire_format(value) {
                Some(f) => r == Ok::<WireFormat, UnknownEnumValue>(f),
                None => r == Err::<WireFormat, UnknownEnumValue>(UnknownEnumValue(value)),
            },
    {
        match value {
            0 => Ok(WireFormat::Unspecified),
            1 => Ok(WireFormat::Protobuf),
            2 => Ok(WireFormat::Json),
            3 => Ok(WireFormat::Jspb),
            4 => Ok(WireFormat::TextFormat),
            _ => Err(UnknownEnumValue(value)),
        }
    }
}

/// The input of a conformance request, in one of the four formats.
#[derive(Debug, Clone, Copy, PartialEq, Eq)]
pub enum Payload<'a> {
    ProtobufPayload(&'a [u8]),
    JsonPayload(&'a str),
    JspbPayload(&'a str),
    TextPayload(&'a str),
}

/// A conformance request: the input, the output format wanted, and the full
/// name of the message type to parse the input as. The request's other
/// fields (the test category, the JSPB options, whether to print unknown
/// fields) do not change the answer and are not kept.
#[derive(Debug, Clone, Copy, PartialEq, Eq)]
pub struct ConformanceRequest<'a> {
    pub requested_output_format: i32,
    pub payload: Option<Payload<'a>>,
    pub message_type: &'a str,
}

/// The test message types that requests can name.
#[derive(Debug, Clone, Copy, PartialEq, Eq, Structural)]
pub enum TestMessage {
    /// `protobuf_test_messages.proto2.TestAllTypesProto2`
    Proto2,
    /// `protobuf_test_messages.proto3.TestAllTypesProto3`
    Proto3,
}

/// What parsing a payload as a test message and encoding it again gave.
#[derive(Debug, Clone, PartialEq, Eq)]
pub enum RoundtripResult {
    /// The message encoded again.
    Encoded(Vec<u8>),
    /// The payload could not be decoded, with the error's text.
    DecodeError(String),
    /// Encoding failed, or the two encodings disagreed, with the text.
    Error(String),
}

/// The answer to a conformance request.
#[derive(Debug, Clone, PartialEq, Eq)]
pub enum ConformanceResult {
    ParseError(String),
    RuntimeError(String),
    ProtobufPayload(Vec<u8>),
    Skipped(String),
}

/// What to do with a request: answer it at once, or round-trip its
/// protobuf payload through a test message.
#[derive(Debug, Clone, PartialEq, Eq)]
pub enum Plan<'a> {
    Answer(ConformanceResult),
    Roundtrip(TestMessage, &'a [u8]),
}

/// Whether `r` answers with a parse error reading `text`.
pub open spec fn parse_error(r: ConformanceResult, text: Seq<char>) -> bool {
    r matches ConformanceResult::ParseError(m) && m@ == text
}

/// Whether `r` answers that the request was skipped, because `text`.
pub open spec fn skipped(r: ConformanceResult, text: Seq<char>) -> bool {
    r matches ConformanceResult::Skipped(m) && m@ == text
}

/// The test message type whose full name is `name`, if any.
pub open spec fn spec_test_message(name: Seq<char>) -> Option<TestMessage> {
    if name == "protobuf_test_messages.proto2.TestAllTypesProto2"@ {
        Some(TestMessage::Proto2)
    } else if name == "protobuf_test_messages.proto3.TestAllTypesProto3"@ {
        Some(TestMessage::Proto3)
    } else {
        None
    }
}

/// Whether `plan` is the plan for a request whose output format is
/// Protobuf: parse errors for a missing payload or an unknown message type,
/// skips for payloads in another format, a round trip otherwise.
pub open spec fn protobuf_plan<'a>(request: ConformanceRequest<'a>, plan: Plan<'a>) -> bool {
    match request.payload {
        None => plan matches Plan::Answer(r) && parse_error(r, "no payload"@),
        Some(Payload::JsonPayload(_)) => plan matches Plan::Answer(r) && skipped(
            r,
            "JSON input is not supported"@,
        ),
        Some(Payload::JspbPayload(_)) => plan matches Plan::Answer(r) && skipped(
            r,
            "JSPB input is not supported"@,
        ),
        Some(Payload::TextPayload(_)) => plan matches Plan::Answer(r) && skipped(
            r,
            "TEXT input is not supported"@,
        ),
        Some(Payload::ProtobufPayload(buf)) => match spec_test_message(request.message_type@) {
            Some(m) => plan == Plan::Roundtrip(m, buf),
            None => plan matches Plan::Answer(r) && parse_error(
                r,
                "unknown message type: "@ + request.message_type@,
            ),
        },
    }
}

/// Whether `plan` is the plan for `request`. An output format that is not a
/// known number counts as unspecified.
pub open spec fn request_plan<'a>(request: ConformanceRequest<'a>, plan: Plan<'a>) -> bool {
    match spec_wire_format(request.requested_output_format) {
        Some(WireFormat::Protobuf) => protobuf_plan(request, plan),
        Some(WireFormat::Json) => plan matches Plan::Answer(r) && skipped(
            r,
            "JSON output is not supported"@,
        ),
        Some(WireFormat::Jspb) => plan matches Plan::Answer(r) && skipped(
            r,
            "JSPB output is not supported"@,
        ),
        Some(WireFormat::TextFormat) => plan matches Plan::Answer(r) && skipped(
            r,
            "TEXT_FORMAT output is not supported"@,
        ),
        _ => plan matches Plan::Answer(r) && parse_error(r, "output format unspecified"@),
    }
}

/// The message type that a request names.
fn test_message(name: &str) -> (r: Option<TestMessage>)
    ensures
        r == spec_test_message(name@),
{
    if str_eq(name, "protobuf_test_messages.proto2.TestAllTypesProto2") {
        Some(TestMessage::Proto2)
    } else if str_eq(name, "protobuf_test_messages.proto3.TestAllTypesProto3") {
        Some(TestMessage::Proto3)
    } else {
        None
    }
}

/// Decides what to do with a request: only a protobuf payload, of a known
/// test message type, with protobuf output asked for, is round-tripped.
pub fn plan_request<'a>(request: &ConformanceRequest<'a>) -> (r: Plan<'a>)
    ensures
        request_plan(*request, r),
{
    let format = match WireFormat::try_from_i32(request.requested_output_format) {
        Ok(f) => f,
        Err(_) => WireFormat::Unspecified,
    };
    match format {
        WireFormat::Unspecified => {
            return Plan::Answer(ConformanceResult::ParseError("output format unspecified".to_owned()));
        },
        WireFormat::Json => {
            return Plan::Answer(ConformanceResult::Skipped("JSON output is not supported".to_owned()));
        },
        WireFormat::Jspb => {
            return Plan::Answer(ConformanceResult::Skipped("JSPB output is not supported".to_owned()));
        },
        WireFormat::TextFormat => {
            return Plan::Answer(
                ConformanceResult::Skipped("TEXT_FORMAT output is not supported".to_owned()),
            );
        },
        WireFormat::Protobuf => {},
    }
    let buf = match request.payload {
        None => {
            return Plan::Answer(ConformanceResult::ParseError("no payload".to_owned()));
        },
        Some(Payload::JsonPayload(_)) => {
            return Plan::Answer(ConformanceResult::Skipped("JSON input is not supported".to_owned()));
        },
        Some(Payload::JspbPayload(_)) => {
            return Plan::Answer(ConformanceResult::Skipped("JSPB input is not supported".to_owned()));
        },
        Some(Payload::TextPayload(_)) => {
            return Plan::Answer(ConformanceResult::Skipped("TEXT input is not supported".to_owned()));
        },
        Some(Payload::ProtobufPayload(buf)) => buf,
    };
    match test_message(request.message_type) {
        Some(m) => Plan::Roundtrip(m, buf),
        None => Plan::Answer(
            ConformanceResult::ParseError(concat_str("unknown message type: ", request.message_type)),
        ),
    }
}

/// Whether `r` reports the outcome `outcome` of a round trip: the bytes as
/// the payload, a decoding failure as a parse error, another failure as a
/// runtime error, each with the same text.
pub open spec fn reports(outcome: RoundtripResult, r: ConformanceResult) -> bool {
    match outcome {
        RoundtripResult::Encoded(buf) => r matches ConformanceResult::ProtobufPayload(b) && b@ == buf@,
        RoundtripResult::DecodeError(e) => r matches ConformanceResult::ParseError(m) && m@ == e@,
        RoundtripResult::Error(e) => r matches ConformanceResult::RuntimeError(m) && m@ == e@,
    }
}

/// The answer that reports the outcome of a round trip.
pub fn finish_request(outcome: RoundtripResult) -> (r: ConformanceResult)
    ensures
        reports(outcome, r),
{
    match outcome {
        RoundtripResult::Encoded(buf) => ConformanceResult::ProtobufPayload(buf),
        RoundtripResult::DecodeError(e) => ConformanceResult::ParseError(e),
        RoundtripResult::Error(e) => ConformanceResult::RuntimeError(e),
    }
}

/// Answers a request, calling `roundtrip` on the payload where the request
/// is to be round-tripped, and reporting what it gave.
pub fn handle_request<'a, F>(request: &ConformanceRequest<'a>, roundtrip: F) -> (r:
    ConformanceResult) where F: Fn(TestMessage, &'a [u8]) -> RoundtripResult
    requires
        forall|m: TestMessage, buf: &'a [u8]| #[trigger] roundtrip.requires((m, buf)),
    ensures
        exists|plan: Plan<'a>|
            #![trigger request_plan(*request, plan)]
            request_plan(*request, plan) && match plan {
                Plan::Answer(a) => r == a,
                Plan::Roundtrip(m, buf) => exists|outcome: RoundtripResult|
                    #![trigger roundtrip.ensures((m, buf), outcome)]
                    roundtrip.ensures((m, buf), outcome) && reports(outcome, r),
            },
{
    let plan = plan_request(request);
    match plan {
        Plan::Answer(a) => a,
        Plan::Roundtrip(m, buf) => {
            let outcome = roundtrip(m, buf);
            finish_request(outcome)
        },
    }
}

/// What decoding sees of a request: the output format; the payload's tag
/// and bytes; the bytes of the message type.
pub type RequestView = (i32, Option<(u32, Seq<u8>)>, Seq<u8>);

/// The view of a request.
pub open spec fn request_view<'a>(r: ConformanceRequest<'a>) -> RequestView {
    (
        r.requested_output_format,
        match r.payload {
            None => None,
            Some(Payload::ProtobufPayload(b)) => Some((1u32, b@)),
            Some(Payload::JsonPayload(t)) => Some((2u32, t.spec_bytes())),
            Some(Payload::JspbPayload(t)) => Some((7u32, t.spec_bytes())),
            Some(Payload::TextPayload(t)) => Some((8u32, t.spec_bytes())),
        },
        r.message_type.spec_bytes(),
    )
}

/// The view of a request that nothing has been decoded into.
pub open spec fn empty_request_view() -> RequestView {
    (0, None, Seq::empty())
}

/// Decoding the value of one field of a request from the front of `s`,
/// after its key: the view it leaves and the bytes it takes, or the error it
/// meets. Payload fields (tags 1, 2, 7, 8) set the payload, tag 3 the
/// output format, tag 4 the message type; the text fields must be UTF-8;
/// fields of other tags are skipped.
pub open spec fn request_field_step(
    v: RequestView,
    tag: u32,
    wire_type: WireType,
    s: Seq<u8>,
    depth: nat,
) -> Result<(RequestView, nat), DecodeError> {
    if tag == 1 || tag == 2 || tag == 4 || tag == 7 || tag == 8 {
        if wire_type != WireType::LengthDelimited {
            Err(DecodeError::WireTypeMismatch { expected: WireType::LengthDelimited, actual: wire_type })
        } else {
            match spec_decode_length_delimited(s) {
                Err(e) => Err(e),
                Ok((data, n)) => if tag != 1 && !valid_utf8(data) {
                    Err(DecodeError::InvalidUtf8)
                } else if tag == 4 {
                    Ok(((v.0, v.1, data), n))
                } else {
                    Ok(((v.0, Some((tag, data)), v.2), n))
                },
            }
        }
    } else if tag == 3 {
        if wire_type != WireType::Varint {
            Err(DecodeError::WireTypeMismatch { expected: WireType::Varint, actual: wire_type })
        } else {
            match spec_decode_varint(s) {
                None => Err(DecodeError::InvalidVarint),
                Some((w, n)) => Ok(((Int32Codec::spec_from_wire(w), v.1, v.2), n)),
            }
        }
    } else {
        match spec_skip_field(wire_type, tag, s, depth) {
            Err(e) => Err(e),
            Ok(n) => Ok((v, n)),
        }
    }
}

/// A field step never takes more than the bytes there are.
proof fn lemma_request_step_bounds(v: RequestView, tag: u32, wt: WireType, s: Seq<u8>, depth: nat)
    ensures
        request_field_step(v, tag, wt, s, depth) matches Ok((v2, n)) ==> n <= s.len(),
{
    crate::varint::lemma_decode_varint_bounds(s);
    lemma_skip_bounds(wt, tag, s, depth);
}

impl<'arena> Decode<'arena> for ConformanceRequest<'arena> {
    type Decoded = RequestView;

    open spec fn decoded(&self) -> RequestView {
        request_view(*self)
    }

    open spec fn initial() -> RequestView {
        empty_request_view()
    }

    open spec fn field_step(
        d: RequestView,
        tag: u32,
        wire_type: WireType,
        s: Seq<u8>,
        depth: nat,
    ) -> Result<(RequestView, nat), DecodeError> {
        request_field_step(d, tag, wire_type, s, depth)
    }

    /// A request with no payload, output format 0 and an empty message
    /// type.
    fn new_in(arena: &'arena Arena) -> (r: Self)
        ensures
            r.message_type@ == Seq::<char>::empty(),
    {
        proof {
            reveal_strlit("");
            assert(encode_utf8(Seq::<char>::empty()) =~= Seq::<u8>::empty());
        }
        ConformanceRequest { requested_output_format: 0, payload: None, message_type: "" }
    }

    fn merge_field(
        &mut self,
        tag: u32,
        wire_type: WireType,
        buf: &mut &[u8],
        arena: &'arena Arena,
        ctx: DecodeContext,
    ) -> (r: Result<(), DecodeError>) {
        let ghost s = buf@;
        proof {
            lemma_request_step_bounds(request_view(*self), tag, wire_type, s, ctx.budget());
            crate::varint::lemma_decode_varint_bounds(s);
            lemma_skip_bounds(wire_type, tag, s, ctx.budget());
        }
        if tag == 1 {
            let v = match crate::encoding::bytes::merge_arena(wire_type, buf, arena, ctx) {
                Ok(v) => v,
                Err(e) => return Err(e),
            };
            self.payload = Some(Payload::ProtobufPayload(v));
        } else if tag == 2 || tag == 4 || tag == 7 || tag == 8 {
            let v = match string::merge_arena(wire_type, buf, arena, ctx) {
                Ok(v) => v,
                Err(e) => return Err(e),
            };
            if tag == 2 {
                self.payload = Some(Payload::JsonPayload(v));
            } else if tag == 4 {
                self.message_type = v;
            } else if tag == 7 {
                self.payload = Some(Payload::JspbPayload(v));
            } else {
                self.payload = Some(Payload::TextPayload(v));
            }
        } else if tag == 3 {
            let mut v: i32 = self.requested_output_format;
            match int32::merge(wire_type, &mut v, buf, ctx) {
                Ok(()) => {},
                Err(e) => return Err(e),
            }
            self.requested_output_format = v;
        } else {
            match skip_field(wire_type, tag, buf, ctx) {
                Ok(()) => {},
                Err(e) => return Err(e),
            }
        }
        Ok(())
    }

}

/// The field that holds a request's payload, none without one.
pub open spec fn payload_field(p: Option<Payload>) -> Seq<u8> {
    match p {
        None => Seq::empty(),
        Some(Payload::ProtobufPayload(b)) => spec_length_delimited(1, b@),
        Some(Payload::JsonPayload(t)) => spec_length_delimited(2, t.spec_bytes()),
        Some(Payload::JspbPayload(t)) => spec_length_delimited(7, t.spec_bytes()),
        Some(Payload::TextPayload(t)) => spec_length_delimited(8, t.spec_bytes()),
    }
}

/// The field that holds a request's output format, none for 0.
pub open spec fn format_field(f: i32) -> Seq<u8> {
    if f == 0 {
        Seq::empty()
    } else {
        spec_varint_field::<Int32Codec>(3, f)
    }
}

/// The field that holds a request's message type, none when it is empty.
pub open spec fn type_field(t: &str) -> Seq<u8> {
    if t@.len() == 0 {
        Seq::empty()
    } else {
        spec_length_delimited(4, t.spec_bytes())
    }
}

impl<'a> Encode for ConformanceRequest<'a> {
    /// The payload, then the output format, then the message type; fields
    /// holding their default are left out, a payload never.
    open spec fn encoding(&self) -> Seq<u8> {
        payload_field(self.payload) + format_field(self.requested_output_format) + type_field(
            self.message_type,
        )
    }

    fn encode_raw(&self, buf: &mut Vec<u8>) {
        match self.payload {
            None => {},
            Some(Payload::ProtobufPayload(b)) => crate::encoding::bytes::encode(1, b, buf),
            Some(Payload::JsonPayload(t)) => string::encode(2, t, buf),
            Some(Payload::JspbPayload(t)) => string::encode(7, t, buf),
            Some(Payload::TextPayload(t)) => string::encode(8, t, buf),
        }
        let ghost b1 = buf@;
        assert(b1 =~= old(buf)@ + payload_field(self.payload));
        if self.requested_output_format != 0 {
            int32::encode(3, &self.requested_output_format, buf);
        }
        let ghost b2 = buf@;
        assert(b2 =~= b1 + format_field(self.requested_output_format));
        if !self.message_type.is_empty() {
            string::encode(4, self.message_type, buf);
        }
        assert(buf@ =~= b2 + type_field(self.message_type));
        assert(buf@ =~= old(buf)@ + self.encoding());
    }

    fn encoded_len(&self) -> (r: usize) {
        proof {
            lemma_key_len(1, WireType::LengthDelimited);
            lemma_key_len(2, WireType::LengthDelimited);
            lemma_key_len(3, WireType::Varint);
            lemma_key_len(4, WireType::LengthDelimited);
            lemma_key_len(7, WireType::LengthDelimited);
            lemma_key_len(8, WireType::LengthDelimited);
        }
        let (ptag, plen): (u32, usize) = match self.payload {
            None => (0, 0),
            Some(Payload::ProtobufPayload(b)) => (1, b.len()),
            Some(Payload::JsonPayload(t)) => (2, t.len()),
            Some(Payload::JspbPayload(t)) => (7, t.len()),
            Some(Payload::TextPayload(t)) => (8, t.len()),
        };
        let p: usize = if ptag == 0 {
            0
        } else {
            key_len(ptag) + encoded_len_varint(plen as u64) + plen
        };
        let f: usize = if self.requested_output_format == 0 {
            0
        } else {
            key_len(3) + encoded_len_varint(self.requested_output_format as u64)
        };
        let tlen = self.message_type.len();
        let t: usize = if self.message_type.is_empty() {
            0
        } else {
            key_len(4) + encoded_len_varint(tlen as u64) + tlen
        };
        p + f + t
    }
}

/// Decoding all the fields that follow a field's key, when the field is
/// one that `field` writes and the rest of the bytes are `rest`.
proof fn lemma_step_delimited(v: RequestView, tag: u32, data: Seq<u8>, rest: Seq<u8>)
    requires
        tag == 1 || tag == 2 || tag == 4 || tag == 7 || tag == 8,
        tag != 1 ==> valid_utf8(data),
        data.len() <= u64::MAX,
    ensures
        ({
            let s = spec_length_delimited(tag, data) + rest;
            let k = spec_encode_key(tag, WireType::LengthDelimited).len();
            let v2 = if tag == 4 {
                (v.0, v.1, data)
            } else {
                (v.0, Some((tag, data)), v.2)
            };
            decode_fields(
            (|d: RequestView, t: u32, w: WireType, x: Seq<u8>, dp: nat| ConformanceRequest::field_step(d, t, w, x, dp)),v, s, 0, RECURSION_LIMIT as nat) == decode_fields((|d: RequestView, t: u32, w: WireType, x: Seq<u8>, dp: nat| ConformanceRequest::field_step(d, t, w, x, dp)), v2, rest, 0, RECURSION_LIMIT as nat)
        }),
{
    let field = spec_length_delimited(tag, data);
    let s = field + rest;
    let k = spec_encode_key(tag, WireType::LengthDelimited).len();
    lemma_length_delimited_roundtrip(tag, data, rest);
    lemma_decode_key_bounds(s);
    assert(s.skip((field.len()) as int) =~= rest);
}

/// Decoding a request's encoding gives back its view: the output format,
/// the payload's tag and bytes, and the message type's bytes.
pub proof fn lemma_request_roundtrip<'a>(req: ConformanceRequest<'a>)
    requires
        req.encoding().len() <= u64::MAX,
    ensures
        decode_fields(
            (|d: RequestView, t: u32, w: WireType, x: Seq<u8>, dp: nat| ConformanceRequest::field_step(d, t, w, x, dp)),
            empty_request_view(),
            req.encoding(),
            0,
            RECURSION_LIMIT as nat,
        ) == Ok::<(RequestView, Seq<u8>), DecodeError>((request_view(req), Seq::empty())),
{
    let p = payload_field(req.payload);
    let f = format_field(req.requested_output_format);
    let t = type_field(req.message_type);
    let d = RECURSION_LIMIT as nat;
    let v0 = empty_request_view();
    let v1: RequestView = (0, request_view(req).1, Seq::empty());
    let v2: RequestView = (req.requested_output_format, request_view(req).1, Seq::empty());
    assert(req.encoding() == p + f + t);
    // The payload field.
    match req.payload {
        None => {
            assert(p + f + t =~= f + t);
        },
        Some(Payload::ProtobufPayload(b)) => {
            assert(p + f + t =~= p + (f + t));
            lemma_step_delimited(v0, 1, b@, f + t);
        },
        Some(Payload::JsonPayload(x)) => {
            assert(p + f + t =~= p + (f + t));
            vstd::utf8::encode_utf8_valid_utf8(x@);
            lemma_step_delimited(v0, 2, x.spec_bytes(), f + t);
        },
        Some(Payload::JspbPayload(x)) => {
            assert(p + f + t =~= p + (f + t));
            vstd::utf8::encode_utf8_valid_utf8(x@);
            lemma_step_delimited(v0, 7, x.spec_bytes(), f + t);
        },
        Some(Payload::TextPayload(x)) => {
            assert(p + f + t =~= p + (f + t));
            vstd::utf8::encode_utf8_valid_utf8(x@);
            lemma_step_delimited(v0, 8, x.spec_bytes(), f + t);
        },
    }
    assert(decode_fields(
            (|d: RequestView, t: u32, w: WireType, x: Seq<u8>, dp: nat| ConformanceRequest::field_step(d, t, w, x, dp)),v0, p + f + t, 0, d) == decode_fields((|d: RequestView, t: u32, w: WireType, x: Seq<u8>, dp: nat| ConformanceRequest::field_step(d, t, w, x, dp)), v1, f + t, 0, d));
    // The output format field.
    if req.requested_output_format != 0 {
        let x = req.requested_output_format;
        lemma_varint_field_roundtrip::<Int32Codec>(3, x, t);
        Int32Codec::lemma_wire_roundtrip(x);
        lemma_decode_key_bounds(f + t);
        assert((f + t).skip(f.len() as int) =~= t);
    } else {
        assert(f + t =~= t);
    }
    assert(decode_fields(
            (|d: RequestView, t: u32, w: WireType, x: Seq<u8>, dp: nat| ConformanceRequest::field_step(d, t, w, x, dp)),v1, f + t, 0, d) == decode_fields((|d: RequestView, t: u32, w: WireType, x: Seq<u8>, dp: nat| ConformanceRequest::field_step(d, t, w, x, dp)), v2, t, 0, d));
    // The message type field.
    if req.message_type@.len() != 0 {
        vstd::utf8::encode_utf8_valid_utf8(req.message_type@);
        lemma_step_delimited(v2, 4, req.message_type.spec_bytes(), Seq::empty());
        assert(t + Seq::<u8>::empty() =~= t);
    } else {
        assert(req.message_type@ =~= Seq::<char>::empty());
        assert(req.message_type.spec_bytes() =~= Seq::<u8>::empty());
        assert(t =~= Seq::<u8>::empty());
    }
}

/// The tag of the field that holds each answer.
pub open spec fn result_tag(r: ConformanceResult) -> u32 {
    match r {
        ConformanceResult::ParseError(_) => 1,
        ConformanceResult::RuntimeError(_) => 2,
        ConformanceResult::ProtobufPayload(_) => 3,
        ConformanceResult::Skipped(_) => 5,
    }
}

/// The bytes of the field that holds an answer.
pub open spec fn result_data(r: ConformanceResult) -> Seq<u8> {
    match r {
        ConformanceResult::ParseError(m) => encode_utf8(m@),
        ConformanceResult::RuntimeError(m) => encode_utf8(m@),
        ConformanceResult::ProtobufPayload(b) => b@,
        ConformanceResult::Skipped(m) => encode_utf8(m@),
    }
}

impl Encode for ConformanceResult {
    /// A response holding the answer: one length-delimited field.
    open spec fn encoding(&self) -> Seq<u8> {
        spec_length_delimited(result_tag(*self), result_data(*self))
    }

    fn encode_raw(&self, buf: &mut Vec<u8>) {
        match self {
            ConformanceResult::ParseError(m) => string::encode(1, m.as_str(), buf),
            ConformanceResult::RuntimeError(m) => string::encode(2, m.as_str(), buf),
            ConformanceResult::ProtobufPayload(b) => crate::encoding::bytes::encode(3, b.as_slice(), buf),
            ConformanceResult::Skipped(m) => string::encode(5, m.as_str(), buf),
        }
    }

    fn encoded_len(&self) -> (r: usize) {
        let (tag, len): (u32, usize) = match self {
            ConformanceResult::ParseError(m) => (1, m.as_str().len()),
            ConformanceResult::RuntimeError(m) => (2, m.as_str().len()),
            ConformanceResult::ProtobufPayload(b) => (3, b.len()),
            ConformanceResult::Skipped(m) => (5, m.as_str().len()),
        };
        proof {
            lemma_key_len(tag, WireType::LengthDelimited);
        }
        key_len(tag) + encoded_len_varint(len as u64) + len
    }
}

impl<'arena> MessageView<'arena> for ConformanceRequest<'arena> {
    type Builder = ConformanceRequest<'arena>;

    /// Decodes a request from all of `buf`, as `decode` does.
    fn from_buf(buf: &[u8], arena: &'arena Arena) -> (r: Result<Self, DecodeError>)
        ensures
            match decode_fields(
            (|d: RequestView, t: u32, w: WireType, x: Seq<u8>, dp: nat| ConformanceRequest::field_step(d, t, w, x, dp)),
                empty_request_view(),
                buf@,
                0,
                RECURSION_LIMIT as nat,
            ) {
                Ok((v, _)) => r matches Ok(req) && request_view(req) == v,
                Err(e) => r == Err::<Self, DecodeError>(e),
            },
    {
        ConformanceRequest::decode(buf, arena)
    }
}

} // verus!
