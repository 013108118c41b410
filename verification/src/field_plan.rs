//! Which codec statements the code generated for a message uses for each
//! kind of field: in the encode and length statements of a message's view,
//! and in the arm that merges a field.
use vstd::prelude::*;

use crate::field_type::{PathSegment, TypePath};
use crate::map_field::ScalarCodec;
use crate::text::concat_str;
use crate::wire_type::WireType;

verus! {

/// How often a message or group field occurs.
#[derive(Debug, Clone, Copy, PartialEq, Eq, Structural)]
pub enum Label {
    Optional,
    Required,
    Repeated,
}

/// The kind of a field of a message, as code generation tells them apart.
#[derive(Debug, Clone, Copy, PartialEq, Eq, Structural)]
pub enum FieldKind {
    /// A scalar field: its codec, and whether it is repeated.
    Scalar { codec: ScalarCodec, repeated: bool },
    /// A nested message.
    Message(Label),
    /// A group.
    Group(Label),
    /// A map field, whose codecs `map_codec_plan` gives.
    MapField,
    /// A oneof.
    Oneof,
}

/// What a message view encodes and measures a field with.
#[derive(Debug, Clone, Copy, PartialEq, Eq, Structural)]
pub enum ViewCodec {
    /// `string::encode_repeated` and `string::encoded_len_repeated` over the
    /// slice of strings.
    StringRepeated,
    /// `bytes::encode_repeated` and `bytes::encoded_len_repeated`.
    BytesRepeated,
    /// `group::encode` for each group of the slice, and
    /// `group::encoded_len_repeated`.
    GroupRepeated,
    /// Each message's key, length and fields, and the sum of their lengths
    /// with their length prefixes.
    MessageRepeated,
    /// The field's own encode and length statements.
    Own,
}

/// The view codec of a field kind.
pub open spec fn spec_view_codec(kind: FieldKind) -> ViewCodec {
    match kind {
        FieldKind::Scalar { codec: ScalarCodec::String, repeated: true } => ViewCodec::StringRepeated,
        FieldKind::Scalar { codec: ScalarCodec::Bytes, repeated: true } => ViewCodec::BytesRepeated,
        FieldKind::Group(Label::Repeated) => ViewCodec::GroupRepeated,
        FieldKind::Message(Label::Repeated) => ViewCodec::MessageRepeated,
        _ => ViewCodec::Own,
    }
}

/// What a message view encodes and measures a field of this kind with:
/// repeated strings, bytes, groups and messages over their slices, and
/// every other field by its own statements.
pub fn view_codec(kind: FieldKind) -> (r: ViewCodec)
    ensures
        r == spec_view_codec(kind),
{
    match kind {
        FieldKind::Scalar { codec: ScalarCodec::String, repeated: true } => ViewCodec::StringRepeated,
        FieldKind::Scalar { codec: ScalarCodec::Bytes, repeated: true } => ViewCodec::BytesRepeated,
        FieldKind::Group(Label::Repeated) => ViewCodec::GroupRepeated,
        FieldKind::Message(Label::Repeated) => ViewCodec::MessageRepeated,
        _ => ViewCodec::Own,
    }
}

/// How the merge arm of a field decodes it.
#[derive(Debug, Clone, Copy, PartialEq, Eq, Structural)]
pub enum MergePlan {
    /// Checks the wire type and the recursion limit, merges into a new
    /// builder of the message type (by `group::merge` for a group, by
    /// `merge_loop` for a message), and stores its frozen view: as `Some`
    /// when `optional`, as it is otherwise.
    Builder { wire_type: WireType, group: bool, optional: bool },
    /// As `Builder`, reading a group up to its end key or a message by
    /// `merge_loop`, and pushes the frozen view.
    RepeatedBuilder { wire_type: WireType, group: bool },
    /// The field's own merge statement.
    Own,
}

/// The merge plan of a field kind.
pub open spec fn spec_merge_plan(kind: FieldKind) -> MergePlan {
    match kind {
        FieldKind::Message(label) => match label {
            Label::Repeated => MergePlan::RepeatedBuilder {
                wire_type: WireType::LengthDelimited,
                group: false,
            },
            _ => MergePlan::Builder {
                wire_type: WireType::LengthDelimited,
                group: false,
                optional: label == Label::Optional,
            },
        },
        FieldKind::Group(label) => match label {
            Label::Repeated => MergePlan::RepeatedBuilder { wire_type: WireType::StartGroup, group: true },
            _ => MergePlan::Builder {
                wire_type: WireType::StartGroup,
                group: true,
                optional: label == Label::Optional,
            },
        },
        _ => MergePlan::Own,
    }
}

/// How the merge arm of a field of this kind decodes it: messages and
/// groups through a builder of their type, every other field by its own
/// merge statement.
pub fn merge_plan(kind: FieldKind) -> (r: MergePlan)
    ensures
        r == spec_merge_plan(kind),
{
    match kind {
        FieldKind::Message(label) => match label {
            Label::Repeated => MergePlan::RepeatedBuilder {
                wire_type: WireType::LengthDelimited,
                group: false,
            },
            Label::Optional => MergePlan::Builder {
                wire_type: WireType::LengthDelimited,
                group: false,
                optional: true,
            },
            Label::Required => MergePlan::Builder {
                wire_type: WireType::LengthDelimited,
                group: false,
                optional: false,
            },
        },
        FieldKind::Group(label) => match label {
            Label::Repeated => MergePlan::RepeatedBuilder { wire_type: WireType::StartGroup, group: true },
            Label::Optional => MergePlan::Builder {
                wire_type: WireType::StartGroup,
                group: true,
                optional: true,
            },
            Label::Required => MergePlan::Builder {
                wire_type: WireType::StartGroup,
                group: true,
                optional: false,
            },
        },
        _ => MergePlan::Own,
    }
}

/// The path of the builder of a message type: the same path with
/// `Message` appended to the name of its last segment.
pub open spec fn is_builder_path(p: TypePath, r: TypePath) -> bool {
    &&& r.leading_colon == p.leading_colon
    &&& r.segments@.len() == p.segments@.len()
    &&& forall|j: int|
        0 <= j < p.segments@.len() - 1 ==> (#[trigger] r.segments@[j]).ident@
            == p.segments@[j].ident@ && r.segments@[j].args == p.segments@[j].args
    &&& p.segments@.len() > 0 ==> r.segments@.last().ident@ == p.segments@.last().ident@
        + "Message"@ && r.segments@.last().args == p.segments@.last().args
}

/// The path of the builder of the message type at `p`, a path without
/// arguments, as the merge arm of a message or group field names it.
pub fn builder_path(p: &TypePath) -> (r: TypePath)
    requires
        forall|j: int|
            0 <= j < p.segments@.len() ==> (#[trigger] p.segments@[j]).args
                == crate::field_type::PathArgs::NoArgs,
    ensures
        is_builder_path(*p, r),
{
    let n = p.segments.len();
    let mut segments: Vec<PathSegment> = Vec::new();
    let mut j: usize = 0;
    while j < n
        invariant
            n == p.segments@.len(),
            j <= n,
            segments@.len() == j,
            forall|k: int|
                0 <= k < n ==> (#[trigger] p.segments@[k]).args == crate::field_type::PathArgs::NoArgs,
            forall|k: int|
                0 <= k < j ==> (#[trigger] segments@[k]).args == crate::field_type::PathArgs::NoArgs,
            forall|k: int|
                0 <= k < j && k != n - 1 ==> (#[trigger] segments@[k]).ident@
                    == p.segments@[k].ident@,
            j == n && n > 0 ==> segments@[n - 1].ident@ == p.segments@[n - 1].ident@ + "Message"@,
        decreases n - j,
    {
        let ident = if j + 1 == n {
            concat_str(p.segments[j].ident.as_str(), "Message")
        } else {
            p.segments[j].ident.clone()
        };
        segments.push(PathSegment { ident, args: crate::field_type::PathArgs::NoArgs });
        j = j + 1;
    }
    TypePath { leading_colon: p.leading_colon, segments }
}

} // verus!
