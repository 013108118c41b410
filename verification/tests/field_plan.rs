use defiant::field_plan::{builder_path, merge_plan, view_codec, FieldKind, Label, MergePlan, ViewCodec};
use defiant::field_type::{PathArgs, PathSegment, TypePath};
use defiant::map_field::ScalarCodec;
use defiant::wire_type::WireType;

#[test]
fn view_codecs_by_field_kind() {
    assert_eq!(view_codec(FieldKind::Scalar { codec: ScalarCodec::String, repeated: true }), ViewCodec::StringRepeated);
    assert_eq!(view_codec(FieldKind::Scalar { codec: ScalarCodec::Bytes, repeated: true }), ViewCodec::BytesRepeated);
    assert_eq!(view_codec(FieldKind::Scalar { codec: ScalarCodec::String, repeated: false }), ViewCodec::Own);
    assert_eq!(view_codec(FieldKind::Scalar { codec: ScalarCodec::Int32, repeated: true }), ViewCodec::Own);
    assert_eq!(view_codec(FieldKind::Group(Label::Repeated)), ViewCodec::GroupRepeated);
    assert_eq!(view_codec(FieldKind::Message(Label::Repeated)), ViewCodec::MessageRepeated);
    assert_eq!(view_codec(FieldKind::Message(Label::Optional)), ViewCodec::Own);
    assert_eq!(view_codec(FieldKind::MapField), ViewCodec::Own);
    assert_eq!(view_codec(FieldKind::Oneof), ViewCodec::Own);
}

#[test]
fn merge_plans_by_field_kind() {
    assert_eq!(
        merge_plan(FieldKind::Message(Label::Optional)),
        MergePlan::Builder { wire_type: WireType::LengthDelimited, group: false, optional: true }
    );
    assert_eq!(
        merge_plan(FieldKind::Group(Label::Required)),
        MergePlan::Builder { wire_type: WireType::StartGroup, group: true, optional: false }
    );
    assert_eq!(
        merge_plan(FieldKind::Group(Label::Repeated)),
        MergePlan::RepeatedBuilder { wire_type: WireType::StartGroup, group: true }
    );
    assert_eq!(
        merge_plan(FieldKind::Message(Label::Repeated)),
        MergePlan::RepeatedBuilder { wire_type: WireType::LengthDelimited, group: false }
    );
    assert_eq!(merge_plan(FieldKind::Scalar { codec: ScalarCodec::Bool, repeated: false }), MergePlan::Own);
    assert_eq!(merge_plan(FieldKind::MapField), MergePlan::Own);
}

#[test]
fn builder_paths_append_message() {
    let seg = |s: &str| PathSegment { ident: s.to_string(), args: PathArgs::NoArgs };
    let p = TypePath { leading_colon: true, segments: vec![seg("pkg"), seg("Inner")] };
    let b = builder_path(&p);
    assert!(b.leading_colon);
    assert_eq!(b.segments, vec![seg("pkg"), seg("InnerMessage")]);
}
