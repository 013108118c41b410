use defiant::descriptor::{
    DescriptorProto, DescriptorProtoExt, EnumDescriptorProto, EnumDescriptorProtoExt,
    EnumValueDescriptorProto, EnumValueDescriptorProtoExt, EnumValueOptions, EnumValueOptionsExt,
    FieldDescriptorProto, FieldDescriptorProtoExt, FieldOptions, FieldOptionsExt,
    FileDescriptorProto, FileDescriptorProtoExt, Label, MethodDescriptorProto,
    MethodDescriptorProtoExt, OneofDescriptorProto, OneofDescriptorProtoExt,
    ServiceDescriptorProto, ServiceDescriptorProtoExt, Type,
};
use defiant::enumeration::UnknownEnumValue;

#[test]
fn field_defaults_when_unset() {
    let f = FieldDescriptorProto { name: None, number: None, label: None, ty: None, type_ref: None };
    assert_eq!(f.name(), "");
    assert_eq!(f.number(), 0);
    assert_eq!(f.label(), Label::Optional);
    assert_eq!(f.field_type(), Type::Double);
    assert_eq!(f.field_type_name(), "");
}

#[test]
fn field_values_when_set() {
    let f = FieldDescriptorProto {
        name: Some("id"),
        number: Some(7),
        label: Some(3),
        ty: Some(12),
        type_ref: Some(".pkg.Msg"),
    };
    assert_eq!(f.name(), "id");
    assert_eq!(f.number(), 7);
    assert_eq!(f.label(), Label::Repeated);
    assert_eq!(f.field_type(), Type::Bytes);
    assert_eq!(f.field_type_name(), ".pkg.Msg");
}

#[test]
fn unknown_label_and_type_fall_back() {
    let f = FieldDescriptorProto { name: None, number: None, label: Some(9), ty: Some(19), type_ref: None };
    assert_eq!(f.label(), Label::Optional);
    assert_eq!(f.field_type(), Type::Double);
    assert_eq!(Label::try_from_i32(2), Ok(Label::Required));
    assert_eq!(Label::try_from_i32(0), Err(UnknownEnumValue(0)));
    assert_eq!(Type::try_from_i32(18), Ok(Type::Sint64));
    assert_eq!(Type::try_from_i32(9), Ok(Type::String));
    assert_eq!(Type::try_from_i32(-1), Err(UnknownEnumValue(-1)));
}

#[test]
fn other_descriptors() {
    let v = EnumValueDescriptorProto { name: Some("A"), number: Some(-2) };
    assert_eq!((v.name(), v.number()), ("A", -2));
    let v = EnumValueDescriptorProto { name: None, number: None };
    assert_eq!((v.name(), v.number()), ("", 0));
    assert_eq!(DescriptorProto { name: Some("M") }.name(), "M");
    assert_eq!(OneofDescriptorProto { name: None }.name(), "");
    assert_eq!(EnumDescriptorProto { name: Some("E") }.name(), "E");
    assert_eq!(FileDescriptorProto { package: None }.package(), "");
    assert_eq!(FileDescriptorProto { package: Some("a.b") }.package(), "a.b");
    assert_eq!(ServiceDescriptorProto { name: Some("S") }.name(), "S");
    let m = MethodDescriptorProto { name: Some("Call"), client_streaming: Some(true), server_streaming: None };
    assert_eq!(m.name(), "Call");
    assert!(m.client_streaming());
    assert!(!m.server_streaming());
}

#[test]
fn option_flags() {
    let o = FieldOptions { packed: Some(true), deprecated: None };
    assert!((&o).packed());
    assert!(!(&o).deprecated());
    let o = FieldOptions { packed: None, deprecated: Some(true) };
    assert!(!(&o).packed());
    assert!((&o).deprecated());
    assert!(!(&EnumValueOptions { deprecated: None }).deprecated());
    assert!((&EnumValueOptions { deprecated: Some(true) }).deprecated());
}
