use defiant::map_field::{
    enum_map_accessors, field_tag, map_attr_error_text, map_codec_plan, map_field_from_attrs, scalar_ty_from_str,
    split_key_value, unknown_attributes_text, DefaultValue, EnumMapAccessors, MapAttr, MapAttrError, MapCodecPlan, MapField, MapTy,
    ScalarCodec, ScalarTy, ValuePlan, ValueTy,
};

#[test]
fn map_annotations() {
    assert_eq!(MapTy::from_str("arena_map"), Some(MapTy::HashMap));
    assert_eq!(MapTy::from_str("map"), Some(MapTy::HashMap));
    assert_eq!(MapTy::from_str("hash_map"), Some(MapTy::HashMap));
    assert_eq!(MapTy::from_str("btree_map"), Some(MapTy::BTreeMap));
    assert_eq!(MapTy::from_str("Map"), None);
    assert_eq!(MapTy::from_str(""), None);
    assert_eq!(MapTy::HashMap.module(), "arena_map");
    assert_eq!(MapTy::BTreeMap.module(), "arena_map");
    assert_eq!(MapTy::HashMap.lib(), "std");
    assert_eq!(MapTy::BTreeMap.lib(), "prost::alloc");
}

#[test]
fn key_and_value_types() {
    assert_eq!(
        split_key_value("string, int32"),
        Ok(("string".to_string(), " int32".to_string()))
    );
    assert_eq!(split_key_value("a,"), Ok(("a".to_string(), String::new())));
    assert_eq!(split_key_value("string"), Err(MapAttrError::MissingValueType));
    assert_eq!(split_key_value(""), Err(MapAttrError::MissingValueType));
    assert_eq!(split_key_value("a, b, c"), Err(MapAttrError::TooManyTypes));
    assert_eq!(split_key_value(",,"), Err(MapAttrError::TooManyTypes));
}

fn str_attr(name: &str, value: &str) -> MapAttr {
    MapAttr::Str {
        name: name.to_string(),
        value: value.to_string(),
        debug: format!("{name} = {value:?}"),
    }
}

fn list_attr(name: &str, items: &[&str]) -> MapAttr {
    MapAttr::List { name: name.to_string(), items: items.iter().map(|s| s.to_string()).collect() }
}

#[test]
fn scalar_type_names() {
    assert_eq!(scalar_ty_from_str(" int32 "), Some(ScalarTy::Int32));
    assert_eq!(scalar_ty_from_str("bytes"), Some(ScalarTy::Bytes));
    assert_eq!(scalar_ty_from_str("double"), Some(ScalarTy::Double));
    assert_eq!(scalar_ty_from_str("enumeration(Foo)"), Some(ScalarTy::Enumeration("Foo".to_string())));
    assert_eq!(
        scalar_ty_from_str("enumeration < a::B >"),
        Some(ScalarTy::Enumeration("a::B".to_string()))
    );
    assert_eq!(scalar_ty_from_str("enumeration()"), None);
    assert_eq!(scalar_ty_from_str("enumeration(Foo"), None);
    assert_eq!(scalar_ty_from_str("Int32"), None);
    assert_eq!(scalar_ty_from_str("message"), None);
}

#[test]
fn map_fields_from_attributes() {
    let attrs = vec![str_attr("map", "string, int32"), MapAttr::Tag(3)];
    assert_eq!(
        map_field_from_attrs(&attrs, None),
        Ok(Some(MapField {
            map_ty: MapTy::HashMap,
            key_ty: ScalarTy::String,
            value_ty: ValueTy::Scalar(ScalarTy::Int32),
            tag: 3,
        }))
    );
    let attrs = vec![list_attr("btree_map", &["sint64", "message"])];
    assert_eq!(
        map_field_from_attrs(&attrs, Some(7)),
        Ok(Some(MapField { map_ty: MapTy::BTreeMap, key_ty: ScalarTy::Sint64, value_ty: ValueTy::Message, tag: 7 }))
    );
    assert_eq!(map_field_from_attrs(&attrs, None), Ok(None));
    assert_eq!(map_field_from_attrs(&[MapAttr::Tag(1)], Some(2)), Ok(None));
    assert_eq!(map_field_from_attrs(&[str_attr("map", "string, int32"), MapAttr::Other], Some(1)), Ok(None));
    assert_eq!(map_field_from_attrs(&[str_attr("repeated", "x"), MapAttr::Tag(1), MapAttr::Tag(2)], None), Ok(None));
    let attrs = vec![str_attr("arena_map", "int32, enumeration(Kind)"), MapAttr::Tag(9)];
    assert_eq!(
        map_field_from_attrs(&attrs, None),
        Ok(Some(MapField {
            map_ty: MapTy::HashMap,
            key_ty: ScalarTy::Int32,
            value_ty: ValueTy::Scalar(ScalarTy::Enumeration("Kind".to_string())),
            tag: 9,
        }))
    );
}

#[test]
fn map_attribute_errors() {
    assert_eq!(map_field_from_attrs(&[str_attr("map", "string")], None), Err(MapAttrError::MissingValueType));
    assert_eq!(
        map_field_from_attrs(&[str_attr("map", "a, b, c")], None),
        Err(MapAttrError::InvalidAttribute("map = \"a, b, c\"".to_string()))
    );
    assert_eq!(
        map_attr_error_text(&MapAttrError::InvalidAttribute("map = \"a, b, c\"".to_string())),
        "invalid map attribute: map = \"a, b, c\""
    );
    assert_eq!(map_field_from_attrs(&[list_attr("map", &["string"])], None), Err(MapAttrError::NotKeyAndValue));
    assert_eq!(
        map_field_from_attrs(&[MapAttr::Tag(1), MapAttr::Tag(2)], None),
        Err(MapAttrError::DuplicateTag(1, 2))
    );
    assert_eq!(
        map_field_from_attrs(&[str_attr("map", "string, int32"), str_attr("map", "int32, int32")], None),
        Err(MapAttrError::DuplicateMapType)
    );
    assert_eq!(
        map_field_from_attrs(&[str_attr("map", "float, int32")], None),
        Err(MapAttrError::InvalidKeyType("float".to_string()))
    );
    assert_eq!(
        map_field_from_attrs(&[str_attr("map", "strng, int32")], None),
        Err(MapAttrError::InvalidType("strng".to_string()))
    );
    assert_eq!(
        map_field_from_attrs(&[str_attr("map", "string, foo")], None),
        Err(MapAttrError::InvalidValueType(" foo".to_string()))
    );
    assert_eq!(
        map_attr_error_text(&MapAttrError::MissingValueType),
        "invalid map attribute: must have key and value types"
    );
    assert_eq!(
        map_attr_error_text(&MapAttrError::NotKeyAndValue),
        "invalid map attribute: must contain key and value types"
    );
    assert_eq!(map_attr_error_text(&MapAttrError::DuplicateTag(1, 2)), "duplicate tag attributes: 1 and 2");
    assert_eq!(map_attr_error_text(&MapAttrError::DuplicateMapType), "duplicate map type attribute");
    assert_eq!(
        map_attr_error_text(&MapAttrError::InvalidKeyType("float".to_string())),
        "invalid map key type: float"
    );
    assert_eq!(
        map_attr_error_text(&MapAttrError::InvalidValueType(" foo".to_string())),
        "invalid map value type:  foo"
    );
}

#[test]
fn lib_test_rejects_multiple_tags_oneof_variant() {
    let attrs = vec![MapAttr::Other, MapAttr::Tag(1), MapAttr::Tag(2)];
    let err = field_tag(&attrs).unwrap_err();
    assert_eq!(map_attr_error_text(&err), "duplicate tag attributes: 1 and 2");
    let attrs = vec![MapAttr::Tag(3), MapAttr::Other, MapAttr::Tag(4)];
    let err = field_tag(&attrs).unwrap_err();
    assert_eq!(map_attr_error_text(&err), "duplicate tag attributes: 3 and 4");
    // `tags = "5,6"` is no tag attribute; the field reports it as unknown.
    let attrs = vec![MapAttr::Other, str_attr("tags", "5,6")];
    assert_eq!(field_tag(&attrs), Ok(None));
    assert_eq!(
        unknown_attributes_text(&["tags = \"5,6\"".to_string()]),
        "unknown attribute(s): #[prost(tags = \"5,6\")]"
    );
    assert_eq!(field_tag(&[MapAttr::Other, MapAttr::Tag(5)]), Ok(Some(5)));
    assert_eq!(field_tag(&[MapAttr::Other]), Ok(None));
}

#[test]
fn map_codec_plans() {
    let field = MapField {
        map_ty: MapTy::HashMap,
        key_ty: ScalarTy::String,
        value_ty: ValueTy::Scalar(ScalarTy::Bytes),
        tag: 1,
    };
    let plan = map_codec_plan(&field);
    assert_eq!(
        plan,
        MapCodecPlan {
            key_codec: ScalarCodec::String,
            key_default: DefaultValue::EmptyStr,
            key_by_ref: true,
            key_in_arena: true,
            value: ValuePlan::Scalar {
                codec: ScalarCodec::Bytes,
                default: DefaultValue::EmptyBytes,
                by_ref: true,
                in_arena: true,
            },
        }
    );
    assert_eq!(plan.key_codec.module(), "string");
    assert_eq!(DefaultValue::EmptyBytes.text(), "&b\"\"[..]");
    let field = MapField {
        map_ty: MapTy::BTreeMap,
        key_ty: ScalarTy::Fixed32,
        value_ty: ValueTy::Scalar(ScalarTy::Enumeration("Kind".to_string())),
        tag: 2,
    };
    let plan = map_codec_plan(&field);
    assert_eq!(plan.key_codec, ScalarCodec::Fixed32);
    assert_eq!(plan.key_default.text(), "0u32");
    assert!(!plan.key_by_ref && !plan.key_in_arena);
    assert_eq!(plan.value, ValuePlan::Enumeration);
    let field = MapField { map_ty: MapTy::HashMap, key_ty: ScalarTy::Bool, value_ty: ValueTy::Message, tag: 3 };
    let plan = map_codec_plan(&field);
    assert_eq!(plan.key_default, DefaultValue::False);
    assert_eq!(plan.value, ValuePlan::Message);
    let field = MapField {
        map_ty: MapTy::HashMap,
        key_ty: ScalarTy::Int64,
        value_ty: ValueTy::Scalar(ScalarTy::Double),
        tag: 4,
    };
    assert_eq!(
        map_codec_plan(&field).value,
        ValuePlan::Scalar { codec: ScalarCodec::Double, default: DefaultValue::ZeroF64, by_ref: false, in_arena: false }
    );
}

#[test]
fn enumeration_maps_get_accessors() {
    let field = MapField {
        map_ty: MapTy::HashMap,
        key_ty: ScalarTy::Int32,
        value_ty: ValueTy::Scalar(ScalarTy::Enumeration("Kind".to_string())),
        tag: 1,
    };
    assert_eq!(
        enum_map_accessors(&field, "kinds"),
        Some(EnumMapAccessors { get: "get_kinds".to_string(), insert: "insert_kinds".to_string(), key_by_ref: true })
    );
    let field = MapField {
        map_ty: MapTy::HashMap,
        key_ty: ScalarTy::String,
        value_ty: ValueTy::Scalar(ScalarTy::Enumeration("Kind".to_string())),
        tag: 1,
    };
    assert_eq!(enum_map_accessors(&field, "by_name").map(|a| a.key_by_ref), Some(false));
    let field = MapField { map_ty: MapTy::HashMap, key_ty: ScalarTy::String, value_ty: ValueTy::Message, tag: 1 };
    assert_eq!(enum_map_accessors(&field, "msgs"), None);
}
