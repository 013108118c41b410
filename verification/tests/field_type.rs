use defiant::field_type::{
    disallowed_text, extract_type_path, message_needs_arena, nested_message_uses_arena, type_uses_arena,
    validate_arena_field_type, DisallowedType, GenericArg, PathArgs, PathSegment, RustType,
    TypePath,
};

fn seg(name: &str, args: Vec<GenericArg>) -> PathSegment {
    PathSegment {
        ident: name.to_string(),
        args: if args.is_empty() { PathArgs::NoArgs } else { PathArgs::AngleBracketed(args) },
    }
}

fn path(segments: Vec<PathSegment>) -> RustType {
    RustType::Path(TypePath { leading_colon: false, segments })
}

fn simple(name: &str) -> RustType {
    path(vec![seg(name, vec![])])
}

fn with_lifetime(name: &str) -> RustType {
    path(vec![seg(name, vec![GenericArg::Lifetime])])
}

fn generic(name: &str, args: Vec<RustType>) -> RustType {
    path(vec![seg(name, args.into_iter().map(GenericArg::Type).collect())])
}

fn reference(t: RustType) -> RustType {
    RustType::Reference(Box::new(t))
}

fn slice(t: RustType) -> RustType {
    RustType::Slice(Box::new(t))
}

fn idents(p: &TypePath) -> Vec<String> {
    assert!(p.segments.iter().all(|s| s.args == PathArgs::NoArgs));
    p.segments.iter().map(|s| s.ident.clone()).collect()
}

#[test]
fn arena_use_of_field_types() {
    assert!(type_uses_arena(&reference(simple("str"))));
    assert!(!type_uses_arena(&simple("i32")));
    assert!(!type_uses_arena(&generic("Option", vec![simple("i32")])));
    assert!(type_uses_arena(&generic("Option", vec![reference(simple("str"))])));
    assert!(type_uses_arena(&path(vec![seg("value", vec![]), seg("Kind", vec![GenericArg::Lifetime])])));
    assert!(type_uses_arena(&generic("Wrapper", vec![with_lifetime("Inner")])));
    assert!(!type_uses_arena(&generic("Wrapper", vec![simple("u8")])));
    assert!(!type_uses_arena(&path(vec![])));
    assert!(!type_uses_arena(&RustType::Other));
}

#[test]
fn nested_message_lifetimes() {
    assert!(nested_message_uses_arena(&reference(slice(with_lifetime("Address")))));
    assert!(!nested_message_uses_arena(&reference(slice(simple("ReservedRange")))));
    assert!(nested_message_uses_arena(&generic("Option", vec![reference(with_lifetime("FileOptions"))])));
    assert!(!nested_message_uses_arena(&with_lifetime("Address")));
    assert!(!nested_message_uses_arena(&reference(slice(RustType::Other))));
}

#[test]
fn message_type_paths() {
    let t = generic("Option", vec![reference(with_lifetime("Address"))]);
    assert_eq!(idents(&extract_type_path(&t)), vec!["Address"]);
    let t = path(vec![seg("code_generator_response", vec![]), seg("File", vec![GenericArg::Lifetime])]);
    assert_eq!(idents(&extract_type_path(&t)), vec!["code_generator_response", "File"]);
    let t = reference(slice(path(vec![
        seg("descriptor_proto", vec![]),
        seg("ExtensionRange", vec![GenericArg::Lifetime]),
    ])));
    assert_eq!(idents(&extract_type_path(&t)), vec!["descriptor_proto", "ExtensionRange"]);
    let qualified = RustType::Path(TypePath {
        leading_colon: true,
        segments: vec![
            seg("core", vec![]),
            seg("option", vec![]),
            seg("Option", vec![GenericArg::Type(with_lifetime("Msg"))]),
        ],
    });
    let p = extract_type_path(&qualified);
    assert!(!p.leading_colon);
    assert_eq!(idents(&p), vec!["Msg"]);
    // Another crate's type called Option is kept as it is.
    let foreign = path(vec![seg("other", vec![]), seg("Option", vec![GenericArg::Type(simple("X"))])]);
    assert_eq!(idents(&extract_type_path(&foreign)), vec!["other", "Option"]);
}

#[test]
fn owned_collections_are_refused() {
    assert_eq!(validate_arena_field_type(&generic("Vec", vec![simple("u8")])), Err(DisallowedType::Vec));
    assert_eq!(validate_arena_field_type(&reference(slice(simple("String")))), Err(DisallowedType::String));
    assert_eq!(
        validate_arena_field_type(&generic("Option", vec![generic("Box", vec![simple("T")])])),
        Err(DisallowedType::Box)
    );
    assert_eq!(
        validate_arena_field_type(&generic("HashMap", vec![simple("K"), simple("V")])),
        Err(DisallowedType::HashMap)
    );
    assert_eq!(
        validate_arena_field_type(&generic("Pair", vec![generic("BTreeMap", vec![]), simple("String")])),
        Err(DisallowedType::BTreeMap)
    );
    assert_eq!(validate_arena_field_type(&reference(simple("str"))), Ok(()));
    assert_eq!(validate_arena_field_type(&generic("Option", vec![with_lifetime("Msg")])), Ok(()));
    assert_eq!(
        disallowed_text("items", DisallowedType::Vec),
        "Field 'items' uses Vec<_> which is not allowed for arena types. Use &'arena [T] instead of Vec<T>"
    );
    assert_eq!(
        disallowed_text("name", DisallowedType::String),
        "Field 'name' uses String which is not allowed for arena types. Use &'arena str instead of String"
    );
}

#[test]
fn message_needs_arena_when_a_field_does() {

    assert!(!message_needs_arena(&[]));
    assert!(!message_needs_arena(&[simple("i32"), generic("Option", vec![simple("u64")])]));
    assert!(message_needs_arena(&[simple("i32"), reference(simple("str"))]));
}

#[test]
fn owned_types_inside_tuples_arrays_and_fn_types_are_refused() {
    let tuple = RustType::Tuple(vec![simple("String"), simple("u32")]);
    assert_eq!(validate_arena_field_type(&tuple), Err(DisallowedType::String));
    let array = RustType::Array(Box::new(generic("Vec", vec![simple("u8")])));
    assert_eq!(validate_arena_field_type(&array), Err(DisallowedType::Vec));
    let function = RustType::Fn(vec![generic("HashMap", vec![simple("K"), simple("V")]), simple("u32")]);
    assert_eq!(validate_arena_field_type(&function), Err(DisallowedType::HashMap));
    let fine = RustType::Tuple(vec![reference(simple("str")), simple("u32")]);
    assert_eq!(validate_arena_field_type(&fine), Ok(()));
    let empty = RustType::Tuple(vec![]);
    assert_eq!(validate_arena_field_type(&empty), Ok(()));
}

#[test]
fn owned_types_anywhere_in_a_path_or_pointer_are_refused() {
    // `Foo<Vec<u8>>::Bar`: the collection sits in a segment before the last.
    let assoc = path(vec![seg("Foo", vec![GenericArg::Type(generic("Vec", vec![simple("u8")]))]), seg("Bar", vec![])]);
    assert_eq!(validate_arena_field_type(&assoc), Err(DisallowedType::Vec));
    // `Vec::Iter`: a collection named in an earlier segment.
    let named = path(vec![seg("Vec", vec![]), seg("Iter", vec![])]);
    assert_eq!(validate_arena_field_type(&named), Err(DisallowedType::Vec));
    // `&'a *const Vec<u8>`.
    let ptr = reference(RustType::Ptr(Box::new(generic("Vec", vec![simple("u8")]))));
    assert_eq!(validate_arena_field_type(&ptr), Err(DisallowedType::Vec));
    // `(String)`.
    let paren = RustType::Paren(Box::new(simple("String")));
    assert_eq!(validate_arena_field_type(&paren), Err(DisallowedType::String));
    // `&'a dyn Trait<BTreeMap<K, V>>`.
    let dyn_trait = reference(RustType::TraitObject(vec![TypePath {
        leading_colon: false,
        segments: vec![seg("Trait", vec![GenericArg::Type(generic("BTreeMap", vec![simple("K"), simple("V")]))])],
    }]));
    assert_eq!(validate_arena_field_type(&dyn_trait), Err(DisallowedType::BTreeMap));
    // `Foo<Item = String>`.
    let binding = path(vec![seg("Foo", vec![GenericArg::Binding(simple("String"))])]);
    assert_eq!(validate_arena_field_type(&binding), Err(DisallowedType::String));
    // `&'a dyn Fn(Box<u8>)`.
    let fn_trait = reference(RustType::TraitObject(vec![TypePath {
        leading_colon: false,
        segments: vec![PathSegment {
            ident: "Fn".to_string(),
            args: PathArgs::Parenthesized(vec![generic("Box", vec![simple("u8")])]),
        }],
    }]));
    assert_eq!(validate_arena_field_type(&fn_trait), Err(DisallowedType::Box));
    // The last segment is looked at first.
    let both = path(vec![seg("Foo", vec![GenericArg::Type(simple("String"))]), seg("Box", vec![])]);
    assert_eq!(validate_arena_field_type(&both), Err(DisallowedType::Box));
    // Borrowed forms stay allowed.
    let fine = path(vec![seg("Foo", vec![GenericArg::Lifetime]), seg("Bar", vec![GenericArg::Type(reference(simple("str")))])]);
    assert_eq!(validate_arena_field_type(&fine), Ok(()));
    assert_eq!(validate_arena_field_type(&RustType::Ptr(Box::new(simple("u8")))), Ok(()));
}
