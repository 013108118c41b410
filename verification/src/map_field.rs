//! The attribute of a map field: which map annotation it uses, and the key
//! and value types it names, as in `arena_map = "string, int32"`.
use vstd::prelude::*;

use crate::debug::{fmt_decimal, push_joined, spec_decimal, spec_join, texts};
use crate::text::push_str;
use crate::text::{chars_of, concat_str, spec_trim, str_eq, string_from_chars, trim};

verus! {

/// The map annotation of a field. All maps are held in the arena and
/// encoded alike; the two kinds only name the collection a user asked for.
#[derive(Debug, Clone, Copy, PartialEq, Eq, Structural)]
pub enum MapTy {
    HashMap,
    BTreeMap,
}

/// The map kind that the annotation `s` names: `arena_map`, `map` and
/// `hash_map` name a hash map, `btree_map` a B-tree map.
pub open spec fn spec_map_ty(s: Seq<char>) -> Option<MapTy> {
    if s == "arena_map"@ || s == "map"@ || s == "hash_map"@ {
        Some(MapTy::HashMap)
    } else if s == "btree_map"@ {
        Some(MapTy::BTreeMap)
    } else {
        None
    }
}

impl MapTy {
    /// The map kind that the annotation `s` names, if any.
    pub fn from_str(s: &str) -> (r: Option<MapTy>)
        ensures
            r == spec_map_ty(s@),
    {
        if str_eq(s, "arena_map") || str_eq(s, "map") || str_eq(s, "hash_map") {
            Some(MapTy::HashMap)
        } else if str_eq(s, "btree_map") {
            Some(MapTy::BTreeMap)
        } else {
            None
        }
    }

    /// The encoding module of map fields, the same for both kinds.
    pub fn module(&self) -> (r: &'static str)
        ensures
            r@ == "arena_map"@,
    {
        "arena_map"
    }

    /// The path of the library that holds the collection a user asked for.
    pub fn lib(&self) -> (r: &'static str)
        ensures
            r@ == match self {
                MapTy::HashMap => "std"@,
                MapTy::BTreeMap => "prost::alloc"@,
            },
    {
        match self {
            MapTy::HashMap => "std",
            MapTy::BTreeMap => "prost::alloc",
        }
    }
}

/// Why the attributes of a map field could not be read. `S` is the text of
/// a type name: `String`, or its characters in contracts.
#[derive(Debug, Clone, PartialEq, Eq)]
pub enum MapAttrError<S> {
    /// The attribute names a key type and no value type.
    MissingValueType,
    /// The attribute names more than a key and a value type.
    TooManyTypes,
    /// A map attribute `name = "value"` that names more than a key and a
    /// value type: the attribute's `Debug` text.
    InvalidAttribute(S),
    /// The list form of the attribute does not hold exactly two types.
    NotKeyAndValue,
    /// Two tag attributes, with their tags.
    DuplicateTag(u32, u32),
    /// Two map type attributes.
    DuplicateMapType,
    /// A name that is no scalar type, as written.
    InvalidType(S),
    /// A scalar type that cannot be a map key, as written.
    InvalidKeyType(S),
    /// A name that is neither a scalar type nor `message`, as written.
    InvalidValueType(S),
}

impl View for MapAttrError<String> {
    type V = MapAttrError<Seq<char>>;

    open spec fn view(&self) -> MapAttrError<Seq<char>> {
        match self {
            MapAttrError::MissingValueType => MapAttrError::MissingValueType,
            MapAttrError::TooManyTypes => MapAttrError::TooManyTypes,
            MapAttrError::InvalidAttribute(s) => MapAttrError::InvalidAttribute(s@),
            MapAttrError::NotKeyAndValue => MapAttrError::NotKeyAndValue,
            MapAttrError::DuplicateTag(a, b) => MapAttrError::DuplicateTag(*a, *b),
            MapAttrError::DuplicateMapType => MapAttrError::DuplicateMapType,
            MapAttrError::InvalidType(s) => MapAttrError::InvalidType(s@),
            MapAttrError::InvalidKeyType(s) => MapAttrError::InvalidKeyType(s@),
            MapAttrError::InvalidValueType(s) => MapAttrError::InvalidValueType(s@),
        }
    }
}

/// The number of commas in `s`.
pub open spec fn count_commas(s: Seq<char>) -> nat
    decreases s.len(),
{
    if s.len() == 0 {
        0
    } else {
        count_commas(s.drop_last()) + if s.last() == ',' {
            1nat
        } else {
            0nat
        }
    }
}

/// The index of the first comma in `s`, which must hold one.
pub open spec fn first_comma(s: Seq<char>) -> int
    recommends
        count_commas(s) > 0,
{
    choose|i: int| 0 <= i < s.len() && s[i] == ',' && !s.take(i).contains(',')
}

/// A count, with every count above two taken as two.
pub open spec fn capped(n: nat) -> nat {
    if n > 2 {
        2
    } else {
        n
    }
}

/// A sequence without commas counts none; one that ends in a comma counts
/// one more than without it.
proof fn lemma_count_commas_take(s: Seq<char>, i: int)
    requires
        0 <= i < s.len(),
    ensures
        count_commas(s.take(i + 1)) == count_commas(s.take(i)) + if s[i] == ',' {
            1nat
        } else {
            0nat
        },
{
    assert(s.take(i + 1).drop_last() =~= s.take(i));
}

/// A sequence counts no comma exactly when it holds none.
proof fn lemma_no_commas(s: Seq<char>)
    ensures
        count_commas(s) == 0 <==> !s.contains(','),
    decreases s.len(),
{
    if s.len() > 0 {
        lemma_no_commas(s.drop_last());
        if s.drop_last().contains(',') {
            let i = choose|i: int| 0 <= i < s.drop_last().len() && s.drop_last()[i] == ',';
            assert(s[i] == ',');
        }
        if s.contains(',') && s.last() != ',' {
            let i = choose|i: int| 0 <= i < s.len() && s[i] == ',';
            assert(s.drop_last()[i] == ',');
        }
    }
}

/// The commas of a sequence are those before and those after any point.
proof fn lemma_count_commas_split(s: Seq<char>, i: int)
    requires
        0 <= i <= s.len(),
    ensures
        count_commas(s) == count_commas(s.take(i)) + count_commas(s.skip(i)),
    decreases s.len(),
{
    if i == s.len() {
        assert(s.take(i) =~= s);
        assert(s.skip(i) =~= Seq::<char>::empty());
    } else {
        let d = s.drop_last();
        lemma_count_commas_split(d, i);
        assert(d.take(i) =~= s.take(i));
        assert(s.skip(i).drop_last() =~= d.skip(i));
        assert(s.skip(i).last() == s.last());
    }
}

/// The key and value type names of a map attribute such as
/// `"string, int32"`: the text before and after its one comma, as they are.
/// Without a comma the value type is missing; with more than one there are
/// too many types.
pub fn split_key_value(s: &str) -> (r: Result<(String, String), MapAttrError<String>>)
    ensures
        count_commas(s@) == 0 ==> r == Err::<(String, String), MapAttrError<String>>(
            MapAttrError::MissingValueType,
        ),
        count_commas(s@) > 1 ==> r == Err::<(String, String), MapAttrError<String>>(
            MapAttrError::TooManyTypes,
        ),
        count_commas(s@) == 1 ==> (r matches Ok((k, v)) && k@ == s@.take(first_comma(s@))
            && v@ == s@.skip(first_comma(s@) + 1)),
        r matches Ok((k, v)) ==> s@ == k@ + seq![','] + v@ && !k@.contains(',') && !v@.contains(
            ',',
        ),
{
    broadcast use vstd::string::axiom_spec_iter;

    let mut key: Vec<char> = Vec::new();
    let mut value: Vec<char> = Vec::new();
    let mut commas: usize = 0;
    let ghost mut comma_at: int = 0;
    assert(s@.take(s@.len() as int) =~= s@);
    for c in it: s.chars()
        invariant
            it.seq() == s@,
            s@.take(s@.len() as int) == s@,
            commas == capped(count_commas(s@.take(it.index()))),
            commas == 0 ==> key@ == s@.take(it.index()) && value@.len() == 0,
            commas >= 1 ==> 0 <= comma_at < it.index() && s@[comma_at] == ','
                && !s@.take(comma_at).contains(',') && key@ == s@.take(comma_at),
            commas == 1 ==> value@ == s@.subrange(comma_at + 1, it.index() as int),
    {
        proof {
            lemma_count_commas_take(s@, it.index() as int);
        }
        if c == ',' {
            if commas == 0 {
                proof {
                    comma_at = it.index() as int;
                    lemma_no_commas(s@.take(it.index() as int));
                }
                assert(s@.take(comma_at) =~= s@.take(it.index() as int));
                assert(s@.subrange(comma_at + 1, it.index() + 1) =~= Seq::<char>::empty());
            }
            if commas < 2 {
                commas = commas + 1;
            }
        } else if commas == 0 {
            key.push(c);
            assert(key@ =~= s@.take(it.index() + 1));
        } else if commas == 1 {
            value.push(c);
            assert(value@ =~= s@.subrange(comma_at + 1, it.index() + 1));
        }
    }
    if commas == 0 {
        return Err(MapAttrError::MissingValueType);
    }
    if commas > 1 {
        return Err(MapAttrError::TooManyTypes);
    }
    proof {
        assert(s@.subrange(comma_at + 1, s@.len() as int) =~= s@.skip(comma_at + 1));
        let f = first_comma(s@);
        assert(0 <= comma_at < s@.len() && s@[comma_at] == ',' && !s@.take(comma_at).contains(
            ',',
        ));
        if f != comma_at {
            if f < comma_at {
                assert(s@.take(comma_at)[f] == ',');
            } else {
                assert(s@.take(f)[comma_at] == ',');
            }
        }
        lemma_count_commas_split(s@, comma_at + 1);
        assert(s@.take(comma_at + 1) =~= s@.take(comma_at).push(','));
        assert(s@.take(comma_at + 1).drop_last() =~= s@.take(comma_at));
        lemma_no_commas(s@.take(comma_at));
        lemma_no_commas(s@.skip(comma_at + 1));
        assert(s@ =~= s@.take(comma_at) + seq![','] + s@.skip(comma_at + 1));
    }
    Ok((string_from_chars(&key), string_from_chars(&value)))
}

/// A scalar field type of a map attribute. `S` is the text of an
/// enumeration's type name.
#[derive(Debug, Clone, PartialEq, Eq)]
pub enum ScalarTy<S> {
    Double,
    Float,
    Int32,
    Int64,
    Uint32,
    Uint64,
    Sint32,
    Sint64,
    Fixed32,
    Fixed64,
    Sfixed32,
    Sfixed64,
    Bool,
    String,
    Bytes,
    /// An enumeration, by the path of its Rust type.
    Enumeration(S),
}

impl View for ScalarTy<String> {
    type V = ScalarTy<Seq<char>>;

    open spec fn view(&self) -> ScalarTy<Seq<char>> {
        match self {
            ScalarTy::Double => ScalarTy::Double,
            ScalarTy::Float => ScalarTy::Float,
            ScalarTy::Int32 => ScalarTy::Int32,
            ScalarTy::Int64 => ScalarTy::Int64,
            ScalarTy::Uint32 => ScalarTy::Uint32,
            ScalarTy::Uint64 => ScalarTy::Uint64,
            ScalarTy::Sint32 => ScalarTy::Sint32,
            ScalarTy::Sint64 => ScalarTy::Sint64,
            ScalarTy::Fixed32 => ScalarTy::Fixed32,
            ScalarTy::Fixed64 => ScalarTy::Fixed64,
            ScalarTy::Sfixed32 => ScalarTy::Sfixed32,
            ScalarTy::Sfixed64 => ScalarTy::Sfixed64,
            ScalarTy::Bool => ScalarTy::Bool,
            ScalarTy::String => ScalarTy::String,
            ScalarTy::Bytes => ScalarTy::Bytes,
            ScalarTy::Enumeration(s) => ScalarTy::Enumeration(s@),
        }
    }
}

/// The scalar type that the text `s` names, white space around it aside:
/// the name of a protobuf scalar type, or `enumeration` followed by a type
/// path in angle or round brackets.
pub open spec fn spec_scalar_ty(s: Seq<char>) -> Option<ScalarTy<Seq<char>>> {
    let t = spec_trim(s);
    if t == "double"@ {
        Some(ScalarTy::Double)
    } else     if t == "float"@ {
        Some(ScalarTy::Float)
    } else     if t == "int32"@ {
        Some(ScalarTy::Int32)
    } else     if t == "int64"@ {
        Some(ScalarTy::Int64)
    } else     if t == "uint32"@ {
        Some(ScalarTy::Uint32)
    } else     if t == "uint64"@ {
        Some(ScalarTy::Uint64)
    } else     if t == "sint32"@ {
        Some(ScalarTy::Sint32)
    } else     if t == "sint64"@ {
        Some(ScalarTy::Sint64)
    } else     if t == "fixed32"@ {
        Some(ScalarTy::Fixed32)
    } else     if t == "fixed64"@ {
        Some(ScalarTy::Fixed64)
    } else     if t == "sfixed32"@ {
        Some(ScalarTy::Sfixed32)
    } else     if t == "sfixed64"@ {
        Some(ScalarTy::Sfixed64)
    } else     if t == "bool"@ {
        Some(ScalarTy::Bool)
    } else     if t == "string"@ {
        Some(ScalarTy::String)
    } else     if t == "bytes"@ {
        Some(ScalarTy::Bytes)
    } else if t.len() > 11 && t.take(11) == "enumeration"@ {
        let rest = spec_trim(t.skip(11));
        if rest.len() >= 2 && (rest[0] == '<' || rest[0] == '(') && (rest.last() == '>'
            || rest.last() == ')') && spec_trim(rest.subrange(1, rest.len() - 1)).len() > 0 {
            Some(ScalarTy::Enumeration(spec_trim(rest.subrange(1, rest.len() - 1))))
        } else {
            None
        }
    } else {
        None
    }
}

/// The view of an optional scalar type.
pub open spec fn opt_scalar_view(t: Option<ScalarTy<String>>) -> Option<ScalarTy<Seq<char>>> {
    match t {
        Some(x) => Some(x@),
        None => None,
    }
}

/// The first `n` characters of `v`.
fn take_chars(v: &Vec<char>, n: usize) -> (r: Vec<char>)
    requires
        n <= v@.len(),
    ensures
        r@ == v@.take(n as int),
{
    let mut out: Vec<char> = Vec::new();
    let mut k: usize = 0;
    while k < n
        invariant
            k <= n <= v@.len(),
            out@ == v@.take(k as int),
        decreases n - k,
    {
        out.push(v[k]);
        assert(out@ =~= v@.take(k + 1));
        k = k + 1;
    }
    out
}

/// The characters of `v` from `from` up to `to`.
fn sub_chars(v: &Vec<char>, from: usize, to: usize) -> (r: Vec<char>)
    requires
        from <= to <= v@.len(),
    ensures
        r@ == v@.subrange(from as int, to as int),
{
    let mut out: Vec<char> = Vec::new();
    let mut k: usize = from;
    while k < to
        invariant
            from <= k <= to <= v@.len(),
            out@ == v@.subrange(from as int, k as int),
        decreases to - k,
    {
        out.push(v[k]);
        assert(out@ =~= v@.subrange(from as int, k + 1));
        k = k + 1;
    }
    out
}

/// The scalar type that `s` names, if any.
pub fn scalar_ty_from_str(s: &str) -> (r: Option<ScalarTy<String>>)
    ensures
        opt_scalar_view(r) == spec_scalar_ty(s@),
{
    let chars = chars_of(s);
    let t = trim(&chars);
    let tstr = string_from_chars(&t);
    let ts = tstr.as_str();
    if str_eq(ts, "double") {
        return Some(ScalarTy::Double);
    }
    if str_eq(ts, "float") {
        return Some(ScalarTy::Float);
    }
    if str_eq(ts, "int32") {
        return Some(ScalarTy::Int32);
    }
    if str_eq(ts, "int64") {
        return Some(ScalarTy::Int64);
    }
    if str_eq(ts, "uint32") {
        return Some(ScalarTy::Uint32);
    }
    if str_eq(ts, "uint64") {
        return Some(ScalarTy::Uint64);
    }
    if str_eq(ts, "sint32") {
        return Some(ScalarTy::Sint32);
    }
    if str_eq(ts, "sint64") {
        return Some(ScalarTy::Sint64);
    }
    if str_eq(ts, "fixed32") {
        return Some(ScalarTy::Fixed32);
    }
    if str_eq(ts, "fixed64") {
        return Some(ScalarTy::Fixed64);
    }
    if str_eq(ts, "sfixed32") {
        return Some(ScalarTy::Sfixed32);
    }
    if str_eq(ts, "sfixed64") {
        return Some(ScalarTy::Sfixed64);
    }
    if str_eq(ts, "bool") {
        return Some(ScalarTy::Bool);
    }
    if str_eq(ts, "string") {
        return Some(ScalarTy::String);
    }
    if str_eq(ts, "bytes") {
        return Some(ScalarTy::Bytes);
    }
    if t.len() > 11 {
        let head = string_from_chars(&take_chars(&t, 11));
        if str_eq(head.as_str(), "enumeration") {
            let after = sub_chars(&t, 11, t.len());
            assert(after@ == t@.skip(11));
            let rest = trim(&after);
            let n = rest.len();
            if n >= 2 && (rest[0] == '<' || rest[0] == '(') && (rest[n - 1] == '>' || rest[n - 1]
                == ')') {
                let inner = trim(&sub_chars(&rest, 1, n - 1));
                if inner.len() > 0 {
                    return Some(ScalarTy::Enumeration(string_from_chars(&inner)));
                }
            }
        }
    }
    None
}

/// The codec module of a scalar type.
#[derive(Debug, Clone, Copy, PartialEq, Eq, Structural)]
pub enum ScalarCodec {
    Double,
    Float,
    Int32,
    Int64,
    Uint32,
    Uint64,
    Sint32,
    Sint64,
    Fixed32,
    Fixed64,
    Sfixed32,
    Sfixed64,
    Bool,
    String,
    Bytes,
}

/// The codec module that encodes a scalar type: its own, or `int32` for an
/// enumeration.
pub open spec fn spec_codec_of<S>(t: ScalarTy<S>) -> ScalarCodec {
    match t {
        ScalarTy::Enumeration(_) => ScalarCodec::Int32,
        ScalarTy::Double => ScalarCodec::Double,
        ScalarTy::Float => ScalarCodec::Float,
        ScalarTy::Int32 => ScalarCodec::Int32,
        ScalarTy::Int64 => ScalarCodec::Int64,
        ScalarTy::Uint32 => ScalarCodec::Uint32,
        ScalarTy::Uint64 => ScalarCodec::Uint64,
        ScalarTy::Sint32 => ScalarCodec::Sint32,
        ScalarTy::Sint64 => ScalarCodec::Sint64,
        ScalarTy::Fixed32 => ScalarCodec::Fixed32,
        ScalarTy::Fixed64 => ScalarCodec::Fixed64,
        ScalarTy::Sfixed32 => ScalarCodec::Sfixed32,
        ScalarTy::Sfixed64 => ScalarCodec::Sfixed64,
        ScalarTy::Bool => ScalarCodec::Bool,
        ScalarTy::String => ScalarCodec::String,
        ScalarTy::Bytes => ScalarCodec::Bytes,
    }
}

impl ScalarCodec {
    /// The name of the codec module.
    pub open spec fn spec_module(self) -> Seq<char> {
        match self {
            ScalarCodec::Double => "double"@,
            ScalarCodec::Float => "float"@,
            ScalarCodec::Int32 => "int32"@,
            ScalarCodec::Int64 => "int64"@,
            ScalarCodec::Uint32 => "uint32"@,
            ScalarCodec::Uint64 => "uint64"@,
            ScalarCodec::Sint32 => "sint32"@,
            ScalarCodec::Sint64 => "sint64"@,
            ScalarCodec::Fixed32 => "fixed32"@,
            ScalarCodec::Fixed64 => "fixed64"@,
            ScalarCodec::Sfixed32 => "sfixed32"@,
            ScalarCodec::Sfixed64 => "sfixed64"@,
            ScalarCodec::Bool => "bool"@,
            ScalarCodec::String => "string"@,
            ScalarCodec::Bytes => "bytes"@,
        }
    }

    /// The name of the codec module, as in `encoding::int32`.
    pub fn module(&self) -> (r: &'static str)
        ensures
            r@ == self.spec_module(),
    {
        match self {
            ScalarCodec::Double => "double",
            ScalarCodec::Float => "float",
            ScalarCodec::Int32 => "int32",
            ScalarCodec::Int64 => "int64",
            ScalarCodec::Uint32 => "uint32",
            ScalarCodec::Uint64 => "uint64",
            ScalarCodec::Sint32 => "sint32",
            ScalarCodec::Sint64 => "sint64",
            ScalarCodec::Fixed32 => "fixed32",
            ScalarCodec::Fixed64 => "fixed64",
            ScalarCodec::Sfixed32 => "sfixed32",
            ScalarCodec::Sfixed64 => "sfixed64",
            ScalarCodec::Bool => "bool",
            ScalarCodec::String => "string",
            ScalarCodec::Bytes => "bytes",
        }
    }
}

/// Whether a scalar type can be a map key: the integer types, `bool` and
/// `string`.
pub open spec fn spec_is_key_ty<S>(t: ScalarTy<S>) -> bool {
    !(t is Double || t is Float || t is Bytes || t is Enumeration)
}

/// The key type that the text `k` names, or why it names none.
pub open spec fn spec_key_ty(k: Seq<char>) -> Result<ScalarTy<Seq<char>>, MapAttrError<Seq<char>>> {
    match spec_scalar_ty(k) {
        None => Err(MapAttrError::InvalidType(k)),
        Some(t) => if spec_is_key_ty(t) {
            Ok(t)
        } else {
            Err(MapAttrError::InvalidKeyType(k))
        },
    }
}

/// The value type of a map: a scalar, or a message.
#[derive(Debug, Clone, PartialEq, Eq)]
pub enum ValueTy<S> {
    Scalar(ScalarTy<S>),
    Message,
}

impl View for ValueTy<String> {
    type V = ValueTy<Seq<char>>;

    open spec fn view(&self) -> ValueTy<Seq<char>> {
        match self {
            ValueTy::Scalar(t) => ValueTy::Scalar(t@),
            ValueTy::Message => ValueTy::Message,
        }
    }
}

/// The value type that the text `v` names: a scalar type, or `message`.
pub open spec fn spec_value_ty(v: Seq<char>) -> Result<ValueTy<Seq<char>>, MapAttrError<Seq<char>>> {
    match spec_scalar_ty(v) {
        Some(t) => Ok(ValueTy::Scalar(t)),
        None => if spec_trim(v) == "message"@ {
            Ok(ValueTy::Message)
        } else {
            Err(MapAttrError::InvalidValueType(v))
        },
    }
}

/// The key type named by `k`, or the error that the attribute reports.
fn key_ty_from_str(k: &str) -> (r: Result<ScalarTy<String>, MapAttrError<String>>)
    ensures
        match r {
            Ok(t) => spec_key_ty(k@) == Ok::<ScalarTy<Seq<char>>, MapAttrError<Seq<char>>>(t@),
            Err(e) => spec_key_ty(k@) == Err::<ScalarTy<Seq<char>>, MapAttrError<Seq<char>>>(e@),
        },
{
    match scalar_ty_from_str(k) {
        None => Err(MapAttrError::InvalidType(string_from_chars(&chars_of(k)))),
        Some(t) => {
            let key = match &t {
                ScalarTy::Double | ScalarTy::Float | ScalarTy::Bytes | ScalarTy::Enumeration(_) => false,
                _ => true,
            };
            if key {
                Ok(t)
            } else {
                Err(MapAttrError::InvalidKeyType(string_from_chars(&chars_of(k))))
            }
        },
    }
}

/// The value type named by `v`, or the error that the attribute reports.
fn value_ty_from_str(v: &str) -> (r: Result<ValueTy<String>, MapAttrError<String>>)
    ensures
        match r {
            Ok(t) => spec_value_ty(v@) == Ok::<ValueTy<Seq<char>>, MapAttrError<Seq<char>>>(t@),
            Err(e) => spec_value_ty(v@) == Err::<ValueTy<Seq<char>>, MapAttrError<Seq<char>>>(e@),
        },
{
    match scalar_ty_from_str(v) {
        Some(t) => Ok(ValueTy::Scalar(t)),
        None => {
            let t = string_from_chars(&trim(&chars_of(v)));
            if str_eq(t.as_str(), "message") {
                Ok(ValueTy::Message)
            } else {
                Err(MapAttrError::InvalidValueType(string_from_chars(&chars_of(v))))
            }
        },
    }
}

/// A map field: its map kind, key and value types, and tag.
#[derive(Debug, Clone, PartialEq, Eq)]
pub struct MapField<S> {
    pub map_ty: MapTy,
    pub key_ty: ScalarTy<S>,
    pub value_ty: ValueTy<S>,
    pub tag: u32,
}

impl View for MapField<String> {
    type V = MapField<Seq<char>>;

    open spec fn view(&self) -> MapField<Seq<char>> {
        MapField {
            map_ty: self.map_ty,
            key_ty: self.key_ty@,
            value_ty: self.value_ty@,
            tag: self.tag,
        }
    }
}

/// An attribute of a struct field, as the derive reads it.
#[derive(Debug, Clone, PartialEq, Eq)]
pub enum MapAttr {
    /// A tag attribute, `tag = N` or `tag(N)`, with its tag.
    Tag(u32),
    /// An attribute `name = "value"` with a string.
    ///
    /// `debug` is the attribute's `Debug` text, which the error for too many
    /// types quotes.
    Str { name: String, value: String, debug: String },
    /// An attribute `name(a, b, ..)`, with the names in the brackets.
    List { name: String, items: Vec<String> },
    /// Any other attribute.
    Other,
}

/// The map kind, key type and value type that an attribute names, or the
/// error of the key type, else of the value type.
pub open spec fn spec_attr_types(map_ty: MapTy, k: Seq<char>, v: Seq<char>) -> Result<
    (MapTy, ScalarTy<Seq<char>>, ValueTy<Seq<char>>),
    MapAttrError<Seq<char>>,
> {
    match spec_key_ty(k) {
        Err(e) => Err(e),
        Ok(kt) => match spec_value_ty(v) {
            Err(e) => Err(e),
            Ok(vt) => Ok((map_ty, kt, vt)),
        },
    }
}

/// Reading the attributes from the `i`-th on, with the types and tag read so
/// far: the types and tag at the end; `None` at the first attribute that is
/// not a tag or map attribute; or the first error.
pub open spec fn spec_scan_attrs(
    attrs: Seq<MapAttr>,
    i: int,
    types: Option<(MapTy, ScalarTy<Seq<char>>, ValueTy<Seq<char>>)>,
    tag: Option<u32>,
) -> Result<Option<(Option<(MapTy, ScalarTy<Seq<char>>, ValueTy<Seq<char>>)>, Option<u32>)>, MapAttrError<Seq<char>>>
    decreases attrs.len() - i,
{
    if i < 0 || i >= attrs.len() {
        Ok(Some((types, tag)))
    } else {
        match attrs[i] {
            MapAttr::Tag(t) => match tag {
                Some(a) => Err(MapAttrError::DuplicateTag(a, t)),
                None => spec_scan_attrs(attrs, i + 1, types, Some(t)),
            },
            MapAttr::Str { name, value, debug } => match spec_map_ty(name@) {
                None => Ok(None),
                Some(mt) => if count_commas(value@) == 0 {
                    Err(MapAttrError::MissingValueType)
                } else if count_commas(value@) > 1 {
                    Err(MapAttrError::InvalidAttribute(debug@))
                } else {
                    match spec_attr_types(
                        mt,
                        value@.take(first_comma(value@)),
                        value@.skip(first_comma(value@) + 1),
                    ) {
                        Err(e) => Err(e),
                        Ok(ts) => if types is Some {
                            Err(MapAttrError::DuplicateMapType)
                        } else {
                            spec_scan_attrs(attrs, i + 1, Some(ts), tag)
                        },
                    }
                },
            },
            MapAttr::List { name, items } => match spec_map_ty(name@) {
                None => Ok(None),
                Some(mt) => if items@.len() != 2 {
                    Err(MapAttrError::NotKeyAndValue)
                } else {
                    match spec_attr_types(mt, items@[0]@, items@[1]@) {
                        Err(e) => Err(e),
                        Ok(ts) => if types is Some {
                            Err(MapAttrError::DuplicateMapType)
                        } else {
                            spec_scan_attrs(attrs, i + 1, Some(ts), tag)
                        },
                    }
                },
            },
            MapAttr::Other => Ok(None),
        }
    }
}

/// The map field that the attributes describe: `None` when one of them is
/// neither a tag nor a map attribute, or when the map type or the tag is
/// missing (the tag falls back to `inferred_tag`); an error for a malformed
/// attribute.
pub open spec fn spec_map_field_from_attrs(attrs: Seq<MapAttr>, inferred_tag: Option<u32>) -> Result<
    Option<MapField<Seq<char>>>,
    MapAttrError<Seq<char>>,
> {
    match spec_scan_attrs(attrs, 0, None, None) {
        Err(e) => Err(e),
        Ok(None) => Ok(None),
        Ok(Some((types, tag))) => {
            let t = if tag is Some {
                tag
            } else {
                inferred_tag
            };
            match (types, t) {
                (Some((mt, kt, vt)), Some(t)) => Ok(
                    Some(MapField { map_ty: mt, key_ty: kt, value_ty: vt, tag: t }),
                ),
                _ => Ok(None),
            }
        },
    }
}

/// The view of the types read so far.
pub open spec fn types_view(t: Option<(MapTy, ScalarTy<String>, ValueTy<String>)>) -> Option<(MapTy, ScalarTy<Seq<char>>, ValueTy<Seq<char>>)> {
    match t {
        Some((m, k, v)) => Some((m, k@, v@)),
        None => None,
    }
}

/// The view of what `map_field_from_attrs` returns.
pub open spec fn map_field_result_view(r: Result<Option<MapField<String>>, MapAttrError<String>>) -> Result<
    Option<MapField<Seq<char>>>,
    MapAttrError<Seq<char>>,
> {
    match r {
        Ok(Some(f)) => Ok(Some(f@)),
        Ok(None) => Ok(None),
        Err(e) => Err(e@),
    }
}

/// The types named by one map attribute.
fn attr_types(map_ty: MapTy, k: &str, v: &str) -> (r: Result<(MapTy, ScalarTy<String>, ValueTy<String>), MapAttrError<String>>)
    ensures
        match r {
            Ok(ts) => spec_attr_types(map_ty, k@, v@) == Ok::<(MapTy, ScalarTy<Seq<char>>, ValueTy<Seq<char>>), MapAttrError<Seq<char>>>(
                (ts.0, ts.1@, ts.2@),
            ),
            Err(e) => spec_attr_types(map_ty, k@, v@) == Err::<(MapTy, ScalarTy<Seq<char>>, ValueTy<Seq<char>>), MapAttrError<Seq<char>>>(e@),
        },
{
    let kt = match key_ty_from_str(k) {
        Ok(t) => t,
        Err(e) => return Err(e),
    };
    let vt = match value_ty_from_str(v) {
        Ok(t) => t,
        Err(e) => return Err(e),
    };
    Ok((map_ty, kt, vt))
}

/// Reads the map field that a struct field's attributes describe, as the
/// derive does: `None` when an attribute is neither a tag nor a map
/// attribute, or when the map type or the tag is missing; the tag defaults
/// to `inferred_tag`.
pub fn map_field_from_attrs(attrs: &[MapAttr], inferred_tag: Option<u32>) -> (r: Result<
    Option<MapField<String>>,
    MapAttrError<String>,
>)
    ensures
        map_field_result_view(r) == spec_map_field_from_attrs(attrs@, inferred_tag),
{
    let mut types: Option<(MapTy, ScalarTy<String>, ValueTy<String>)> = None;
    let mut tag: Option<u32> = None;
    let mut i: usize = 0;
    while i < attrs.len()
        invariant
            i <= attrs@.len(),
            spec_scan_attrs(attrs@, 0, None, None) == spec_scan_attrs(
                attrs@,
                i as int,
                types_view(types),
                tag,
            ),
        decreases attrs@.len() - i,
    {
        match &attrs[i] {
            MapAttr::Tag(t) => {
                match tag {
                    Some(a) => return Err(MapAttrError::DuplicateTag(a, *t)),
                    None => {
                        tag = Some(*t);
                    },
                }
            },
            MapAttr::Str { name, value, debug } => {
                let mt = match MapTy::from_str(name.as_str()) {
                    Some(m) => m,
                    None => return Ok(None),
                };
                let (k, v) = match split_key_value(value.as_str()) {
                    Ok(kv) => kv,
                    Err(MapAttrError::TooManyTypes) => {
                        return Err(MapAttrError::InvalidAttribute(debug.clone()));
                    },
                    Err(e) => return Err(e),
                };
                let ts = match attr_types(mt, k.as_str(), v.as_str()) {
                    Ok(ts) => ts,
                    Err(e) => return Err(e),
                };
                if types.is_some() {
                    return Err(MapAttrError::DuplicateMapType);
                }
                types = Some(ts);
            },
            MapAttr::List { name, items } => {
                let mt = match MapTy::from_str(name.as_str()) {
                    Some(m) => m,
                    None => return Ok(None),
                };
                if items.len() != 2 {
                    return Err(MapAttrError::NotKeyAndValue);
                }
                let ts = match attr_types(mt, items[0].as_str(), items[1].as_str()) {
                    Ok(ts) => ts,
                    Err(e) => return Err(e),
                };
                if types.is_some() {
                    return Err(MapAttrError::DuplicateMapType);
                }
                types = Some(ts);
            },
            MapAttr::Other => return Ok(None),
        }
        i = i + 1;
    }
    let t = match tag {
        Some(t) => Some(t),
        None => inferred_tag,
    };
    match (types, t) {
        (Some((mt, kt, vt)), Some(t)) => Ok(
            Some(MapField { map_ty: mt, key_ty: kt, value_ty: vt, tag: t }),
        ),
        _ => Ok(None),
    }
}

/// The default value of a key or value type, which an entry leaves out.
#[derive(Debug, Clone, Copy, PartialEq, Eq, Structural)]
pub enum DefaultValue {
    /// An empty string.
    EmptyStr,
    /// An empty byte slice.
    EmptyBytes,
    /// `false`.
    False,
    /// Zero as `i32`.
    ZeroI32,
    /// Zero as `i64`.
    ZeroI64,
    /// Zero as `u32`.
    ZeroU32,
    /// Zero as `u64`.
    ZeroU64,
    /// Zero as `f32`.
    ZeroF32,
    /// Zero as `f64`.
    ZeroF64,
}

impl DefaultValue {
    /// The Rust expression of the value.
    pub open spec fn spec_text(self) -> Seq<char> {
        match self {
            DefaultValue::EmptyStr => "\"\""@,
            DefaultValue::EmptyBytes => "&b\"\"[..]"@,
            DefaultValue::False => "false"@,
            DefaultValue::ZeroI32 => "0i32"@,
            DefaultValue::ZeroI64 => "0i64"@,
            DefaultValue::ZeroU32 => "0u32"@,
            DefaultValue::ZeroU64 => "0u64"@,
            DefaultValue::ZeroF32 => "0f32"@,
            DefaultValue::ZeroF64 => "0f64"@,
        }
    }

    /// The Rust expression of the value, as generated code writes it.
    pub fn text(&self) -> (r: &'static str)
        ensures
            r@ == self.spec_text(),
    {
        match self {
            DefaultValue::EmptyStr => "\"\"",
            DefaultValue::EmptyBytes => "&b\"\"[..]",
            DefaultValue::False => "false",
            DefaultValue::ZeroI32 => "0i32",
            DefaultValue::ZeroI64 => "0i64",
            DefaultValue::ZeroU32 => "0u32",
            DefaultValue::ZeroU64 => "0u64",
            DefaultValue::ZeroF32 => "0f32",
            DefaultValue::ZeroF64 => "0f64",
        }
    }
}

/// The default of a scalar type; `None` for an enumeration, whose default
/// is its own type's.
pub open spec fn spec_default_of<S>(t: ScalarTy<S>) -> Option<DefaultValue> {
    match t {
        ScalarTy::String => Some(DefaultValue::EmptyStr),
        ScalarTy::Bytes => Some(DefaultValue::EmptyBytes),
        ScalarTy::Bool => Some(DefaultValue::False),
        ScalarTy::Int32 | ScalarTy::Sint32 | ScalarTy::Sfixed32 => Some(DefaultValue::ZeroI32),
        ScalarTy::Int64 | ScalarTy::Sint64 | ScalarTy::Sfixed64 => Some(DefaultValue::ZeroI64),
        ScalarTy::Uint32 | ScalarTy::Fixed32 => Some(DefaultValue::ZeroU32),
        ScalarTy::Uint64 | ScalarTy::Fixed64 => Some(DefaultValue::ZeroU64),
        ScalarTy::Float => Some(DefaultValue::ZeroF32),
        ScalarTy::Double => Some(DefaultValue::ZeroF64),
        ScalarTy::Enumeration(_) => None,
    }
}

/// How the values of a map are encoded and merged.
#[derive(Debug, Clone, Copy, PartialEq, Eq, Structural)]
pub enum ValuePlan {
    /// A scalar: its codec module and default; `by_ref` when the codec
    /// functions are handed a reference to the stored `&str` or `&[u8]`;
    /// `in_arena` when merging allocates the value in the arena.
    Scalar { codec: ScalarCodec, default: DefaultValue, by_ref: bool, in_arena: bool },
    /// An enumeration: the `int32` codec, with the enumeration's default as
    /// `i32`.
    Enumeration,
    /// A message: `encode_message` and `encoded_len_message`, which always
    /// write the value; such maps are merged by the message's own code.
    Message,
}

/// How the code generated for a map field encodes, measures and merges it:
/// the key's codec module and default, whether the key functions are handed
/// a reference to the stored `&str`, whether merging a key allocates it in
/// the arena, and the plan for the values.
#[derive(Debug, Clone, Copy, PartialEq, Eq, Structural)]
pub struct MapCodecPlan {
    pub key_codec: ScalarCodec,
    pub key_default: DefaultValue,
    pub key_by_ref: bool,
    pub key_in_arena: bool,
    pub value: ValuePlan,
}

/// Whether a scalar type is numeric: all but `string` and `bytes`.
pub open spec fn spec_is_numeric<S>(t: ScalarTy<S>) -> bool {
    !(t is String || t is Bytes)
}

/// The codec plan of a map field.
pub open spec fn spec_map_codec_plan<S>(f: MapField<S>) -> MapCodecPlan {
    MapCodecPlan {
        key_codec: spec_codec_of(f.key_ty),
        key_default: spec_default_of(f.key_ty).unwrap(),
        key_by_ref: f.key_ty is String,
        key_in_arena: !(spec_is_numeric(f.key_ty) || f.key_ty is Bool),
        value: match f.value_ty {
            ValueTy::Scalar(ScalarTy::Enumeration(_)) => ValuePlan::Enumeration,
            ValueTy::Scalar(t) => ValuePlan::Scalar {
                codec: spec_codec_of(t),
                default: spec_default_of(t).unwrap(),
                by_ref: t is String || t is Bytes,
                in_arena: !(spec_is_numeric(t) || t is Bool),
            },
            ValueTy::Message => ValuePlan::Message,
        },
    }
}

/// The codec module of a scalar type.
fn codec_of(t: &ScalarTy<String>) -> (r: ScalarCodec)
    ensures
        r == spec_codec_of(*t),
{
    match t {
        ScalarTy::Double => ScalarCodec::Double,
        ScalarTy::Float => ScalarCodec::Float,
        ScalarTy::Int32 => ScalarCodec::Int32,
        ScalarTy::Int64 => ScalarCodec::Int64,
        ScalarTy::Uint32 => ScalarCodec::Uint32,
        ScalarTy::Uint64 => ScalarCodec::Uint64,
        ScalarTy::Sint32 => ScalarCodec::Sint32,
        ScalarTy::Sint64 => ScalarCodec::Sint64,
        ScalarTy::Fixed32 => ScalarCodec::Fixed32,
        ScalarTy::Fixed64 => ScalarCodec::Fixed64,
        ScalarTy::Sfixed32 => ScalarCodec::Sfixed32,
        ScalarTy::Sfixed64 => ScalarCodec::Sfixed64,
        ScalarTy::Bool => ScalarCodec::Bool,
        ScalarTy::String => ScalarCodec::String,
        ScalarTy::Bytes => ScalarCodec::Bytes,
        ScalarTy::Enumeration(_) => ScalarCodec::Int32,
    }
}

/// The default of a scalar type other than an enumeration.
fn default_of(t: &ScalarTy<String>) -> (r: DefaultValue)
    requires
        !(*t is Enumeration),
    ensures
        spec_default_of(*t) == Some(r),
{
    match t {
        ScalarTy::String => DefaultValue::EmptyStr,
        ScalarTy::Bytes => DefaultValue::EmptyBytes,
        ScalarTy::Bool => DefaultValue::False,
        ScalarTy::Int32 | ScalarTy::Sint32 | ScalarTy::Sfixed32 => DefaultValue::ZeroI32,
        ScalarTy::Int64 | ScalarTy::Sint64 | ScalarTy::Sfixed64 => DefaultValue::ZeroI64,
        ScalarTy::Uint32 | ScalarTy::Fixed32 => DefaultValue::ZeroU32,
        ScalarTy::Uint64 | ScalarTy::Fixed64 => DefaultValue::ZeroU64,
        ScalarTy::Float => DefaultValue::ZeroF32,
        ScalarTy::Double => DefaultValue::ZeroF64,
        ScalarTy::Enumeration(_) => DefaultValue::ZeroI32,
    }
}

/// How the generated code encodes, measures and merges the map field `f`,
/// whose key type must be one that a map can have.
pub fn map_codec_plan(f: &MapField<String>) -> (r: MapCodecPlan)
    requires
        spec_is_key_ty(f.key_ty),
    ensures
        r == spec_map_codec_plan(*f),
{
    let key_string = match &f.key_ty {
        ScalarTy::String => true,
        _ => false,
    };
    let value = match &f.value_ty {
        ValueTy::Scalar(ScalarTy::Enumeration(_)) => ValuePlan::Enumeration,
        ValueTy::Scalar(t) => {
            let (by_ref, in_arena) = match t {
                ScalarTy::String | ScalarTy::Bytes => (true, true),
                _ => (false, false),
            };
            ValuePlan::Scalar { codec: codec_of(t), default: default_of(t), by_ref, in_arena }
        },
        ValueTy::Message => ValuePlan::Message,
    };
    MapCodecPlan {
        key_codec: codec_of(&f.key_ty),
        key_default: default_of(&f.key_ty),
        key_by_ref: key_string,
        key_in_arena: key_string,
        value,
    }
}

/// The message that the derive reports for a map attribute error.
pub open spec fn spec_map_attr_error_text(e: MapAttrError<Seq<char>>) -> Seq<char> {
    match e {
        MapAttrError::MissingValueType => "invalid map attribute: must have key and value types"@,
        MapAttrError::TooManyTypes => "invalid map attribute: more than a key and a value type"@,
        MapAttrError::InvalidAttribute(s) => "invalid map attribute: "@ + s,
        MapAttrError::NotKeyAndValue => "invalid map attribute: must contain key and value types"@,
        MapAttrError::DuplicateTag(a, b) => "duplicate tag attributes: "@ + spec_decimal(a as int)
            + " and "@ + spec_decimal(b as int),
        MapAttrError::DuplicateMapType => "duplicate map type attribute"@,
        MapAttrError::InvalidType(s) => "invalid type: "@ + s,
        MapAttrError::InvalidKeyType(s) => "invalid map key type: "@ + s,
        MapAttrError::InvalidValueType(s) => "invalid map value type: "@ + s,
    }
}

/// The message that the derive reports for a map attribute error.
pub fn map_attr_error_text(e: &MapAttrError<String>) -> (r: String)
    ensures
        r@ == spec_map_attr_error_text(e@),
{
    match e {
        MapAttrError::MissingValueType => string_from_chars(&chars_of("invalid map attribute: must have key and value types")),
        MapAttrError::TooManyTypes => string_from_chars(&chars_of("invalid map attribute: more than a key and a value type")),
        MapAttrError::InvalidAttribute(s) => concat_str("invalid map attribute: ", s.as_str()),
        MapAttrError::NotKeyAndValue => string_from_chars(&chars_of("invalid map attribute: must contain key and value types")),
        MapAttrError::DuplicateTag(a, b) => {
            let x = fmt_decimal(*a as i64);
            let y = fmt_decimal(*b as i64);
            let p = concat_str("duplicate tag attributes: ", x.as_str());
            let q = concat_str(p.as_str(), " and ");
            concat_str(q.as_str(), y.as_str())
        },
        MapAttrError::DuplicateMapType => string_from_chars(&chars_of("duplicate map type attribute")),
        MapAttrError::InvalidType(s) => concat_str("invalid type: ", s.as_str()),
        MapAttrError::InvalidKeyType(s) => concat_str("invalid map key type: ", s.as_str()),
        MapAttrError::InvalidValueType(s) => concat_str("invalid map value type: ", s.as_str()),
    }
}

/// The tag that the tag attributes of a field give, from the `i`-th
/// attribute on with `tag` read so far: a second tag attribute is an error
/// that names both tags.
pub open spec fn spec_field_tag(attrs: Seq<MapAttr>, i: int, tag: Option<u32>) -> Result<
    Option<u32>,
    MapAttrError<Seq<char>>,
>
    decreases attrs.len() - i,
{
    if i < 0 || i >= attrs.len() {
        Ok(tag)
    } else {
        match attrs[i] {
            MapAttr::Tag(t) => match tag {
                Some(a) => Err(MapAttrError::DuplicateTag(a, t)),
                None => spec_field_tag(attrs, i + 1, Some(t)),
            },
            _ => spec_field_tag(attrs, i + 1, tag),
        }
    }
}

/// The tag that a field's tag attributes give, or the error for a second
/// tag attribute, as every kind of field reads its tag.
pub fn field_tag(attrs: &[MapAttr]) -> (r: Result<Option<u32>, MapAttrError<String>>)
    ensures
        match r {
            Ok(t) => spec_field_tag(attrs@, 0, None) == Ok::<Option<u32>, MapAttrError<Seq<char>>>(t),
            Err(e) => spec_field_tag(attrs@, 0, None) == Err::<Option<u32>, MapAttrError<Seq<char>>>(
                e@,
            ),
        },
{
    let mut tag: Option<u32> = None;
    let mut i: usize = 0;
    while i < attrs.len()
        invariant
            i <= attrs@.len(),
            spec_field_tag(attrs@, 0, None) == spec_field_tag(attrs@, i as int, tag),
        decreases attrs@.len() - i,
    {
        match &attrs[i] {
            MapAttr::Tag(t) => {
                match tag {
                    Some(a) => return Err(MapAttrError::DuplicateTag(a, *t)),
                    None => {
                        tag = Some(*t);
                    },
                }
            },
            _ => {},
        }
        i = i + 1;
    }
    Ok(tag)
}

/// The accessors that a map field of enumeration values is given: the
/// names of its `get_` and `insert_` methods, and whether `get` takes its
/// key by reference, as it does for numeric keys.
#[derive(Debug, Clone, PartialEq, Eq)]
pub struct EnumMapAccessors {
    pub get: String,
    pub insert: String,
    pub key_by_ref: bool,
}

/// The accessors of the map field `f` named `ident`: some exactly when its
/// values are an enumeration.
pub fn enum_map_accessors(f: &MapField<String>, ident: &str) -> (r: Option<EnumMapAccessors>)
    ensures
        r is Some <==> f.value_ty matches ValueTy::Scalar(ScalarTy::Enumeration(_)),
        r matches Some(a) ==> a.get@ == "get_"@ + ident@ && a.insert@ == "insert_"@ + ident@
            && a.key_by_ref == spec_is_numeric(f.key_ty),
{
    match &f.value_ty {
        ValueTy::Scalar(ScalarTy::Enumeration(_)) => {
            let key_by_ref = match &f.key_ty {
                ScalarTy::String | ScalarTy::Bytes => false,
                _ => true,
            };
            Some(
                EnumMapAccessors {
                    get: concat_str("get_", ident),
                    insert: concat_str("insert_", ident),
                    key_by_ref,
                },
            )
        },
        _ => None,
    }
}

/// The error that a field reports for the attributes it does not know:
/// their token texts, separated by commas, inside `#[prost(..)]`.
pub open spec fn spec_unknown_attributes_text(attrs: Seq<Seq<char>>) -> Seq<char> {
    "unknown attribute(s): #[prost("@ + spec_join(attrs) + ")]"@
}

/// The error that a field reports for the attributes it does not know,
/// given their token texts.
pub fn unknown_attributes_text(attrs: &[String]) -> (r: String)
    ensures
        r@ == spec_unknown_attributes_text(texts(attrs@)),
{
    let mut out: Vec<char> = Vec::new();
    push_str(&mut out, "unknown attribute(s): #[prost(");
    push_joined(&mut out, attrs);
    push_str(&mut out, ")]");
    string_from_chars(&out)
}

/// The codec module chosen for a scalar type is that type's own: its name
/// reads back as the same type. An enumeration is encoded by `int32`.
pub proof fn law_codec_is_own_type(t: ScalarTy<Seq<char>>)
    ensures
        !(t is Enumeration) ==> spec_scalar_ty(spec_codec_of(t).spec_module()) == Some(t),
        t is Enumeration ==> spec_codec_of(t) == ScalarCodec::Int32,
{
    reveal_strlit("double");
    reveal_strlit("float");
    reveal_strlit("int32");
    reveal_strlit("int64");
    reveal_strlit("uint32");
    reveal_strlit("uint64");
    reveal_strlit("sint32");
    reveal_strlit("sint64");
    reveal_strlit("fixed32");
    reveal_strlit("fixed64");
    reveal_strlit("sfixed32");
    reveal_strlit("sfixed64");
    reveal_strlit("bool");
    reveal_strlit("string");
    reveal_strlit("bytes");
    let m = spec_codec_of(t).spec_module();
    if !(t is Enumeration) {
        assert(spec_trim(m) == m);
    }
}

} // verus!
