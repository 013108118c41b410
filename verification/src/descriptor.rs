//! The parts of protobuf descriptors that code generation reads, with
//! accessors that give each optional field's protobuf default where the
//! field is unset.
use vstd::prelude::*;

use crate::enumeration::UnknownEnumValue;

verus! {

/// The cardinality of a field.
#[derive(Debug, Clone, Copy, PartialEq, Eq, Structural)]
pub enum Label {
    Optional,
    Required,
    Repeated,
}

/// The label numbered `value`, if any.
pub open spec fn spec_label(value: i32) -> Option<Label> {
    if value == 1 {
        Some(Label::Optional)
    } else if value == 2 {
        Some(Label::Required)
    } else if value == 3 {
        Some(Label::Repeated)
    } else {
        None
    }
}

impl Label {
    /// The label numbered `value`, or the number as an error.
    pub fn try_from_i32(value: i32) -> (r: Result<Label, UnknownEnumValue>)
        ensures
            match spec_label(value) {
                Some(l) => r == Ok::<Label, UnknownEnumValue>(l),
                None => r == Err::<Label, UnknownEnumValue>(UnknownEnumValue(value)),
            },
    {
        match value {
            1 => Ok(Label::Optional),
            2 => Ok(Label::Required),
            3 => Ok(Label::Repeated),
            _ => Err(UnknownEnumValue(value)),
        }
    }
}

/// The type of a field's values.
#[derive(Debug, Clone, Copy, PartialEq, Eq, Structural)]
pub enum Type {
    Double,
    Float,
    Int64,
    Uint64,
    Int32,
    Fixed64,
    Fixed32,
    Bool,
    String,
    Group,
    Message,
    Bytes,
    Uint32,
    Enum,
    Sfixed32,
    Sfixed64,
    Sint32,
    Sint64,
}

/// The type numbered `value`, if any.
pub open spec fn spec_type(value: i32) -> Option<Type> {
    if value == 1 {
        Some(Type::Double)
    } else if value == 2 {
        Some(Type::Float)
    } else if value == 3 {
        Some(Type::Int64)
    } else if value == 4 {
        Some(Type::Uint64)
    } else if value == 5 {
        Some(Type::Int32)
    } else if value == 6 {
        Some(Type::Fixed64)
    } else if value == 7 {
        Some(Type::Fixed32)
    } else if value == 8 {
        Some(Type::Bool)
    } else if value == 9 {
        Some(Type::String)
    } else if value == 10 {
        Some(Type::Group)
    } else if value == 11 {
        Some(Type::Message)
    } else if value == 12 {
        Some(Type::Bytes)
    } else if value == 13 {
        Some(Type::Uint32)
    } else if value == 14 {
        Some(Type::Enum)
    } else if value == 15 {
        Some(Type::Sfixed32)
    } else if value == 16 {
        Some(Type::Sfixed64)
    } else if value == 17 {
        Some(Type::Sint32)
    } else if value == 18 {
        Some(Type::Sint64)
    } else {
        None
    }
}

impl Type {
    /// The type numbered `value`, or the number as an error.
    pub fn try_from_i32(value: i32) -> (r: Result<Type, UnknownEnumValue>)
        ensures
            match spec_type(value) {
                Some(t) => r == Ok::<Type, UnknownEnumValue>(t),
                None => r == Err::<Type, UnknownEnumValue>(UnknownEnumValue(value)),
            },
    {
        match value {
            1 => Ok(Type::Double),
            2 => Ok(Type::Float),
            3 => Ok(Type::Int64),
            4 => Ok(Type::Uint64),
            5 => Ok(Type::Int32),
            6 => Ok(Type::Fixed64),
            7 => Ok(Type::Fixed32),
            8 => Ok(Type::Bool),
            9 => Ok(Type::String),
            10 => Ok(Type::Group),
            11 => Ok(Type::Message),
            12 => Ok(Type::Bytes),
            13 => Ok(Type::Uint32),
            14 => Ok(Type::Enum),
            15 => Ok(Type::Sfixed32),
            16 => Ok(Type::Sfixed64),
            17 => Ok(Type::Sint32),
            18 => Ok(Type::Sint64),
            _ => Err(UnknownEnumValue(value)),
        }
    }
}

/// The text of an optional string field, empty where it is unset.
pub open spec fn str_or_empty(s: Option<&str>) -> Seq<char> {
    match s {
        Some(v) => v@,
        None => Seq::empty(),
    }
}

/// The value of an optional field, `default` where it is unset.
pub open spec fn or_default<T>(v: Option<T>, default: T) -> T {
    match v {
        Some(x) => x,
        None => default,
    }
}

/// The text of an optional string field.
fn name_or_empty<'a>(s: Option<&'a str>) -> (r: &'a str)
    ensures
        r@ == str_or_empty(s),
{
    match s {
        Some(v) => v,
        None => {
            let empty = "";
            proof {
                reveal_strlit("");
            }
            empty
        },
    }
}

/// A field of a message.
#[derive(Debug, Clone, Copy, PartialEq, Eq)]
pub struct FieldDescriptorProto<'arena> {
    pub name: Option<&'arena str>,
    pub number: Option<i32>,
    pub label: Option<i32>,
    pub ty: Option<i32>,
    pub type_ref: Option<&'arena str>,
}

/// A value of an enumeration.
#[derive(Debug, Clone, Copy, PartialEq, Eq)]
pub struct EnumValueDescriptorProto<'arena> {
    pub name: Option<&'arena str>,
    pub number: Option<i32>,
}

/// A message type.
#[derive(Debug, Clone, Copy, PartialEq, Eq)]
pub struct DescriptorProto<'arena> {
    pub name: Option<&'arena str>,
}

/// A oneof of a message.
#[derive(Debug, Clone, Copy, PartialEq, Eq)]
pub struct OneofDescriptorProto<'arena> {
    pub name: Option<&'arena str>,
}

/// An enumeration type.
#[derive(Debug, Clone, Copy, PartialEq, Eq)]
pub struct EnumDescriptorProto<'arena> {
    pub name: Option<&'arena str>,
}

/// A `.proto` file.
#[derive(Debug, Clone, Copy, PartialEq, Eq)]
pub struct FileDescriptorProto<'arena> {
    pub package: Option<&'arena str>,
}

/// The options of a field.
#[derive(Debug, Clone, Copy, PartialEq, Eq, Structural)]
pub struct FieldOptions {
    pub packed: Option<bool>,
    pub deprecated: Option<bool>,
}

/// The options of an enumeration value.
#[derive(Debug, Clone, Copy, PartialEq, Eq, Structural)]
pub struct EnumValueOptions {
    pub deprecated: Option<bool>,
}

/// A service.
#[derive(Debug, Clone, Copy, PartialEq, Eq)]
pub struct ServiceDescriptorProto<'arena> {
    pub name: Option<&'arena str>,
}

/// A method of a service.
#[derive(Debug, Clone, Copy, PartialEq, Eq)]
pub struct MethodDescriptorProto<'arena> {
    pub name: Option<&'arena str>,
    pub client_streaming: Option<bool>,
    pub server_streaming: Option<bool>,
}

/// The fields of a field descriptor, with their defaults.
pub trait FieldDescriptorProtoExt {
    fn name(&self) -> &str;

    fn number(&self) -> i32;

    fn label(&self) -> Label;

    fn field_type(&self) -> Type;

    fn field_type_name(&self) -> &str;
}

impl<'arena> FieldDescriptorProtoExt for FieldDescriptorProto<'arena> {
    /// The field's name, empty where unset.
    fn name(&self) -> (r: &str)
        ensures
            r@ == str_or_empty(self.name),
    {
        name_or_empty(self.name)
    }

    /// The field's number, zero where unset.
    fn number(&self) -> (r: i32)
        ensures
            r == or_default(self.number, 0),
    {
        match self.number {
            Some(n) => n,
            None => 0,
        }
    }

    /// The field's label; optional where unset or not a known label.
    fn label(&self) -> (r: Label)
        ensures
            r == match self.label {
                Some(v) => or_default(spec_label(v), Label::Optional),
                None => Label::Optional,
            },
    {
        match self.label {
            Some(v) => match Label::try_from_i32(v) {
                Ok(l) => l,
                Err(_) => Label::Optional,
            },
            None => Label::Optional,
        }
    }

    /// The field's type; double where unset or not a known type.
    fn field_type(&self) -> (r: Type)
        ensures
            r == match self.ty {
                Some(v) => or_default(spec_type(v), Type::Double),
                None => Type::Double,
            },
    {
        match self.ty {
            Some(v) => match Type::try_from_i32(v) {
                Ok(t) => t,
                Err(_) => Type::Double,
            },
            None => Type::Double,
        }
    }

    /// The name of the field's message or enumeration type, empty where
    /// unset.
    fn field_type_name(&self) -> (r: &str)
        ensures
            r@ == str_or_empty(self.type_ref),
    {
        name_or_empty(self.type_ref)
    }
}

/// The fields of an enumeration value descriptor, with their defaults.
pub trait EnumValueDescriptorProtoExt {
    fn name(&self) -> &str;

    fn number(&self) -> i32;
}

impl<'arena> EnumValueDescriptorProtoExt for EnumValueDescriptorProto<'arena> {
    /// The value's name, empty where unset.
    fn name(&self) -> (r: &str)
        ensures
            r@ == str_or_empty(self.name),
    {
        name_or_empty(self.name)
    }

    /// The value's number, zero where unset.
    fn number(&self) -> (r: i32)
        ensures
            r == or_default(self.number, 0),
    {
        match self.number {
            Some(n) => n,
            None => 0,
        }
    }
}

/// The name of a message descriptor, with its default.
pub trait DescriptorProtoExt {
    fn name(&self) -> &str;
}

impl<'arena> DescriptorProtoExt for DescriptorProto<'arena> {
    /// The message's name, empty where unset.
    fn name(&self) -> (r: &str)
        ensures
            r@ == str_or_empty(self.name),
    {
        name_or_empty(self.name)
    }
}

/// The name of a oneof descriptor, with its default.
pub trait OneofDescriptorProtoExt {
    fn name(&self) -> &str;
}

impl<'arena> OneofDescriptorProtoExt for OneofDescriptorProto<'arena> {
    /// The oneof's name, empty where unset.
    fn name(&self) -> (r: &str)
        ensures
            r@ == str_or_empty(self.name),
    {
        name_or_empty(self.name)
    }
}

/// The name of an enumeration descriptor, with its default.
pub trait EnumDescriptorProtoExt {
    fn name(&self) -> &str;
}

impl<'arena> EnumDescriptorProtoExt for EnumDescriptorProto<'arena> {
    /// The enumeration's name, empty where unset.
    fn name(&self) -> (r: &str)
        ensures
            r@ == str_or_empty(self.name),
    {
        name_or_empty(self.name)
    }
}

/// The package of a file descriptor, with its default.
pub trait FileDescriptorProtoExt {
    fn package(&self) -> &str;
}

impl<'arena> FileDescriptorProtoExt for FileDescriptorProto<'arena> {
    /// The file's package, empty where unset.
    fn package(&self) -> (r: &str)
        ensures
            r@ == str_or_empty(self.package),
    {
        name_or_empty(self.package)
    }
}

/// The flags of field options, with their defaults.
pub trait FieldOptionsExt {
    fn packed(&self) -> bool;

    fn deprecated(self) -> bool;
}

impl<'o> FieldOptionsExt for &'o FieldOptions {
    /// Whether the field is packed; false where unset.
    fn packed(&self) -> (r: bool)
        ensures
            r == or_default(self.packed, false),
    {
        match self.packed {
            Some(b) => b,
            None => false,
        }
    }

    /// Whether the field is deprecated; false where unset.
    fn deprecated(self) -> (r: bool)
        ensures
            r == or_default(self.deprecated, false),
    {
        match self.deprecated {
            Some(b) => b,
            None => false,
        }
    }
}

/// The flag of enumeration value options, with its default.
pub trait EnumValueOptionsExt {
    fn deprecated(self) -> bool;
}

impl<'o> EnumValueOptionsExt for &'o EnumValueOptions {
    /// Whether the value is deprecated; false where unset.
    fn deprecated(self) -> (r: bool)
        ensures
            r == or_default(self.deprecated, false),
    {
        match self.deprecated {
            Some(b) => b,
            None => false,
        }
    }
}

/// The name of a service descriptor, with its default.
pub trait ServiceDescriptorProtoExt {
    fn name(&self) -> &str;
}

impl<'arena> ServiceDescriptorProtoExt for ServiceDescriptorProto<'arena> {
    /// The service's name, empty where unset.
    fn name(&self) -> (r: &str)
        ensures
            r@ == str_or_empty(self.name),
    {
        name_or_empty(self.name)
    }
}

/// The fields of a method descriptor, with their defaults.
pub trait MethodDescriptorProtoExt {
    fn name(&self) -> &str;

    fn client_streaming(&self) -> bool;

    fn server_streaming(&self) -> bool;
}

impl<'arena> MethodDescriptorProtoExt for MethodDescriptorProto<'arena> {
    /// The method's name, empty where unset.
    fn name(&self) -> (r: &str)
        ensures
            r@ == str_or_empty(self.name),
    {
        name_or_empty(self.name)
    }

    /// Whether the client streams; false where unset.
    fn client_streaming(&self) -> (r: bool)
        ensures
            r == or_default(self.client_streaming, false),
    {
        match self.client_streaming {
            Some(b) => b,
            None => false,
        }
    }

    /// Whether the server streams; false where unset.
    fn server_streaming(&self) -> (r: bool)
        ensures
            r == or_default(self.server_streaming, false),
    {
        match self.server_streaming {
            Some(b) => b,
            None => false,
        }
    }
}

} // verus!
