//! Protobuf enumerations: named `i32` values, the first of which is the
//! default. A field of enumeration type holds a plain `i32`, which need not
//! name a variant.
use vstd::prelude::*;

use crate::debug::{fmt_decimal, spec_decimal};

verus! {

/// An `i32` that names no variant of an enumeration.
#[derive(Debug, Clone, Copy, PartialEq, Eq, Structural)]
pub struct UnknownEnumValue(pub i32);

/// The variant name that an enumeration gives `value`: the name of the
/// first variant, in declaration order, whose value is `value`.
pub open spec fn spec_lookup(variants: Seq<(&'static str, i32)>, value: i32) -> Option<Seq<char>>
    decreases variants.len(),
{
    if variants.len() == 0 {
        None
    } else if variants[0].1 == value {
        Some(variants[0].0@)
    } else {
        spec_lookup(variants.drop_first(), value)
    }
}

/// A lookup finds a name exactly when some variant has the value.
pub proof fn lemma_lookup_some(variants: Seq<(&'static str, i32)>, value: i32)
    ensures
        spec_lookup(variants, value) is Some <==> exists|i: int|
            0 <= i < variants.len() && (#[trigger] variants[i]).1 == value,
    decreases variants.len(),
{
    if variants.len() > 0 {
        lemma_lookup_some(variants.drop_first(), value);
        if spec_lookup(variants, value) is Some && variants[0].1 != value {
            let j = choose|j: int|
                0 <= j < variants.drop_first().len() && (#[trigger] variants.drop_first()[j]).1
                    == value;
            assert(variants[j + 1] == variants.drop_first()[j]);
        }
        if exists|i: int| 0 <= i < variants.len() && (#[trigger] variants[i]).1 == value {
            let i = choose|i: int| 0 <= i < variants.len() && (#[trigger] variants[i]).1 == value;
            if i > 0 {
                assert(variants.drop_first()[i - 1] == variants[i]);
            }
        }
    }
}

/// Looking up past a variant of another value gives what the rest gives.
proof fn lemma_lookup_skip(variants: Seq<(&'static str, i32)>, value: i32, i: int)
    requires
        0 <= i < variants.len(),
        variants[i].1 != value,
    ensures
        spec_lookup(variants.skip(i), value) == spec_lookup(variants.skip(i + 1), value),
{
    assert(variants.skip(i).drop_first() =~= variants.skip(i + 1));
}

/// The variants of an enumeration, by name and value, in declaration
/// order. There is at least one.
pub struct Enumeration {
    variants: Vec<(&'static str, i32)>,
}

impl Enumeration {
    /// The variants, by name and value, in declaration order.
    pub closed spec fn variants(&self) -> Seq<(&'static str, i32)> {
        self.variants@
    }

    #[verifier::type_invariant]
    spec fn has_variants(&self) -> bool {
        self.variants@.len() > 0
    }

    /// An enumeration with these variants, which must not be empty.
    pub fn new(variants: Vec<(&'static str, i32)>) -> (r: Enumeration)
        requires
            variants@.len() > 0,
        ensures
            r.variants() == variants@,
    {
        Enumeration { variants }
    }

    /// The name of the variant for `value`, if there is one.
    fn lookup(&self, value: i32) -> (r: Option<&'static str>)
        ensures
            match r {
                Some(name) => spec_lookup(self.variants(), value) == Some(name@),
                None => spec_lookup(self.variants(), value) is None,
            },
    {
        let mut i: usize = 0;
        assert(self.variants@.skip(0) =~= self.variants@);
        while i < self.variants.len()
            invariant
                i <= self.variants@.len(),
                spec_lookup(self.variants@, value) == spec_lookup(self.variants@.skip(i as int), value),
            decreases self.variants@.len() - i,
        {
            let (name, v) = self.variants[i];
            if v == value {
                assert(self.variants@.skip(i as int)[0] == self.variants@[i as int]);
                return Some(name);
            }
            proof {
                lemma_lookup_skip(self.variants@, value, i as int);
            }
            i = i + 1;
        }
        assert(self.variants@.skip(i as int) =~= Seq::<(&'static str, i32)>::empty());
        None
    }

    /// Whether `value` is the value of a variant.
    pub fn is_valid(&self, value: i32) -> (r: bool)
        ensures
            r == exists|i: int|
                0 <= i < self.variants().len() && (#[trigger] self.variants()[i]).1 == value,
    {
        proof {
            lemma_lookup_some(self.variants(), value);
        }
        self.lookup(value).is_some()
    }

    /// The name of the variant whose value is `value`, or `None` where no
    /// variant has it.
    pub fn from_i32(&self, value: i32) -> (r: Option<&'static str>)
        ensures
            r is Some <==> spec_lookup(self.variants(), value) is Some,
            r matches Some(name) ==> spec_lookup(self.variants(), value) == Some(name@),
    {
        self.lookup(value)
    }

    /// The name of the variant whose value is `value`, or the value as an
    /// error where no variant has it.
    pub fn try_from(&self, value: i32) -> (r: Result<&'static str, UnknownEnumValue>)
        ensures
            match r {
                Ok(name) => spec_lookup(self.variants(), value) == Some(name@),
                Err(e) => spec_lookup(self.variants(), value) is None && e == UnknownEnumValue(
                    value,
                ),
            },
    {
        match self.lookup(value) {
            Some(name) => Ok(name),
            None => Err(UnknownEnumValue(value)),
        }
    }

    /// The value of the default variant, the first one declared; it names
    /// that variant.
    pub fn default_value(&self) -> (r: i32)
        ensures
            r == self.variants()[0].1,
            spec_lookup(self.variants(), r) == Some(self.variants()[0].0@),
    {
        proof {
            use_type_invariant(self);
        }
        self.variants[0].1
    }

    /// The name of the default variant, the first one declared.
    pub fn default_name(&self) -> (r: &'static str)
        ensures
            r == self.variants()[0].0,
    {
        proof {
            use_type_invariant(self);
        }
        self.variants[0].0
    }

    /// The `Debug` text of a field of this enumeration holding `value`: the
    /// variant's name, or the number where no variant has it.
    pub fn debug_value(&self, value: i32) -> (r: String)
        ensures
            r@ == match spec_lookup(self.variants(), value) {
                Some(name) => name,
                None => spec_decimal(value as int),
            },
    {
        match self.lookup(value) {
            Some(name) => name.to_string(),
            None => fmt_decimal(value as i64),
        }
    }
}

/// What the derive of `Enumeration` is applied to.
#[derive(Debug, Clone, Copy, PartialEq, Eq, Structural)]
pub enum ItemKind {
    Enum,
    Struct,
    Union,
}

/// The shape of one variant of an enum: whether it has fields, and whether
/// it has an explicit discriminant.
#[derive(Debug, Clone, Copy, PartialEq, Eq, Structural)]
pub struct VariantShape {
    pub has_fields: bool,
    pub has_discriminant: bool,
}

/// Why `Enumeration` cannot be derived for an item.
#[derive(Debug, Clone, Copy, PartialEq, Eq, Structural)]
pub enum EnumerationShapeError {
    Struct,
    Union,
    VariantFields,
    MissingDiscriminant,
}

/// The first variant from the `i`-th on that has fields or lacks a
/// discriminant, and which of the two it is, fields checked first.
pub open spec fn first_bad_variant(variants: Seq<VariantShape>, i: int) -> Option<EnumerationShapeError>
    decreases variants.len() - i,
{
    if i < 0 || i >= variants.len() {
        None
    } else if variants[i].has_fields {
        Some(EnumerationShapeError::VariantFields)
    } else if !variants[i].has_discriminant {
        Some(EnumerationShapeError::MissingDiscriminant)
    } else {
        first_bad_variant(variants, i + 1)
    }
}

/// Whether `Enumeration` can be derived for an item of this kind with these
/// variants: only for an enum whose variants are all units with
/// discriminants; the first variant at fault decides the error.
pub open spec fn spec_check_enumeration_shape(kind: ItemKind, variants: Seq<VariantShape>) -> Result<
    (),
    EnumerationShapeError,
> {
    match kind {
        ItemKind::Struct => Err(EnumerationShapeError::Struct),
        ItemKind::Union => Err(EnumerationShapeError::Union),
        ItemKind::Enum => match first_bad_variant(variants, 0) {
            Some(e) => Err(e),
            None => Ok(()),
        },
    }
}

/// Checks that `Enumeration` can be derived for an item of this kind with
/// these variants. An enum without variants is refused before this check.
pub fn check_enumeration_shape(kind: ItemKind, variants: &[VariantShape]) -> (r: Result<
    (),
    EnumerationShapeError,
>)
    requires
        kind == ItemKind::Enum ==> variants@.len() > 0,
    ensures
        r == spec_check_enumeration_shape(kind, variants@),
{
    match kind {
        ItemKind::Struct => return Err(EnumerationShapeError::Struct),
        ItemKind::Union => return Err(EnumerationShapeError::Union),
        ItemKind::Enum => {},
    }
    let mut i: usize = 0;
    while i < variants.len()
        invariant
            i <= variants@.len(),
            kind == ItemKind::Enum,
            first_bad_variant(variants@, 0) == first_bad_variant(variants@, i as int),
        decreases variants@.len() - i,
    {
        if variants[i].has_fields {
            return Err(EnumerationShapeError::VariantFields);
        }
        if !variants[i].has_discriminant {
            return Err(EnumerationShapeError::MissingDiscriminant);
        }
        i = i + 1;
    }
    Ok(())
}

/// The message of a shape error.
pub open spec fn spec_shape_error_text(e: EnumerationShapeError) -> Seq<char> {
    match e {
        EnumerationShapeError::Struct => "Enumeration can not be derived for a struct"@,
        EnumerationShapeError::Union => "Enumeration can not be derived for a union"@,
        EnumerationShapeError::VariantFields => "Enumeration variants may not have fields"@,
        EnumerationShapeError::MissingDiscriminant => "Enumeration variants must have a discriminant"@,
    }
}

impl EnumerationShapeError {
    /// The message that the derive reports.
    pub fn text(&self) -> (r: &'static str)
        ensures
            r@ == spec_shape_error_text(*self),
    {
        match self {
            EnumerationShapeError::Struct => "Enumeration can not be derived for a struct",
            EnumerationShapeError::Union => "Enumeration can not be derived for a union",
            EnumerationShapeError::VariantFields => "Enumeration variants may not have fields",
            EnumerationShapeError::MissingDiscriminant => "Enumeration variants must have a discriminant",
        }
    }
}

} // verus!
