//! The Rust types of message fields, as far as code generation reads them:
//! whether a field borrows from the arena, which message type it holds,
//! and whether it uses an owned collection that arena messages may not hold.
use vstd::prelude::*;

use crate::text::{concat_str, str_eq};

verus! {

/// An argument in the angle brackets of a path segment.
#[derive(Debug, PartialEq, Eq)]
pub enum GenericArg {
    /// A lifetime, such as `'arena`.
    Lifetime,
    /// A type.
    Type(RustType),
    /// An associated type binding, such as `Item = T`: its type.
    Binding(RustType),
    /// An associated type constraint, such as `Item: Trait`: its trait
    /// bounds.
    Constraint(Vec<TypePath>),
    /// A constant.
    Other,
}

/// What follows the name in a path segment.
#[derive(Debug, PartialEq, Eq)]
pub enum PathArgs {
    /// Nothing.
    NoArgs,
    /// Arguments in angle brackets, such as `<'arena, T>`.
    AngleBracketed(Vec<GenericArg>),
    /// Arguments in parentheses, such as `(A) -> B`: the argument types and
    /// the result type.
    Parenthesized(Vec<RustType>),
}

/// A segment of a path: a name and its arguments.
#[derive(Debug, PartialEq, Eq)]
pub struct PathSegment {
    pub ident: String,
    pub args: PathArgs,
}

/// A path, such as `::core::option::Option<T>`.
#[derive(Debug, PartialEq, Eq)]
pub struct TypePath {
    pub leading_colon: bool,
    pub segments: Vec<PathSegment>,
}

/// A type as written in a field.
#[derive(Debug, PartialEq, Eq)]
pub enum RustType {
    /// A path type, such as `Option<&'arena str>`.
    Path(TypePath),
    /// A reference, such as `&'arena T`.
    Reference(Box<RustType>),
    /// A slice, such as `[T]`.
    Slice(Box<RustType>),
    /// An array, such as `[T; 4]`.
    Array(Box<RustType>),
    /// A tuple, such as `(String, u32)`.
    Tuple(Vec<RustType>),
    /// A function pointer type, such as `fn(A) -> B`: its argument types and
    /// its result type.
    Fn(Vec<RustType>),
    /// A raw pointer, such as `*const T`.
    Ptr(Box<RustType>),
    /// A type in parentheses or an invisible group, such as `(T)`.
    Paren(Box<RustType>),
    /// A trait object or `impl Trait` type: the paths of its trait bounds.
    TraitObject(Vec<TypePath>),
    /// Any other form of type, such as `!`, `_` or a macro.
    Other,
}

/// Whether some of the arguments `args[i..]` is a lifetime or a type that
/// borrows from the arena.
pub open spec fn args_use_arena(args: Seq<GenericArg>, i: int) -> bool
    decreases args, args.len() - i,
{
    if 0 <= i < args.len() {
        match args[i] {
            GenericArg::Lifetime => true,
            GenericArg::Type(t) => {
                proof {
                    assert(decreases_to!(args => args[i]));
                }
                uses_arena(t) || args_use_arena(args, i + 1)
            },
            _ => args_use_arena(args, i + 1),
        }
    } else {
        false
    }
}

/// Whether a field of this type borrows from the arena: a reference does;
/// an `Option` does where its content does; another path does where its
/// last segment has a lifetime argument or a type argument that does.
pub open spec fn uses_arena(ty: RustType) -> bool
    decreases ty, 0int,
{
    match ty {
        RustType::Reference(_) => true,
        RustType::Path(p) => if p.segments@.len() == 0 {
            false
        } else {
            let last = p.segments@.last();
            if last.ident@ == "Option"@ {
                match last.args {
                    PathArgs::AngleBracketed(a) => if a@.len() > 0 {
                        match a@[0] {
                            GenericArg::Type(t) => {
                                proof {
                                    assert(decreases_to!(ty => p.segments@.last().args));
                                }
                                uses_arena(t)
                            },
                            _ => false,
                        }
                    } else {
                        false
                    },
                    _ => false,
                }
            } else {
                match last.args {
                    PathArgs::AngleBracketed(a) => args_use_arena(a@, 0),
                    _ => false,
                }
            }
        },
        _ => false,
    }
}

/// Whether a segment's name is `name`.
fn ident_is(seg: &PathSegment, name: &str) -> (r: bool)
    ensures
        r == (seg.ident@ == name@),
{
    str_eq(seg.ident.as_str(), name)
}

/// Whether a field of this type borrows from the arena, as `uses_arena`
/// says: references do, `Option`s by their content, other paths by the
/// arguments of their last segment.
pub fn type_uses_arena(ty: &RustType) -> (r: bool)
    ensures
        r == uses_arena(*ty),
    decreases ty, 0int,
{
    match ty {
        RustType::Reference(_) => true,
        RustType::Path(p) => {
            let n = p.segments.len();
            if n == 0 {
                return false;
            }
            let last = &p.segments[n - 1];
            if ident_is(last, "Option") {
                match &last.args {
                    PathArgs::AngleBracketed(a) => {
                        if a.len() > 0 {
                            match &a[0] {
                                GenericArg::Type(t) => {
                                    proof {
                                        assert(decreases_to!(*ty => p.segments@.last().args));
                                    }
                                    type_uses_arena(t)
                                },
                                _ => false,
                            }
                        } else {
                            false
                        }
                    },
                    _ => false,
                }
            } else {
                match &last.args {
                    PathArgs::AngleBracketed(a) => any_arg_uses_arena(a, 0),
                    _ => false,
                }
            }
        },
        _ => false,
    }
}

/// Whether some of the arguments from `i` on is a lifetime or a type that
/// borrows from the arena.
fn any_arg_uses_arena(args: &Vec<GenericArg>, i: usize) -> (r: bool)
    requires
        i <= args@.len(),
    ensures
        r == args_use_arena(args@, i as int),
    decreases args@, args@.len() - i,
{
    if i >= args.len() {
        return false;
    }
    match &args[i] {
        GenericArg::Lifetime => true,
        GenericArg::Type(t) => {
            proof {
                assert(decreases_to!(args@ => args@[i as int]));
            }
            if type_uses_arena(t) {
                true
            } else {
                any_arg_uses_arena(args, i + 1)
            }
        },
        _ => any_arg_uses_arena(args, i + 1),
    }
}

/// Whether a segment has a lifetime among its angle-bracket arguments.
pub open spec fn segment_has_lifetime(seg: PathSegment) -> bool {
    match seg.args {
        PathArgs::AngleBracketed(a) => exists|i: int| 0 <= i < a@.len() && (#[trigger] a@[i]) is Lifetime,
        _ => false,
    }
}

/// Whether some segment of a path has a lifetime argument.
pub open spec fn path_has_lifetime(p: TypePath) -> bool {
    exists|j: int| 0 <= j < p.segments@.len() && segment_has_lifetime(#[trigger] p.segments@[j])
}

/// Whether the message type that a message field holds takes the arena's
/// lifetime: for `Option<T>` as for `T`; for `&T` and `&[T]` whether some
/// segment of the path `T` has a lifetime argument; for anything else no.
pub open spec fn nested_uses_arena(ty: RustType) -> bool
    decreases ty,
{
    match ty {
        RustType::Path(p) => if p.segments@.len() > 0 && p.segments@.last().ident@ == "Option"@ {
            match p.segments@.last().args {
                PathArgs::AngleBracketed(a) => if a@.len() > 0 {
                    match a@[0] {
                        GenericArg::Type(t) => {
                            proof {
                                assert(decreases_to!(ty => p.segments@.last().args));
                            }
                            nested_uses_arena(t)
                        },
                        _ => false,
                    }
                } else {
                    false
                },
                _ => false,
            }
        } else {
            false
        },
        RustType::Reference(elem) => match *elem {
            RustType::Slice(inner) => match *inner {
                RustType::Path(p) => path_has_lifetime(p),
                _ => false,
            },
            RustType::Path(p) => path_has_lifetime(p),
            _ => false,
        },
        _ => false,
    }
}

/// Whether a segment has a lifetime among its angle-bracket arguments.
fn has_lifetime_arg(seg: &PathSegment) -> (r: bool)
    ensures
        r == segment_has_lifetime(*seg),
{
    match &seg.args {
        PathArgs::AngleBracketed(a) => {
            let mut i: usize = 0;
            while i < a.len()
                invariant
                    i <= a@.len(),
                    seg.args == PathArgs::AngleBracketed(*a),
                    forall|k: int| 0 <= k < i ==> !((#[trigger] a@[k]) is Lifetime),
                decreases a@.len() - i,
            {
                if let GenericArg::Lifetime = &a[i] {
                    return true;
                }
                i = i + 1;
            }
            false
        },
        _ => false,
    }
}

/// Whether some segment of a path has a lifetime argument.
fn any_segment_has_lifetime(p: &TypePath) -> (r: bool)
    ensures
        r == path_has_lifetime(*p),
{
    let mut j: usize = 0;
    while j < p.segments.len()
        invariant
            j <= p.segments@.len(),
            forall|k: int| 0 <= k < j ==> !segment_has_lifetime(#[trigger] p.segments@[k]),
        decreases p.segments@.len() - j,
    {
        if has_lifetime_arg(&p.segments[j]) {
            return true;
        }
        j = j + 1;
    }
    false
}

/// Whether the message type that a message field holds takes the arena's
/// lifetime, as `nested_uses_arena` says.
pub fn nested_message_uses_arena(ty: &RustType) -> (r: bool)
    ensures
        r == nested_uses_arena(*ty),
    decreases ty,
{
    match ty {
        RustType::Path(p) => {
            let n = p.segments.len();
            if n > 0 && ident_is(&p.segments[n - 1], "Option") {
                match &p.segments[n - 1].args {
                    PathArgs::AngleBracketed(a) => {
                        if a.len() > 0 {
                            match &a[0] {
                                GenericArg::Type(t) => {
                                    proof {
                                        assert(decreases_to!(*ty => p.segments@.last().args));
                                    }
                                    nested_message_uses_arena(t)
                                },
                                _ => false,
                            }
                        } else {
                            false
                        }
                    },
                    _ => false,
                }
            } else {
                false
            }
        },
        RustType::Reference(elem) => match &**elem {
            RustType::Slice(inner) => match &**inner {
                RustType::Path(p) => any_segment_has_lifetime(p),
                _ => false,
            },
            RustType::Path(p) => any_segment_has_lifetime(p),
            _ => false,
        },
        _ => false,
    }
}

/// Whether a path names `Option`: its last segment is `Option`, and it is
/// that one segment or some segment is `option` or `core`.
pub open spec fn is_option_path(p: TypePath) -> bool {
    &&& p.segments@.len() > 0
    &&& p.segments@.last().ident@ == "Option"@
    &&& (p.segments@.len() == 1 || exists|j: int|
        0 <= j < p.segments@.len() && ((#[trigger] p.segments@[j]).ident@ == "option"@
            || p.segments@[j].ident@ == "core"@))
}

/// Whether the message type of a field of this type can be found: through
/// `Option`s with a type argument and references, down to a path.
pub open spec fn extractable(ty: RustType) -> bool
    decreases ty,
{
    match ty {
        RustType::Path(p) => if p.segments@.len() == 0 {
            false
        } else if is_option_path(p) {
            match p.segments@.last().args {
                PathArgs::AngleBracketed(a) => if a@.len() > 0 {
                    match a@[0] {
                        GenericArg::Type(t) => {
                            proof {
                                assert(decreases_to!(ty => p.segments@.last().args));
                            }
                            extractable(t)
                        },
                        _ => false,
                    }
                } else {
                    false
                },
                _ => false,
            }
        } else {
            true
        },
        RustType::Reference(elem) => match *elem {
            RustType::Slice(inner) => extractable(*inner),
            _ => extractable(*elem),
        },
        _ => false,
    }
}

/// The path of the message type that a field of this type holds, with its
/// arguments still on.
pub open spec fn extracted_path(ty: RustType) -> TypePath
    decreases ty,
{
    match ty {
        RustType::Path(p) => if p.segments@.len() > 0 && is_option_path(p) {
            match p.segments@.last().args {
                PathArgs::AngleBracketed(a) => if a@.len() > 0 {
                    match a@[0] {
                        GenericArg::Type(t) => {
                            proof {
                                assert(decreases_to!(ty => p.segments@.last().args));
                            }
                            extracted_path(t)
                        },
                        _ => p,
                    }
                } else {
                    p
                },
                _ => p,
            }
        } else {
            p
        },
        RustType::Reference(elem) => match *elem {
            RustType::Slice(inner) => extracted_path(*inner),
            _ => extracted_path(*elem),
        },
        _ => arbitrary(),
    }
}

/// Whether `r` is the path `p` with the arguments of every segment taken
/// off.
pub open spec fn stripped(p: TypePath, r: TypePath) -> bool {
    &&& r.leading_colon == p.leading_colon
    &&& r.segments@.len() == p.segments@.len()
    &&& forall|j: int|
        0 <= j < p.segments@.len() ==> (#[trigger] r.segments@[j]).ident@ == p.segments@[j].ident@
            && r.segments@[j].args == PathArgs::NoArgs
}

/// Whether a path names `Option`.
fn option_path(p: &TypePath) -> (r: bool)
    requires
        p.segments@.len() > 0,
    ensures
        r == is_option_path(*p),
{
    let n = p.segments.len();
    if !ident_is(&p.segments[n - 1], "Option") {
        return false;
    }
    if n == 1 {
        return true;
    }
    let mut j: usize = 0;
    while j < n
        invariant
            n == p.segments@.len(),
            n > 1,
            p.segments@.last().ident@ == "Option"@,
            j <= n,
            forall|k: int|
                0 <= k < j ==> !((#[trigger] p.segments@[k]).ident@ == "option"@
                    || p.segments@[k].ident@ == "core"@),
        decreases n - j,
    {
        if ident_is(&p.segments[j], "option") || ident_is(&p.segments[j], "core") {
            return true;
        }
        j = j + 1;
    }
    false
}

/// The path without the arguments of its segments.
fn strip_args(p: &TypePath) -> (r: TypePath)
    ensures
        stripped(*p, r),
{
    let mut segments: Vec<PathSegment> = Vec::new();
    let mut j: usize = 0;
    while j < p.segments.len()
        invariant
            j <= p.segments@.len(),
            segments@.len() == j,
            forall|k: int|
                0 <= k < j ==> (#[trigger] segments@[k]).ident@ == p.segments@[k].ident@
                    && segments@[k].args == PathArgs::NoArgs,
        decreases p.segments@.len() - j,
    {
        let ident = p.segments[j].ident.clone();
        segments.push(PathSegment { ident, args: PathArgs::NoArgs });
        j = j + 1;
    }
    TypePath { leading_colon: p.leading_colon, segments }
}

/// The path of the message type that a message field of this type holds:
/// through `Option`s and references down to a path, whose segments lose
/// their arguments.
pub fn extract_type_path(ty: &RustType) -> (r: TypePath)
    requires
        extractable(*ty),
    ensures
        stripped(extracted_path(*ty), r),
    decreases ty,
{
    match ty {
        RustType::Path(p) => {
            if option_path(p) {
                let n = p.segments.len();
                match &p.segments[n - 1].args {
                    PathArgs::AngleBracketed(a) => match &a[0] {
                        GenericArg::Type(t) => {
                            proof {
                                assert(decreases_to!(*ty => p.segments@.last().args));
                            }
                            extract_type_path(t)
                        },
                        _ => strip_args(p),
                    },
                    _ => strip_args(p),
                }
            } else {
                strip_args(p)
            }
        },
        RustType::Reference(elem) => match &**elem {
            RustType::Slice(inner) => extract_type_path(inner),
            _ => extract_type_path(elem),
        },
        _ => strip_args(&TypePath { leading_colon: false, segments: Vec::new() }),
    }
}

/// An owned collection that arena messages may not hold.
#[derive(Debug, Clone, Copy, PartialEq, Eq, Structural)]
pub enum DisallowedType {
    Box,
    Vec,
    String,
    HashMap,
    BTreeMap,
}

/// The owned collection that a segment's name is, if it is one.
pub open spec fn disallowed_name(name: Seq<char>) -> Option<DisallowedType> {
    if name == "Box"@ {
        Some(DisallowedType::Box)
    } else if name == "Vec"@ {
        Some(DisallowedType::Vec)
    } else if name == "String"@ {
        Some(DisallowedType::String)
    } else if name == "HashMap"@ {
        Some(DisallowedType::HashMap)
    } else if name == "BTreeMap"@ {
        Some(DisallowedType::BTreeMap)
    } else {
        None
    }
}

/// The first owned collection among the generic arguments `args[i..]`:
/// in their types, bound types and constraint bounds.
pub open spec fn args_violation(args: Seq<GenericArg>, i: int) -> Option<DisallowedType>
    decreases args, args.len() - i,
{
    if 0 <= i < args.len() {
        proof {
            assert(decreases_to!(args => args[i]));
        }
        let here = match args[i] {
            GenericArg::Type(t) => arena_violation(t),
            GenericArg::Binding(t) => arena_violation(t),
            GenericArg::Constraint(bounds) => paths_violation(bounds@, 0),
            _ => None,
        };
        match here {
            Some(d) => Some(d),
            None => args_violation(args, i + 1),
        }
    } else {
        None
    }
}

/// The first owned collection in a path segment: its name, else its
/// arguments.
pub open spec fn segment_violation(seg: PathSegment) -> Option<DisallowedType>
    decreases seg, 0int,
{
    match disallowed_name(seg.ident@) {
        Some(d) => Some(d),
        None => match seg.args {
            PathArgs::AngleBracketed(a) => args_violation(a@, 0),
            PathArgs::Parenthesized(ts) => types_violation(ts@, 0),
            PathArgs::NoArgs => None,
        },
    }
}

/// The first owned collection among the segments `segs[i..end]`.
pub open spec fn segments_violation(segs: Seq<PathSegment>, i: int, end: int) -> Option<
    DisallowedType,
>
    decreases segs, end - i,
{
    if 0 <= i < end && end <= segs.len() {
        proof {
            assert(decreases_to!(segs => segs[i]));
        }
        match segment_violation(segs[i]) {
            Some(d) => Some(d),
            None => segments_violation(segs, i + 1, end),
        }
    } else {
        None
    }
}

/// The first owned collection in a path: in its last segment first, as
/// the type it names, then in the segments before it, in order.
pub open spec fn path_violation(p: TypePath) -> Option<DisallowedType>
    decreases p, 0int,
{
    let segs = p.segments@;
    if segs.len() == 0 {
        None
    } else {
        proof {
            assert(decreases_to!(p => segs));
        }
        match segments_violation(segs, segs.len() - 1, segs.len() as int) {
            Some(d) => Some(d),
            None => segments_violation(segs, 0, segs.len() - 1),
        }
    }
}

/// The first owned collection among the paths `paths[i..]`.
pub open spec fn paths_violation(paths: Seq<TypePath>, i: int) -> Option<DisallowedType>
    decreases paths, paths.len() - i,
{
    if 0 <= i < paths.len() {
        proof {
            assert(decreases_to!(paths => paths[i]));
        }
        match path_violation(paths[i]) {
            Some(d) => Some(d),
            None => paths_violation(paths, i + 1),
        }
    } else {
        None
    }
}

/// The first owned collection that a field of this type uses, found
/// anywhere in it: in every segment of a path, the last one first, and its
/// arguments; through references, pointers, slices, arrays, parentheses,
/// the elements of tuples, the argument and result types of function
/// pointers and the bounds of trait objects.
pub open spec fn arena_violation(ty: RustType) -> Option<DisallowedType>
    decreases ty, 0int,
{
    match ty {
        RustType::Path(p) => path_violation(p),
        RustType::Reference(elem) => arena_violation(*elem),
        RustType::Slice(elem) => arena_violation(*elem),
        RustType::Array(elem) => arena_violation(*elem),
        RustType::Ptr(elem) => arena_violation(*elem),
        RustType::Paren(elem) => arena_violation(*elem),
        RustType::Tuple(ts) => types_violation(ts@, 0),
        RustType::Fn(ts) => types_violation(ts@, 0),
        RustType::TraitObject(bounds) => paths_violation(bounds@, 0),
        RustType::Other => None,
    }
}

/// The first owned collection among the types `ts[i..]`.
pub open spec fn types_violation(ts: Seq<RustType>, i: int) -> Option<DisallowedType>
    decreases ts, ts.len() - i,
{
    if 0 <= i < ts.len() {
        proof {
            assert(decreases_to!(ts => ts[i]));
        }
        match arena_violation(ts[i]) {
            Some(d) => Some(d),
            None => types_violation(ts, i + 1),
        }
    } else {
        None
    }
}

/// The owned collection that a segment's name is, if it is one.
fn disallowed(seg: &PathSegment) -> (r: Option<DisallowedType>)
    ensures
        r == disallowed_name(seg.ident@),
{
    if ident_is(seg, "Box") {
        Some(DisallowedType::Box)
    } else if ident_is(seg, "Vec") {
        Some(DisallowedType::Vec)
    } else if ident_is(seg, "String") {
        Some(DisallowedType::String)
    } else if ident_is(seg, "HashMap") {
        Some(DisallowedType::HashMap)
    } else if ident_is(seg, "BTreeMap") {
        Some(DisallowedType::BTreeMap)
    } else {
        None
    }
}

/// Refuses a field type of an arena message that uses an owned collection
/// anywhere in it, naming the first one found.
pub fn validate_arena_field_type(ty: &RustType) -> (r: Result<(), DisallowedType>)
    ensures
        match arena_violation(*ty) {
            Some(d) => r == Err::<(), DisallowedType>(d),
            None => r is Ok,
        },
    decreases ty, 0int,
{
    match ty {
        RustType::Path(p) => validate_path(p),
        RustType::Reference(elem) => validate_arena_field_type(elem),
        RustType::Slice(elem) => validate_arena_field_type(elem),
        RustType::Array(elem) => validate_arena_field_type(elem),
        RustType::Ptr(elem) => validate_arena_field_type(elem),
        RustType::Paren(elem) => validate_arena_field_type(elem),
        RustType::Tuple(ts) => validate_types(ts, 0),
        RustType::Fn(ts) => validate_types(ts, 0),
        RustType::TraitObject(bounds) => validate_paths(bounds, 0),
        RustType::Other => Ok(()),
    }
}

/// Refuses generic arguments from `i` on that use an owned collection.
fn validate_args(args: &Vec<GenericArg>, i: usize) -> (r: Result<(), DisallowedType>)
    requires
        i <= args@.len(),
    ensures
        match args_violation(args@, i as int) {
            Some(d) => r == Err::<(), DisallowedType>(d),
            None => r is Ok,
        },
    decreases args@, args@.len() - i,
{
    if i >= args.len() {
        return Ok(());
    }
    proof {
        assert(decreases_to!(args@ => args@[i as int]));
    }
    let here = match &args[i] {
        GenericArg::Type(t) => validate_arena_field_type(t),
        GenericArg::Binding(t) => validate_arena_field_type(t),
        GenericArg::Constraint(bounds) => validate_paths(bounds, 0),
        _ => Ok(()),
    };
    match here {
        Ok(()) => validate_args(args, i + 1),
        Err(d) => Err(d),
    }
}

/// Refuses a path segment whose name or arguments use an owned collection.
fn validate_segment(seg: &PathSegment) -> (r: Result<(), DisallowedType>)
    ensures
        match segment_violation(*seg) {
            Some(d) => r == Err::<(), DisallowedType>(d),
            None => r is Ok,
        },
    decreases seg, 0int,
{
    match disallowed(seg) {
        Some(d) => Err(d),
        None => match &seg.args {
            PathArgs::AngleBracketed(a) => validate_args(a, 0),
            PathArgs::Parenthesized(ts) => validate_types(ts, 0),
            PathArgs::NoArgs => Ok(()),
        },
    }
}

/// Refuses segments `segs[i..end]` that use an owned collection.
fn validate_segments(segs: &Vec<PathSegment>, i: usize, end: usize) -> (r: Result<(), DisallowedType>)
    requires
        i <= end <= segs@.len(),
    ensures
        match segments_violation(segs@, i as int, end as int) {
            Some(d) => r == Err::<(), DisallowedType>(d),
            None => r is Ok,
        },
    decreases segs@, end - i,
{
    if i >= end {
        return Ok(());
    }
    proof {
        assert(decreases_to!(segs@ => segs@[i as int]));
    }
    match validate_segment(&segs[i]) {
        Ok(()) => validate_segments(segs, i + 1, end),
        Err(d) => Err(d),
    }
}

/// Refuses a path that uses an owned collection in any segment.
fn validate_path(p: &TypePath) -> (r: Result<(), DisallowedType>)
    ensures
        match path_violation(*p) {
            Some(d) => r == Err::<(), DisallowedType>(d),
            None => r is Ok,
        },
    decreases p, 0int,
{
    let n = p.segments.len();
    if n == 0 {
        return Ok(());
    }
    proof {
        assert(decreases_to!(*p => p.segments@));
    }
    match validate_segments(&p.segments, n - 1, n) {
        Ok(()) => validate_segments(&p.segments, 0, n - 1),
        Err(d) => Err(d),
    }
}

/// Refuses paths from `i` on that use an owned collection.
fn validate_paths(paths: &Vec<TypePath>, i: usize) -> (r: Result<(), DisallowedType>)
    requires
        i <= paths@.len(),
    ensures
        match paths_violation(paths@, i as int) {
            Some(d) => r == Err::<(), DisallowedType>(d),
            None => r is Ok,
        },
    decreases paths@, paths@.len() - i,
{
    if i >= paths.len() {
        return Ok(());
    }
    proof {
        assert(decreases_to!(paths@ => paths@[i as int]));
    }
    match validate_path(&paths[i]) {
        Ok(()) => validate_paths(paths, i + 1),
        Err(d) => Err(d),
    }
}

/// The text of the error for a field named `field_name` that uses the
/// owned collection `d`.
pub open spec fn spec_disallowed_text(field_name: Seq<char>, d: DisallowedType) -> Seq<char> {
    "Field '"@ + field_name + match d {
        DisallowedType::Box => "' uses Box<_> which is not allowed for arena types. Use &'arena T instead of Box<&'arena T>"@,
        DisallowedType::Vec => "' uses Vec<_> which is not allowed for arena types. Use &'arena [T] instead of Vec<T>"@,
        DisallowedType::String => "' uses String which is not allowed for arena types. Use &'arena str instead of String"@,
        DisallowedType::HashMap => "' uses HashMap<_, _> which is not allowed for arena types. Use arena-allocated map types instead"@,
        DisallowedType::BTreeMap => "' uses BTreeMap<_, _> which is not allowed for arena types. Use arena-allocated map types instead"@,
    }
}

/// The text of the error for a field named `field_name` that uses the
/// owned collection `d`.
pub fn disallowed_text(field_name: &str, d: DisallowedType) -> (r: String)
    ensures
        r@ == spec_disallowed_text(field_name@, d),
{
    let head = concat_str("Field '", field_name);
    let tail = match d {
        DisallowedType::Box => "' uses Box<_> which is not allowed for arena types. Use &'arena T instead of Box<&'arena T>",
        DisallowedType::Vec => "' uses Vec<_> which is not allowed for arena types. Use &'arena [T] instead of Vec<T>",
        DisallowedType::String => "' uses String which is not allowed for arena types. Use &'arena str instead of String",
        DisallowedType::HashMap => "' uses HashMap<_, _> which is not allowed for arena types. Use arena-allocated map types instead",
        DisallowedType::BTreeMap => "' uses BTreeMap<_, _> which is not allowed for arena types. Use arena-allocated map types instead",
    };
    concat_str(head.as_str(), tail)
}

/// Whether a message whose fields have these types borrows from the arena:
/// whether some field's type does.
pub fn message_needs_arena(field_types: &[RustType]) -> (r: bool)
    ensures
        r == exists|i: int| 0 <= i < field_types@.len() && uses_arena(#[trigger] field_types@[i]),
{
    let mut i: usize = 0;
    while i < field_types.len()
        invariant
            i <= field_types@.len(),
            forall|k: int| 0 <= k < i ==> !uses_arena(#[trigger] field_types@[k]),
        decreases field_types@.len() - i,
    {
        if type_uses_arena(&field_types[i]) {
            return true;
        }
        i = i + 1;
    }
    false
}

/// Refuses types from `i` on that use an owned collection.
fn validate_types(ts: &Vec<RustType>, i: usize) -> (r: Result<(), DisallowedType>)
    requires
        i <= ts@.len(),
    ensures
        match types_violation(ts@, i as int) {
            Some(d) => r == Err::<(), DisallowedType>(d),
            None => r is Ok,
        },
    decreases ts@, ts@.len() - i,
{
    if i >= ts.len() {
        return Ok(());
    }
    proof {
        assert(decreases_to!(ts@ => ts@[i as int]));
    }
    match validate_arena_field_type(&ts[i]) {
        Ok(()) => validate_types(ts, i + 1),
        Err(d) => Err(d),
    }
}

} // verus!
