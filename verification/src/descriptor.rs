//! Structural descriptions of a tool parameter's declared type.
//!
//! A [`TypeDescriptor`] is produced once from a function's source signature
//! and is immutable.  It captures exactly what schema inference and argument
//! decoding read: references, fixed-size arrays, tuples, path types with the
//! generic arguments of their last segment, and a fallback for every other
//! shape.  Primitives, growable sequences, nullable containers and the opaque
//! dynamic value type are all [`TypeDescriptor::Named`] and are told apart by
//! their path, as they are in the source signature.

use vstd::prelude::*;
use crate::json::string_eq_str;

verus! {

broadcast use vstd::std_specs::vec::group_vec_axioms;

/// One generic argument of a path segment.  Only type arguments matter to
/// schema inference; lifetimes and const arguments carry no type.
pub enum GenericArg {
    TypeArg(TypeDescriptor),
    Opaque,
}

/// A path type, e.g. `u32`, `Vec<String>` or `serde_json::Value`: its
/// segments' identifiers and the generic arguments of its last segment.
pub struct TypePath {
    pub segments: Vec<String>,
    pub args: Vec<GenericArg>,
}

/// The closed set of type shapes that schema inference is defined over.
pub enum TypeDescriptor {
    /// `&T`: references are transparent.
    Reference(Box<TypeDescriptor>),
    /// `[T; N]`: a fixed-size array of one element type.
    FixedArray(Box<TypeDescriptor>),
    /// `(T1, .., Tn)`: a fixed-length tuple.
    Tuple(Vec<TypeDescriptor>),
    /// A path type, primitive or generic.
    Named(TypePath),
    /// Any other shape; falls back to a string schema.
    Unknown,
}

/// Whether a path's last segment is the identifier `name`.
pub open spec fn path_last_is(segments: Seq<Seq<char>>, name: Seq<char>) -> bool {
    segments.len() > 0 && segments.last() == name
}

/// Whether `suffix` is non-empty and the path's segments end with it.
pub open spec fn path_suffix_matches(segments: Seq<Seq<char>>, suffix: Seq<Seq<char>>) -> bool {
    &&& suffix.len() > 0
    &&& segments.len() >= suffix.len()
    &&& forall|j: int|
        0 <= j < suffix.len() ==> segments[segments.len() - suffix.len() + j] == suffix[j]
}

/// The first type argument in a generic-argument list, if any.
pub open spec fn first_type_arg(args: Seq<GenericArg>) -> Option<TypeDescriptor>
    decreases args.len(),
{
    if args.len() == 0 {
        None
    } else {
        match args[0] {
            GenericArg::TypeArg(t) => Some(t),
            GenericArg::Opaque => first_type_arg(args.drop_first()),
        }
    }
}

/// Whether a descriptor is a nullable/optional container.  Optionality is
/// judged on the descriptor itself: a reference to an optional type is not
/// optional.
pub open spec fn is_optional_ty(t: TypeDescriptor) -> bool {
    match t {
        TypeDescriptor::Named(p) => path_last_is(p.segments.deep_view(), "Option"@),
        _ => false,
    }
}

/// Whether the path's last segment is the identifier `name`.
pub fn path_last_ident_is(segments: &Vec<String>, name: &str) -> (r: bool)
    ensures
        r == path_last_is(segments.deep_view(), name@),
{
    if segments.len() == 0 {
        false
    } else {
        string_eq_str(&segments[segments.len() - 1], name)
    }
}

/// Whether the path's segments end with the non-empty `suffix`.
#[verifier::loop_isolation(false)]
pub fn path_ends_with(segments: &Vec<String>, suffix: &Vec<String>) -> (r: bool)
    ensures
        r == path_suffix_matches(segments.deep_view(), suffix.deep_view()),
{
    if suffix.len() == 0 {
        return false;
    }
    if segments.len() < suffix.len() {
        return false;
    }
    let base: usize = segments.len() - suffix.len();
    let mut k: usize = 0;
    while k < suffix.len()
        invariant
            k <= suffix.len(),
            forall|j: int|
                0 <= j < k ==> segments.deep_view()[base + j] == suffix.deep_view()[j],
        decreases suffix.len() - k,
    {
        if !(segments[base + k] == suffix[k]) {
            proof {
                assert(segments.deep_view()[base + k as int] == segments@[base + k as int]@);
                assert(suffix.deep_view()[k as int] == suffix@[k as int]@);
            }
            return false;
        }
        k += 1;
    }
    true
}

/// The first type argument in a generic-argument list, if any; lifetimes and
/// const arguments are skipped.
#[verifier::loop_isolation(false)]
pub fn first_generic_arg(args: &Vec<GenericArg>) -> (r: Option<&TypeDescriptor>)
    ensures
        match r {
            Some(t) => first_type_arg(args@) == Some(*t),
            None => first_type_arg(args@) is None,
        },
{
    proof {
        assert(args@.skip(0) =~= args@);
    }
    let mut i: usize = 0;
    while i < args.len()
        invariant
            i <= args.len(),
            first_type_arg(args@) == first_type_arg(args@.skip(i as int)),
        decreases args.len() - i,
    {
        let ghost rest = args@.skip(i as int);
        proof {
            assert(rest[0] == args@[i as int]);
        }
        match &args[i] {
            GenericArg::TypeArg(t) => {
                return Some(t);
            },
            GenericArg::Opaque => {
                proof {
                    assert(rest.drop_first() =~= args@.skip(i as int + 1));
                }
            },
        }
        i += 1;
    }
    proof {
        assert(args@.skip(args.len() as int) =~= Seq::<GenericArg>::empty());
    }
    None
}

/// Whether the descriptor is a nullable/optional container.
pub fn ty_is_optional(t: &TypeDescriptor) -> (r: bool)
    ensures
        r == is_optional_ty(*t),
{
    match t {
        TypeDescriptor::Named(p) => path_last_ident_is(&p.segments, "Option"),
        _ => false,
    }
}

} // verus!
