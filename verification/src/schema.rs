//! Schema inference: a pure, total map from a type descriptor to the JSON
//! Schema fragment that describes values of that type.
//!
//! The rules, in priority order: references are transparent; fixed-size
//! arrays and growable sequences become `{"type":"array","items":..}`;
//! tuples become fixed-length array fragments carrying `minItems` and
//! `maxItems` equal to the arity; nullable/optional containers unwrap to the
//! inner type's fragment (optionality is recorded separately, never in the
//! fragment); primitives map to their JSON type name; the opaque dynamic
//! value type gets an unconstrained empty schema; everything else falls back
//! to `{"type":"string"}`.  The ghost [`schema_of`] states the map; the
//! executable [`ty_to_schema`] computes it and is proved to agree on every
//! descriptor.

use vstd::prelude::*;
use crate::descriptor::GenericArg;
use crate::descriptor::TypeDescriptor;
use crate::descriptor::TypePath;
use crate::descriptor::first_generic_arg;
use crate::descriptor::first_type_arg;
use crate::descriptor::path_ends_with;
use crate::descriptor::path_last_ident_is;
use crate::descriptor::path_last_is;
use crate::descriptor::path_suffix_matches;
use crate::json::Json;
use crate::json::JsonValue;
use crate::json::fields_get;
use crate::json::string_eq_str;
use crate::json::view_of;

verus! {

broadcast use vstd::std_specs::vec::group_vec_axioms;

/// Whether an identifier names one of the integer primitives.
pub open spec fn integer_ident(s: Seq<char>) -> bool {
    ||| s == "i8"@
    ||| s == "i16"@
    ||| s == "i32"@
    ||| s == "i64"@
    ||| s == "i128"@
    ||| s == "u8"@
    ||| s == "u16"@
    ||| s == "u32"@
    ||| s == "u64"@
    ||| s == "u128"@
    ||| s == "isize"@
    ||| s == "usize"@
}

/// The JSON type name a primitive path maps to, if it is one: integers to
/// `integer`, floats to `number`, `bool` to `boolean`, text to `string`.
pub open spec fn primitive_kind(segments: Seq<Seq<char>>) -> Option<Seq<char>> {
    if segments.len() == 0 {
        None
    } else {
        let last = segments.last();
        if integer_ident(last) {
            Some("integer"@)
        } else if last == "f32"@ || last == "f64"@ {
            Some("number"@)
        } else if last == "bool"@ {
            Some("boolean"@)
        } else if last == "String"@ || last == "str"@ {
            Some("string"@)
        } else {
            None
        }
    }
}

/// Whether a path denotes the opaque dynamic JSON value type.
pub open spec fn is_value_path(segments: Seq<Seq<char>>) -> bool {
    path_suffix_matches(segments, seq!["serde_json"@, "Value"@]) || path_last_is(
        segments,
        "Value"@,
    )
}

/// `{"type": <name>}`.
pub open spec fn type_schema(name: Seq<char>) -> Json {
    Json::Obj(seq![("type"@, Json::Str(name))])
}

/// `{"type": "array", "items": <items>}`.
pub open spec fn array_schema(items: Json) -> Json {
    Json::Obj(seq![("type"@, Json::Str("array"@)), ("items"@, items)])
}

/// The unconstrained schema `{}`: accepts anything.
pub open spec fn empty_schema() -> Json {
    Json::Obj(Seq::empty())
}

/// The fallback for unresolvable shapes: `{"type": "string"}`.
pub open spec fn fallback_schema() -> Json {
    type_schema("string"@)
}

/// A tuple arity as a JSON integer.  Arities beyond `i64::MAX` saturate;
/// no type of a real signature comes near that bound.
pub open spec fn arity_int(n: nat) -> int {
    if n > i64::MAX {
        i64::MAX as int
    } else {
        n as int
    }
}

/// The fixed-length array fragment of a tuple: per-position item fragments
/// plus `minItems`/`maxItems` equal to the arity.
pub open spec fn tuple_schema(items: Seq<Json>, n: int) -> Json {
    Json::Obj(
        seq![
            ("type"@, Json::Str("array"@)),
            ("items"@, Json::Arr(items)),
            ("minItems"@, Json::Int(n)),
            ("maxItems"@, Json::Int(n)),
        ],
    )
}

/// Within a generic-argument list, the first type argument sits below the
/// list in the well-founded order that `decreases` clauses use.
pub proof fn lemma_first_type_arg_decreases(args: Seq<GenericArg>)
    ensures
        first_type_arg(args) matches Some(inner) ==> decreases_to!(args => inner),
    decreases args.len(),
{
    if args.len() > 0 {
        match args[0] {
            GenericArg::TypeArg(inner) => {
                vstd::seq::axiom_seq_index_decreases(args, 0);
                assert(decreases_to!(args[0] => inner));
                assert(decreases_to!(args => inner));
            },
            GenericArg::Opaque => {
                lemma_first_type_arg_decreases(args.drop_first());
                if first_type_arg(args.drop_first()) is Some {
                    vstd::seq::axiom_seq_subrange_decreases(args, 1, args.len() as int);
                    assert(args.drop_first() == args.subrange(1, args.len() as int));
                }
            },
        }
    }
}

/// The schema fragment of a type descriptor: rule order as documented on
/// this module.  Total: every descriptor maps to some fragment.
pub open spec fn schema_of(t: TypeDescriptor) -> Json
    decreases t,
{
    match t {
        TypeDescriptor::Reference(inner) => schema_of(*inner),
        TypeDescriptor::FixedArray(inner) => array_schema(schema_of(*inner)),
        TypeDescriptor::Tuple(elems) => tuple_schema(
            Seq::new(
                elems.len() as nat,
                |i: int|
                    if 0 <= i < elems.len() {
                        schema_of(elems[i])
                    } else {
                        Json::Null
                    },
            ),
            arity_int(elems.len() as nat),
        ),
        TypeDescriptor::Named(p) => {
            if path_last_is(p.segments.deep_view(), "Vec"@) {
                match first_type_arg(p.args@) {
                    Some(inner) => {
                        proof {
                            lemma_first_type_arg_decreases(p.args@);
                            assert(decreases_to!(p.args => p.args@));
                        }
                        array_schema(schema_of(inner))
                    },
                    None => array_schema(fallback_schema()),
                }
            } else if path_last_is(p.segments.deep_view(), "Option"@) {
                match first_type_arg(p.args@) {
                    Some(inner) => {
                        proof {
                            lemma_first_type_arg_decreases(p.args@);
                            assert(decreases_to!(p.args => p.args@));
                        }
                        schema_of(inner)
                    },
                    None => empty_schema(),
                }
            } else {
                let prim = primitive_kind(p.segments.deep_view());
                if prim is Some {
                    type_schema(prim->Some_0)
                } else if is_value_path(p.segments.deep_view()) {
                    empty_schema()
                } else {
                    fallback_schema()
                }
            }
        },
        TypeDescriptor::Unknown => fallback_schema(),
    }
}

/// The JSON type name of a primitive path, or `None` when the path is not a
/// primitive.
pub fn primitive_json_type_name(path: &TypePath) -> (r: Option<&'static str>)
    ensures
        match r {
            Some(s) => primitive_kind(path.segments.deep_view()) == Some(s@),
            None => primitive_kind(path.segments.deep_view()) is None,
        },
{
    if path.segments.len() == 0 {
        return None;
    }
    let last = &path.segments[path.segments.len() - 1];
    proof {
        assert(path.segments.deep_view().last() == last@);
    }
    if string_eq_str(last, "i8") || string_eq_str(last, "i16") || string_eq_str(last, "i32")
        || string_eq_str(last, "i64") || string_eq_str(last, "i128") || string_eq_str(last, "u8")
        || string_eq_str(last, "u16") || string_eq_str(last, "u32") || string_eq_str(last, "u64")
        || string_eq_str(last, "u128") || string_eq_str(last, "isize") || string_eq_str(
        last,
        "usize",
    ) {
        Some("integer")
    } else if string_eq_str(last, "f32") || string_eq_str(last, "f64") {
        Some("number")
    } else if string_eq_str(last, "bool") {
        Some("boolean")
    } else if string_eq_str(last, "String") || string_eq_str(last, "str") {
        Some("string")
    } else {
        None
    }
}

/// `{}` as a value: the unconstrained schema.
fn make_empty_schema() -> (r: JsonValue)
    ensures
        r.deep_view() == empty_schema(),
{
    let r = JsonValue::Obj(Vec::new());
    proof {
        assert(view_of(r)->Obj_0 =~= Seq::<(Seq<char>, Json)>::empty());
    }
    r
}

/// `{"type": <name>}` as a value.
fn make_type_schema(name: &str) -> (r: JsonValue)
    ensures
        r.deep_view() == type_schema(name@),
{
    let mut fields: Vec<(String, JsonValue)> = Vec::new();
    let val = JsonValue::Str(name.to_owned());
    proof {
        assert(view_of(val) == Json::Str(name@));
    }
    fields.push(("type".to_owned(), val));
    let r = JsonValue::Obj(fields);
    proof {
        assert(view_of(r)->Obj_0 =~= type_schema(name@)->Obj_0);
    }
    r
}

/// `{"type": "array", "items": <items>}` as a value.
fn make_array_schema(items: JsonValue) -> (r: JsonValue)
    ensures
        r.deep_view() == array_schema(items.deep_view()),
{
    let ghost items_view = items.deep_view();
    let mut fields: Vec<(String, JsonValue)> = Vec::new();
    let tag = JsonValue::Str("array".to_owned());
    proof {
        assert(view_of(tag) == Json::Str("array"@));
    }
    fields.push(("type".to_owned(), tag));
    fields.push(("items".to_owned(), items));
    let r = JsonValue::Obj(fields);
    proof {
        assert(view_of(r)->Obj_0 =~= array_schema(items_view)->Obj_0);
    }
    r
}

/// Computes the schema fragment of a type descriptor.  Pure and total: it
/// never fails, and its result is pinned to [`schema_of`], so repeated calls
/// return identical fragments.
#[verifier::loop_isolation(false)]
pub fn ty_to_schema(ty: &TypeDescriptor) -> (r: JsonValue)
    ensures
        r.deep_view() == schema_of(*ty),
    decreases *ty,
{
    match ty {
        TypeDescriptor::Reference(inner) => {
            let r = ty_to_schema(&**inner);
            proof {
                assert(schema_of(*ty) == schema_of(**inner));
            }
            r
        },
        TypeDescriptor::FixedArray(inner) => {
            let item = ty_to_schema(inner);
            make_array_schema(item)
        },
        TypeDescriptor::Tuple(elems) => {
            let ghost spec_items = schema_of(*ty)->Obj_0[1].1->Arr_0;
            let mut items: Vec<JsonValue> = Vec::new();
            let mut i: usize = 0;
            while i < elems.len()
                invariant
                    i <= elems.len(),
                    items@.len() == i,
                    forall|j: int| 0 <= j < i ==> items@[j].deep_view() == schema_of(elems[j]),
                decreases elems.len() - i,
            {
                proof {
                    vstd::std_specs::vec::axiom_vec_index_decreases(*elems, i as int);
                }
                let item = ty_to_schema(&elems[i]);
                items.push(item);
                i += 1;
            }
            let n_us: usize = elems.len();
            let n: i64 = if n_us as u64 > i64::MAX as u64 {
                i64::MAX
            } else {
                n_us as i64
            };
            proof {
                assert(n as int == arity_int(elems@.len()));
            }
            let items_value = JsonValue::Arr(items);
            proof {
                assert(view_of(items_value)->Arr_0 =~= spec_items);
            }
            let mut fields: Vec<(String, JsonValue)> = Vec::new();
            let tag = JsonValue::Str("array".to_owned());
            let min_value = JsonValue::Int(n);
            let max_value = JsonValue::Int(n);
            proof {
                assert(view_of(tag) == Json::Str("array"@));
                assert(view_of(min_value) == Json::Int(n as int));
                assert(view_of(max_value) == Json::Int(n as int));
            }
            fields.push(("type".to_owned(), tag));
            fields.push(("items".to_owned(), items_value));
            fields.push(("minItems".to_owned(), min_value));
            fields.push(("maxItems".to_owned(), max_value));
            let r = JsonValue::Obj(fields);
            proof {
                assert(view_of(r)->Obj_0 =~= schema_of(*ty)->Obj_0);
            }
            r
        },
        TypeDescriptor::Named(p) => {
            if path_last_ident_is(&p.segments, "Vec") {
                match first_generic_arg(&p.args) {
                    Some(inner) => {
                        proof {
                            lemma_first_type_arg_decreases(p.args@);
                            assert(decreases_to!(p.args => p.args@));
                        }
                        let item = ty_to_schema(inner);
                        make_array_schema(item)
                    },
                    None => make_array_schema(make_type_schema("string")),
                }
            } else if path_last_ident_is(&p.segments, "Option") {
                match first_generic_arg(&p.args) {
                    Some(inner) => {
                        proof {
                            lemma_first_type_arg_decreases(p.args@);
                            assert(decreases_to!(p.args => p.args@));
                        }
                        ty_to_schema(inner)
                    },
                    None => make_empty_schema(),
                }
            } else {
                let prim = primitive_json_type_name(p);
                match prim {
                    Some(name) => make_type_schema(name),
                    None => {
                        let mut suffix: Vec<String> = Vec::new();
                        suffix.push("serde_json".to_owned());
                        suffix.push("Value".to_owned());
                        proof {
                            assert(suffix.deep_view() =~= seq!["serde_json"@, "Value"@]);
                        }
                        if path_ends_with(&p.segments, &suffix) || path_last_ident_is(
                            &p.segments,
                            "Value",
                        ) {
                            make_empty_schema()
                        } else {
                            make_type_schema("string")
                        }
                    },
                }
            }
        },
        TypeDescriptor::Unknown => make_type_schema("string"),
    }
}

/// Schema inference is deterministic and total.  [`ty_to_schema`] has no
/// precondition and always returns, and any two results computed for the
/// same descriptor are the identical fragment: each equals `schema_of(t)`.
pub proof fn lemma_schema_inference_deterministic(
    r1: JsonValue,
    r2: JsonValue,
    t: TypeDescriptor,
)
    requires
        r1.deep_view() == schema_of(t),
        r2.deep_view() == schema_of(t),
    ensures
        r1.deep_view() == r2.deep_view(),
{
}

/// Optionality is not double-encoded: the fragment of a nullable/optional
/// container of `T` is exactly the fragment of `T`.  (That an optional
/// parameter's name is left out of `required` is stated with packaging.)
pub proof fn lemma_optional_not_double_encoded(p: TypePath, inner: TypeDescriptor)
    requires
        path_last_is(p.segments.deep_view(), "Option"@),
        first_type_arg(p.args@) == Some(inner),
    ensures
        schema_of(TypeDescriptor::Named(p)) == schema_of(inner),
{
    reveal_strlit("Option");
    reveal_strlit("Vec");
    assert("Option"@.len() == 6 && "Vec"@.len() == 3);
    assert(!path_last_is(p.segments.deep_view(), "Vec"@));
}

/// Tuple fragments always carry `minItems` and `maxItems` equal to the
/// tuple's arity, and `items` holding exactly one fragment per position.
pub proof fn lemma_tuple_schema_extent(elems: Vec<TypeDescriptor>)
    requires
        elems@.len() <= i64::MAX,
    ensures
        schema_of(TypeDescriptor::Tuple(elems)).get("minItems"@) == Json::Int(
            elems@.len() as int,
        ),
        schema_of(TypeDescriptor::Tuple(elems)).get("maxItems"@) == Json::Int(
            elems@.len() as int,
        ),
        schema_of(TypeDescriptor::Tuple(elems)).get("items"@) matches Json::Arr(items)
            && items.len() == elems@.len(),
{
    reveal_strlit("type");
    reveal_strlit("items");
    reveal_strlit("minItems");
    reveal_strlit("maxItems");
    reveal_with_fuel(fields_get, 5);
    assert("type"@.len() == 4 && "items"@.len() == 5 && "minItems"@.len() == 8 && "maxItems"@.len()
        == 8);
    assert("minItems"@[1] == 'i' && "maxItems"@[1] == 'a');
    let s = schema_of(TypeDescriptor::Tuple(elems))->Obj_0;
    assert(s.len() == 4);
    assert(s.drop_first()[0] == s[1] && s.drop_first().drop_first()[0] == s[2]
        && s.drop_first().drop_first().drop_first()[0] == s[3]);
}

} // verus!
