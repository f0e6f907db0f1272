//! Dispatch: locating a tool by name and invoking it with JSON arguments.
//!
//! A dispatch call looks the name up in the registry, decodes the argument
//! object against the tool's declared parameter shapes — a missing required
//! field or a value of the wrong JSON type is an argument-decode failure;
//! extra fields are ignored — and then runs the tool through the invocation
//! entry point the caller supplies, normalizing the outcome into one tagged
//! result shape.  Every failure surfaces as a [`DispatchError`]; nothing is
//! retried and no call shares state with another beyond the read-only
//! registry.

use vstd::prelude::*;
use crate::descriptor::TypeDescriptor;
use crate::descriptor::first_generic_arg;
use crate::descriptor::first_type_arg;
use crate::descriptor::is_optional_ty;
use crate::descriptor::path_last_ident_is;
use crate::descriptor::path_last_is;
use crate::descriptor::ty_is_optional;
use crate::json::Json;
use crate::json::JsonValue;
use crate::json::arr_view;
use crate::json::str_eq;
use crate::json::view_of;
use crate::registry::Registry;
use crate::registry::found_tool;
use crate::registry::is_first_tool_match;
use crate::registry::lemma_first_match_unique;
use crate::registry::tool_index;
use crate::tool::ToolDefinition;
use crate::schema::is_value_path;
use crate::schema::lemma_first_type_arg_decreases;
use crate::schema::primitive_json_type_name;
use crate::schema::primitive_kind;
use crate::tool::ToolParam;

verus! {

broadcast use vstd::std_specs::vec::group_vec_axioms;

/// Whether a JSON value conforms to the shape a type descriptor declares.
///
/// References are transparent.  Arrays require every element to conform;
/// tuples additionally fix the length.  A growable sequence with no
/// resolvable element type falls back to elements of strings, as its schema
/// advertises.  A nullable/optional container accepts `null` or a value of
/// the inner type; integer and floating primitives accept a JSON integer
/// (the only numbers the value model carries); the opaque dynamic value
/// type accepts anything; unresolvable shapes accept a string, as their
/// fallback schema advertises.
pub open spec fn matches_ty(v: Json, t: TypeDescriptor) -> bool
    decreases t, 1int,
{
    match t {
        TypeDescriptor::Reference(inner) => matches_ty(v, *inner),
        TypeDescriptor::FixedArray(inner) => v matches Json::Arr(items) && all_match(
            items,
            *inner,
        ),
        TypeDescriptor::Tuple(elems) => v matches Json::Arr(items) && items.len() == elems.len()
            && (forall|i: int| 0 <= i < elems.len() ==> matches_ty(items[i], #[trigger] elems[i])),
        TypeDescriptor::Named(p) => {
            if path_last_is(p.segments.deep_view(), "Vec"@) {
                match first_type_arg(p.args@) {
                    Some(inner) => {
                        proof {
                            lemma_first_type_arg_decreases(p.args@);
                            assert(decreases_to!(p.args => p.args@));
                        }
                        v matches Json::Arr(items) && all_match(items, inner)
                    },
                    None => v matches Json::Arr(items) && all_str(items),
                }
            } else if path_last_is(p.segments.deep_view(), "Option"@) {
                match first_type_arg(p.args@) {
                    Some(inner) => {
                        proof {
                            lemma_first_type_arg_decreases(p.args@);
                            assert(decreases_to!(p.args => p.args@));
                        }
                        v is Null || matches_ty(v, inner)
                    },
                    None => true,
                }
            } else {
                let prim = primitive_kind(p.segments.deep_view());
                if prim is Some {
                    if prim->Some_0 == "boolean"@ {
                        v is Bool
                    } else if prim->Some_0 == "string"@ {
                        v is Str
                    } else {
                        v is Int
                    }
                } else if is_value_path(p.segments.deep_view()) {
                    true
                } else {
                    v is Str
                }
            }
        },
        TypeDescriptor::Unknown => v is Str,
    }
}

/// Whether every element of an array conforms to one descriptor.
pub open spec fn all_match(items: Seq<Json>, t: TypeDescriptor) -> bool
    decreases t, 2int,
{
    forall|i: int| 0 <= i < items.len() ==> matches_ty(#[trigger] items[i], t)
}

/// Whether every element of an array is a string.
pub open spec fn all_str(items: Seq<Json>) -> bool {
    forall|i: int| 0 <= i < items.len() ==> #[trigger] items[i] is Str
}

/// Checks a JSON value against a type descriptor.
#[verifier::loop_isolation(false)]
#[verifier::rlimit(60)]
#[verifier::spinoff_prover]
pub fn check_value(v: &JsonValue, t: &TypeDescriptor) -> (r: bool)
    ensures
        r == matches_ty(v.deep_view(), *t),
    decreases *t, 1int,
{
    match t {
        TypeDescriptor::Reference(inner) => {
            let r = check_value(v, &**inner);
            proof {
                assert(matches_ty(v.deep_view(), *t) == matches_ty(v.deep_view(), **inner));
            }
            r
        },
        TypeDescriptor::FixedArray(inner) => {
            match v {
                JsonValue::Arr(items) => check_elements(items, &**inner),
                _ => false,
            }
        },
        TypeDescriptor::Tuple(elems) => {
            match v {
                JsonValue::Arr(items) => {
                    if items.len() != elems.len() {
                        return false;
                    }
                    let mut i: usize = 0;
                    while i < elems.len()
                        invariant
                            i <= elems.len(),
                            items@.len() == elems@.len(),
                            forall|j: int|
                                0 <= j < i ==> matches_ty(
                                    arr_view(items@)[j],
                                    #[trigger] elems@[j],
                                ),
                        decreases elems.len() - i,
                    {
                        proof {
                            vstd::std_specs::vec::axiom_vec_index_decreases(*elems, i as int);
                        }
                        if !check_value(&items[i], &elems[i]) {
                            proof {
                                assert(arr_view(items@)[i as int] == view_of(items@[i as int]));
                            }
                            return false;
                        }
                        i += 1;
                    }
                    true
                },
                _ => false,
            }
        },
        TypeDescriptor::Named(p) => {
            if path_last_ident_is(&p.segments, "Vec") {
                match first_generic_arg(&p.args) {
                    Some(inner) => {
                        proof {
                            lemma_first_type_arg_decreases(p.args@);
                            assert(decreases_to!(p.args => p.args@));
                        }
                        match v {
                            JsonValue::Arr(items) => check_elements(items, inner),
                            _ => false,
                        }
                    },
                    None => {
                        match v {
                            JsonValue::Arr(items) => check_string_elements(items),
                            _ => false,
                        }
                    },
                }
            } else if path_last_ident_is(&p.segments, "Option") {
                match first_generic_arg(&p.args) {
                    Some(inner) => {
                        proof {
                            lemma_first_type_arg_decreases(p.args@);
                            assert(decreases_to!(p.args => p.args@));
                        }
                        match v {
                            JsonValue::Null => true,
                            _ => check_value(v, inner),
                        }
                    },
                    None => true,
                }
            } else {
                match primitive_json_type_name(p) {
                    Some(prim) => {
                        if str_eq(prim, "boolean") {
                            matches!(v, JsonValue::Bool(_))
                        } else if str_eq(prim, "string") {
                            matches!(v, JsonValue::Str(_))
                        } else {
                            matches!(v, JsonValue::Int(_))
                        }
                    },
                    None => {
                        if is_value_path_exec(p) {
                            true
                        } else {
                            matches!(v, JsonValue::Str(_))
                        }
                    },
                }
            }
        },
        TypeDescriptor::Unknown => matches!(v, JsonValue::Str(_)),
    }
}

/// Checks every element of an array against one descriptor.
#[verifier::loop_isolation(false)]
fn check_elements(items: &Vec<JsonValue>, inner: &TypeDescriptor) -> (r: bool)
    ensures
        r == all_match(arr_view(items@), *inner),
    decreases *inner, 2int,
{
    let mut i: usize = 0;
    while i < items.len()
        invariant
            i <= items.len(),
            forall|j: int| 0 <= j < i ==> matches_ty(#[trigger] arr_view(items@)[j], *inner),
        decreases items.len() - i,
    {
        if !check_value(&items[i], inner) {
            proof {
                assert(arr_view(items@)[i as int] == view_of(items@[i as int]));
            }
            return false;
        }
        i += 1;
    }
    true
}

/// Checks that every element of an array is a string.
#[verifier::loop_isolation(false)]
fn check_string_elements(items: &Vec<JsonValue>) -> (r: bool)
    ensures
        r == all_str(arr_view(items@)),
{
    let mut i: usize = 0;
    while i < items.len()
        invariant
            i <= items.len(),
            forall|j: int| 0 <= j < i ==> #[trigger] arr_view(items@)[j] is Str,
        decreases items.len() - i,
    {
        let is_str = match &items[i] {
            JsonValue::Str(_) => true,
            _ => false,
        };
        if !is_str {
            proof {
                assert(arr_view(items@)[i as int] == view_of(items@[i as int]));
            }
            return false;
        }
        i += 1;
    }
    true
}

/// Whether the path denotes the opaque dynamic JSON value type.
fn is_value_path_exec(p: &crate::descriptor::TypePath) -> (r: bool)
    ensures
        r == is_value_path(p.segments.deep_view()),
{
    let mut suffix: Vec<String> = Vec::new();
    suffix.push("serde_json".to_owned());
    suffix.push("Value".to_owned());
    proof {
        assert(suffix.deep_view() =~= seq!["serde_json"@, "Value"@]);
    }
    crate::descriptor::path_ends_with(&p.segments, &suffix) || path_last_ident_is(
        &p.segments,
        "Value",
    )
}

/// Supplied JSON that does not satisfy a tool's argument shape.
#[derive(Debug, PartialEq, Eq)]
pub enum DecodeError {
    /// The arguments were not a JSON object.
    NotAnObject,
    /// This required field is missing.
    MissingField(String),
    /// This field's value has the wrong JSON type.
    TypeMismatch(String),
}

/// Why a dispatch call failed.
#[derive(Debug, PartialEq, Eq)]
pub enum DispatchError {
    /// No registered tool carries the requested name.
    UnknownTool(String),
    /// The argument object does not satisfy the tool's parameter shapes.
    ArgumentDecode(DecodeError),
    /// The tool itself failed; its condition is passed through unchanged.
    ToolExecution(String),
    /// The tool's result could not be encoded to JSON.
    ResultEncode,
}

/// What running a tool's underlying function produced.
#[derive(Debug, PartialEq, Eq)]
pub enum InvokeOutcome {
    /// The function returned this value, already encoded to JSON.
    Success(JsonValue),
    /// The function failed with this condition.
    DomainError(String),
    /// The function returned, but its result could not be encoded.
    EncodeFailure,
}

/// Whether one argument is satisfied: present with a conforming value, or
/// absent and optional.
pub open spec fn param_ok(a: Json, p: ToolParam) -> bool {
    if a.has_key(p.name@) {
        matches_ty(a.get(p.name@), p.ty)
    } else {
        is_optional_ty(p.ty)
    }
}

/// Whether the argument object satisfies every declared parameter.  Extra
/// fields never matter: decoding is permissive and ignores them.
pub open spec fn args_ok(a: Json, params: Seq<ToolParam>) -> bool {
    a is Obj && (forall|i: int| 0 <= i < params.len() ==> param_ok(a, #[trigger] params[i]))
}

/// The value one parameter decodes to: the supplied field, or `null` for an
/// absent optional parameter.
pub open spec fn decoded_value(a: Json, p: ToolParam) -> Json {
    if a.has_key(p.name@) {
        a.get(p.name@)
    } else {
        Json::Null
    }
}

/// The argument record: one decoded value per parameter, in declaration
/// order.
pub open spec fn decoded_record(a: Json, params: Seq<ToolParam>) -> Seq<Json> {
    Seq::new(
        params.len(),
        |i: int|
            if 0 <= i < params.len() {
                decoded_value(a, params[i])
            } else {
                Json::Null
            },
    )
}

/// Whether `i` is the first parameter the argument object fails.
pub open spec fn is_first_bad_param(a: Json, params: Seq<ToolParam>, i: int) -> bool {
    &&& 0 <= i < params.len()
    &&& !param_ok(a, params[i])
    &&& forall|j: int| 0 <= j < i ==> param_ok(a, #[trigger] params[j])
}

/// Whether a decode error reports exactly what went wrong: a non-object
/// argument value, or the first failing parameter, by name and by the way
/// it failed.
pub open spec fn decode_error_matches(e: DecodeError, a: Json, params: Seq<ToolParam>) -> bool {
    match e {
        DecodeError::NotAnObject => !(a is Obj),
        DecodeError::MissingField(s) => a is Obj && (exists|i: int|
            #[trigger] is_first_bad_param(a, params, i) && !a.has_key(params[i].name@) && s@
                == params[i].name@),
        DecodeError::TypeMismatch(s) => a is Obj && (exists|i: int|
            #[trigger] is_first_bad_param(a, params, i) && a.has_key(params[i].name@) && s@
                == params[i].name@),
    }
}

/// Decodes a JSON argument object into a tool's argument record.
///
/// Each declared parameter is matched by name: a present field must conform
/// to the parameter's type; an absent field is `null` when the parameter is
/// optional and a [`DecodeError::MissingField`] otherwise.  Unknown extra
/// fields are ignored.  The first failing parameter decides the error.
#[verifier::loop_isolation(false)]
pub fn decode_args(params: &Vec<ToolParam>, args: &JsonValue) -> (r: Result<
    Vec<JsonValue>,
    DecodeError,
>)
    ensures
        match r {
            Ok(rec) => args_ok(args.deep_view(), params@) && arr_view(rec@) == decoded_record(
                args.deep_view(),
                params@,
            ),
            Err(e) => !args_ok(args.deep_view(), params@) && decode_error_matches(
                e,
                args.deep_view(),
                params@,
            ),
        },
{
    let is_obj = match args {
        JsonValue::Obj(_) => true,
        _ => false,
    };
    if !is_obj {
        return Err(DecodeError::NotAnObject);
    }
    let ghost a = args.deep_view();
    let mut rec: Vec<JsonValue> = Vec::new();
    let mut i: usize = 0;
    while i < params.len()
        invariant
            i <= params.len(),
            rec@.len() == i,
            a is Obj,
            forall|j: int| 0 <= j < i ==> param_ok(a, #[trigger] params@[j]),
            forall|j: int| 0 <= j < i ==> view_of(#[trigger] rec@[j]) == decoded_value(a, params@[j]),
        decreases params.len() - i,
    {
        match args.get_field(params[i].name.as_str()) {
            Some(v) => {
                if check_value(v, &params[i].ty) {
                    rec.push(v.duplicate());
                } else {
                    proof {
                        assert(is_first_bad_param(a, params@, i as int));
                    }
                    return Err(DecodeError::TypeMismatch(params[i].name.clone()));
                }
            },
            None => {
                if ty_is_optional(&params[i].ty) {
                    rec.push(JsonValue::Null);
                } else {
                    proof {
                        assert(is_first_bad_param(a, params@, i as int));
                    }
                    return Err(DecodeError::MissingField(params[i].name.clone()));
                }
            },
        }
        i += 1;
    }
    proof {
        assert(arr_view(rec@) =~= decoded_record(a, params@));
    }
    Ok(rec)
}

/// The dispatch result an invocation outcome is normalized to.
pub open spec fn finish_spec(outcome: InvokeOutcome) -> Result<JsonValue, DispatchError> {
    match outcome {
        InvokeOutcome::Success(v) => Ok(v),
        InvokeOutcome::DomainError(m) => Err(DispatchError::ToolExecution(m)),
        InvokeOutcome::EncodeFailure => Err(DispatchError::ResultEncode),
    }
}

/// Normalizes what running the tool produced into the one result shape all
/// dispatch callers see, whether the tool computed immediately or through a
/// deferred computation: success carries the encoded value, a domain error
/// is passed through as [`DispatchError::ToolExecution`], and an encoding
/// failure becomes [`DispatchError::ResultEncode`].
pub fn finish_dispatch(outcome: InvokeOutcome) -> (r: Result<JsonValue, DispatchError>)
    ensures
        r == finish_spec(outcome),
{
    match outcome {
        InvokeOutcome::Success(v) => Ok(v),
        InvokeOutcome::DomainError(m) => Err(DispatchError::ToolExecution(m)),
        InvokeOutcome::EncodeFailure => Err(DispatchError::ResultEncode),
    }
}

/// Dispatches one call: looks `name` up, decodes `args` against the tool's
/// parameters, runs the tool through `runner`, and normalizes the outcome.
///
/// `runner` is the invocation entry point: handed the index of the located
/// tool and the decoded argument record, it runs the underlying function —
/// immediately or by waiting on a deferred computation — and reports what
/// happened.  The contract never reads the tool's execution kind: deferred
/// and immediate tools are indistinguishable here.  A name no tool carries
/// fails with [`DispatchError::UnknownTool`] before anything runs, and
/// arguments that do not satisfy the tool's shapes fail with
/// [`DispatchError::ArgumentDecode`] exactly as [`decode_args`] reports
/// them.
pub fn dispatch_tool<F: Fn(usize, Vec<JsonValue>) -> InvokeOutcome>(
    registry: &Registry,
    name: &str,
    args: &JsonValue,
    runner: F,
) -> (r: Result<JsonValue, DispatchError>)
    requires
        forall|i: usize, rec: Vec<JsonValue>| call_requires(runner, (i, rec)),
    ensures
        !found_tool(registry.tools@, name@) ==> (r matches Err(e) && e matches
            DispatchError::UnknownTool(s) && s@ == name@),
        found_tool(registry.tools@, name@) ==> ({
            let t = registry.tools@[tool_index(registry.tools@, name@)];
            &&& !args_ok(args.deep_view(), t.params@) ==> (r matches Err(e) && e matches
                DispatchError::ArgumentDecode(de) && decode_error_matches(
                de,
                args.deep_view(),
                t.params@,
            ))
            &&& args_ok(args.deep_view(), t.params@) ==> (exists|
                rec: Vec<JsonValue>,
                outcome: InvokeOutcome,
            |
                {
                    &&& arr_view(rec@) == decoded_record(args.deep_view(), t.params@)
                    &&& call_ensures(
                        runner,
                        (tool_index(registry.tools@, name@) as usize, rec),
                        outcome,
                    )
                    &&& r == finish_spec(outcome)
                })
        }),
{
    let found = registry.find_tool(name);
    match found {
        None => Err(DispatchError::UnknownTool(name.to_owned())),
        Some(i) => {
            proof {
                lemma_first_match_unique(
                    registry.tools@,
                    name@,
                    i as int,
                    tool_index(registry.tools@, name@),
                );
            }
            match decode_args(&registry.tools[i].params, args) {
                Err(e) => Err(DispatchError::ArgumentDecode(e)),
                Ok(rec) => {
                    let ghost rec_value = rec;
                    let outcome = runner(i, rec);
                    proof {
                        assert(call_ensures(runner, (i, rec_value), outcome));
                    }
                    finish_dispatch(outcome)
                },
            }
        },
    }
}

/// Deferred and immediate tools are indistinguishable to the dispatcher.
///
/// Two registries whose entries agree on names and parameters — however
/// their execution kinds, descriptions or schemas differ — make the same
/// dispatch decisions: the same lookup result, the same located index, the
/// same argument verdict and the same decoded record.  Together with
/// [`dispatch_tool`]'s contract, which never mentions the execution kind,
/// this pins down that both kinds surface as the same success or error
/// shape.
pub proof fn lemma_dispatch_ignores_kind(
    tools1: Seq<ToolDefinition>,
    tools2: Seq<ToolDefinition>,
    name: Seq<char>,
    a: Json,
)
    requires
        tools1.len() == tools2.len(),
        forall|i: int|
            0 <= i < tools1.len() ==> (#[trigger] tools1[i]).name@ == tools2[i].name@
                && tools1[i].params@ == tools2[i].params@,
    ensures
        found_tool(tools1, name) == found_tool(tools2, name),
        found_tool(tools1, name) ==> {
            let i1 = tool_index(tools1, name);
            let i2 = tool_index(tools2, name);
            &&& i1 == i2
            &&& args_ok(a, tools1[i1].params@) == args_ok(a, tools2[i2].params@)
            &&& decoded_record(a, tools1[i1].params@) == decoded_record(a, tools2[i2].params@)
        },
{
    assert forall|i: int|
        0 <= i < tools2.len() implies (#[trigger] tools2[i]).name@ == tools1[i].name@
        && tools2[i].params@ == tools1[i].params@ by {
        assert(tools1[i].name@ == tools2[i].name@ && tools1[i].params@ == tools2[i].params@);
    }
    assert forall|i: int|
        is_first_tool_match(tools1, name, i) == is_first_tool_match(tools2, name, i) by {
        if is_first_tool_match(tools1, name, i) {
            assert(forall|k: int| 0 <= k < i ==> (#[trigger] tools2[k]).name@ != name);
        }
        if is_first_tool_match(tools2, name, i) {
            assert(forall|k: int| 0 <= k < i ==> (#[trigger] tools1[k]).name@ != name);
        }
    }
    if found_tool(tools1, name) || found_tool(tools2, name) {
        if found_tool(tools1, name) {
            let w = choose|i: int| is_first_tool_match(tools1, name, i);
            assert(is_first_tool_match(tools2, name, w));
        } else {
            let w = choose|i: int| is_first_tool_match(tools2, name, i);
            assert(is_first_tool_match(tools1, name, w));
        }
        let i1 = tool_index(tools1, name);
        let i2 = tool_index(tools2, name);
        assert(is_first_tool_match(tools1, name, i1));
        assert(is_first_tool_match(tools2, name, i2));
        assert(is_first_tool_match(tools1, name, i2));
        lemma_first_match_unique(tools1, name, i1, i2);
    }
}


} // verus!
