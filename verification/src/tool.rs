//! Tool packaging: turning one function's signature description into an
//! immutable tool definition.
//!
//! Packaging validates the parameter list (every parameter must be a simple
//! named binding, and no receiver may appear — violations are build-time
//! rejections reported per offending parameter), computes each parameter's
//! schema fragment, collects the names of the non-optional parameters into
//! the `required` list, and assembles the self-contained
//! `{name, description, parameters}` schema object.

use vstd::prelude::*;
use vstd::string::StringExecFns;
use crate::descriptor::TypeDescriptor;
use crate::descriptor::is_optional_ty;
use crate::descriptor::ty_is_optional;
use crate::json::Json;
use crate::json::JsonValue;
use crate::json::arr_view;
use crate::json::view_of;
use crate::schema::schema_of;
use crate::schema::ty_to_schema;

verus! {

broadcast use vstd::std_specs::vec::group_vec_axioms;

/// How a packaged function yields its result: immediately, or through a
/// deferred computation that must complete first.  Packaging normalizes both
/// behind one invocation interface, so the dispatcher never branches on it.
#[derive(Clone, Copy, Debug, PartialEq, Eq)]
pub enum ExecKind {
    Immediate,
    Deferred,
}

/// How one parameter is bound in the function's source signature.
pub enum ParamPattern {
    /// A simple identifier binding, `arg: T`: the only supported form.
    Name(String),
    /// Any other pattern (a discard, a tuple or struct destructuring).
    Destructuring,
}

/// One input of the function's signature, as the source declares it.
pub enum FnInput {
    /// An ordinary typed parameter.
    Param(ParamPattern, TypeDescriptor),
    /// An implicit receiver (`self` in some form).
    Receiver,
}

/// One accepted parameter: its name and its type descriptor.
pub struct ToolParam {
    pub name: String,
    pub ty: TypeDescriptor,
}

/// Why one input was rejected at build time.
#[derive(Clone, Copy, Debug, PartialEq, Eq)]
pub enum BuildErrorKind {
    /// The parameter is bound by a pattern, not a simple identifier.
    UnsupportedPattern,
    /// The function takes an implicit receiver and cannot be called freely.
    ReceiverParam,
}

/// A build-time rejection: which input (by position) and why.
#[derive(Clone, Copy, Debug, PartialEq, Eq)]
pub struct BuildError {
    pub index: usize,
    pub kind: BuildErrorKind,
}

/// An immutable packaged tool: its name, its documentation, its accepted
/// parameters in declaration order, and its self-contained schema object.
pub struct ToolDefinition {
    pub name: String,
    pub description: String,
    pub params: Vec<ToolParam>,
    pub json_schema: JsonValue,
    pub kind: ExecKind,
}

/// Whether an input survives packaging: a typed parameter bound by name.
pub open spec fn input_accepted(inp: FnInput) -> bool {
    inp matches FnInput::Param(ParamPattern::Name(_), _)
}

/// The rejection an unacceptable input is reported with.
pub open spec fn rejection_kind(inp: FnInput) -> BuildErrorKind {
    match inp {
        FnInput::Receiver => BuildErrorKind::ReceiverParam,
        _ => BuildErrorKind::UnsupportedPattern,
    }
}

/// Documentation lines joined with a newline between each adjacent pair.
pub open spec fn joined_doc(lines: Seq<Seq<char>>) -> Seq<char>
    decreases lines.len(),
{
    if lines.len() == 0 {
        Seq::empty()
    } else if lines.len() == 1 {
        lines[0]
    } else {
        joined_doc(lines.drop_last()) + "\n"@ + lines.last()
    }
}

/// The `properties` object: one field per parameter, in declaration order,
/// carrying the parameter's schema fragment.
pub open spec fn properties_of(params: Seq<ToolParam>) -> Seq<(Seq<char>, Json)> {
    Seq::new(
        params.len(),
        |i: int|
            if 0 <= i < params.len() {
                (params[i].name@, schema_of(params[i].ty))
            } else {
                (Seq::empty(), Json::Null)
            },
    )
}

/// The `required` list: the names of the non-optional parameters, in
/// declaration order.
pub open spec fn required_of(params: Seq<ToolParam>) -> Seq<Json>
    decreases params.len(),
{
    if params.len() == 0 {
        Seq::empty()
    } else if is_optional_ty(params.last().ty) {
        required_of(params.drop_last())
    } else {
        required_of(params.drop_last()).push(Json::Str(params.last().name@))
    }
}

/// The `parameters` object: `{"type": "object", "properties": .., "required": ..}`.
pub open spec fn parameters_schema(params: Seq<ToolParam>) -> Json {
    Json::Obj(
        seq![
            ("type"@, Json::Str("object"@)),
            ("properties"@, Json::Obj(properties_of(params))),
            ("required"@, Json::Arr(required_of(params))),
        ],
    )
}

/// The self-contained schema object of one tool.
pub open spec fn tool_schema(name: Seq<char>, description: Seq<char>, params: Seq<ToolParam>) -> Json {
    Json::Obj(
        seq![
            ("name"@, Json::Str(name)),
            ("description"@, Json::Str(description)),
            ("parameters"@, parameters_schema(params)),
        ],
    )
}

/// Joins a function's documentation lines with newlines; empty when there
/// are none.
#[verifier::loop_isolation(false)]
pub fn collect_doc(lines: &Vec<String>) -> (r: String)
    ensures
        r@ == joined_doc(lines.deep_view()),
{
    let mut acc = String::new();
    let mut i: usize = 0;
    while i < lines.len()
        invariant
            i <= lines.len(),
            acc@ == joined_doc(lines.deep_view().take(i as int)),
        decreases lines.len() - i,
    {
        if i > 0 {
            acc.append("\n");
        }
        acc.append(lines[i].as_str());
        proof {
            let lv = lines.deep_view();
            assert(lv.take(i as int + 1).drop_last() =~= lv.take(i as int));
            assert(lv.take(i as int + 1).last() == lv[i as int]);
            assert(lv[i as int] == lines@[i as int]@);
            if i > 0 {
                assert(acc@ =~= joined_doc(lv.take(i as int)) + "\n"@ + lv[i as int]);
            }
        }
        i += 1;
    }
    proof {
        assert(lines.deep_view().take(lines.len() as int) =~= lines.deep_view());
    }
    acc
}

/// Builds the `{name, description, parameters}` schema object of one tool.
#[verifier::loop_isolation(false)]
pub fn build_tool_schema(name: &str, description: &str, params: &Vec<ToolParam>) -> (r: JsonValue)
    ensures
        r.deep_view() == tool_schema(name@, description@, params@),
{
    let mut props: Vec<(String, JsonValue)> = Vec::new();
    let mut i: usize = 0;
    while i < params.len()
        invariant
            i <= params.len(),
            props@.len() == i,
            forall|j: int|
                0 <= j < i ==> props@[j].0@ == params@[j].name@ && view_of(props@[j].1)
                    == schema_of(params@[j].ty),
        decreases params.len() - i,
    {
        let frag = ty_to_schema(&params[i].ty);
        props.push((params[i].name.clone(), frag));
        i += 1;
    }
    let props_value = JsonValue::Obj(props);
    proof {
        assert(view_of(props_value)->Obj_0 =~= properties_of(params@));
    }

    let mut req: Vec<JsonValue> = Vec::new();
    let mut k: usize = 0;
    while k < params.len()
        invariant
            k <= params.len(),
            arr_view(req@) == required_of(params@.take(k as int)),
        decreases params.len() - k,
    {
        proof {
            assert(params@.take(k as int + 1).drop_last() =~= params@.take(k as int));
            assert(params@.take(k as int + 1).last() == params@[k as int]);
        }
        if !ty_is_optional(&params[k].ty) {
            let name_value = JsonValue::Str(params[k].name.clone());
            proof {
                assert(view_of(name_value) == Json::Str(params@[k as int].name@));
            }
            req.push(name_value);
            proof {
                assert(arr_view(req@) =~= required_of(params@.take(k as int + 1)));
            }
        }
        k += 1;
    }
    proof {
        assert(params@.take(params@.len() as int) =~= params@);
    }
    let req_value = JsonValue::Arr(req);

    let mut param_fields: Vec<(String, JsonValue)> = Vec::new();
    let object_tag = JsonValue::Str("object".to_owned());
    proof {
        assert(view_of(object_tag) == Json::Str("object"@));
        assert(view_of(req_value) == Json::Arr(required_of(params@)));
    }
    param_fields.push(("type".to_owned(), object_tag));
    param_fields.push(("properties".to_owned(), props_value));
    param_fields.push(("required".to_owned(), req_value));
    let parameters_value = JsonValue::Obj(param_fields);
    proof {
        assert(view_of(parameters_value)->Obj_0 =~= parameters_schema(params@)->Obj_0);
    }

    let mut fields: Vec<(String, JsonValue)> = Vec::new();
    let name_value = JsonValue::Str(name.to_owned());
    let desc_value = JsonValue::Str(description.to_owned());
    proof {
        assert(view_of(name_value) == Json::Str(name@));
        assert(view_of(desc_value) == Json::Str(description@));
    }
    fields.push(("name".to_owned(), name_value));
    fields.push(("description".to_owned(), desc_value));
    fields.push(("parameters".to_owned(), parameters_value));
    let r = JsonValue::Obj(fields);
    proof {
        assert(view_of(r)->Obj_0 =~= tool_schema(name@, description@, params@)->Obj_0);
    }
    r
}

/// The build errors a parameter list is rejected with: one per input that
/// is not a simple named parameter, by position and in order.
pub open spec fn build_errors_spec(inputs: Seq<FnInput>) -> Seq<BuildError>
    decreases inputs.len(),
{
    if inputs.len() == 0 {
        Seq::empty()
    } else {
        let prefix = build_errors_spec(inputs.drop_last());
        if input_accepted(inputs.last()) {
            prefix
        } else {
            prefix.push(
                BuildError {
                    index: (inputs.len() - 1) as usize,
                    kind: rejection_kind(inputs.last()),
                },
            )
        }
    }
}

/// A parameter list draws no build error exactly when every input is a
/// simple named parameter.
pub proof fn lemma_no_build_errors(inputs: Seq<FnInput>)
    ensures
        build_errors_spec(inputs).len() == 0 <==> (forall|i: int|
            0 <= i < inputs.len() ==> input_accepted(#[trigger] inputs[i])),
    decreases inputs.len(),
{
    if inputs.len() > 0 {
        lemma_no_build_errors(inputs.drop_last());
        assert(forall|i: int|
            0 <= i < inputs.len() - 1 ==> #[trigger] inputs[i] == inputs.drop_last()[i]);
    }
}

/// Collects the build errors of a parameter list.
#[verifier::loop_isolation(false)]
fn validate_inputs(inputs: &Vec<FnInput>) -> (errs: Vec<BuildError>)
    ensures
        errs@ == build_errors_spec(inputs@),
{
    let mut errs: Vec<BuildError> = Vec::new();
    let mut i: usize = 0;
    while i < inputs.len()
        invariant
            i <= inputs.len(),
            errs@ == build_errors_spec(inputs@.take(i as int)),
        decreases inputs.len() - i,
    {
        proof {
            assert(inputs@.take(i as int + 1).drop_last() =~= inputs@.take(i as int));
            assert(inputs@.take(i as int + 1).last() == inputs@[i as int]);
        }
        match &inputs[i] {
            FnInput::Param(ParamPattern::Name(_), _) => {
            },
            FnInput::Param(ParamPattern::Destructuring, _) => {
                errs.push(BuildError { index: i, kind: BuildErrorKind::UnsupportedPattern });
            },
            FnInput::Receiver => {
                errs.push(BuildError { index: i, kind: BuildErrorKind::ReceiverParam });
            },
        }
        i += 1;
    }
    proof {
        assert(inputs@.take(inputs@.len() as int) =~= inputs@);
    }
    errs
}

/// Packages one function into a tool definition, or rejects it.
///
/// Every input must be a simple named parameter: a pattern binding or an
/// implicit receiver is a build-time failure, and all offending inputs are
/// reported together, by position and in order.  Nothing is produced for a
/// rejected function.
#[verifier::loop_isolation(false)]
#[verifier::rlimit(30)]
pub fn package_tool(name: &str, description: &str, inputs: Vec<FnInput>, kind: ExecKind) -> (r:
    Result<ToolDefinition, Vec<BuildError>>)
    ensures
        match r {
            Ok(def) => {
                &&& forall|i: int| 0 <= i < inputs@.len() ==> input_accepted(#[trigger] inputs@[i])
                &&& def.name@ == name@
                &&& def.description@ == description@
                &&& def.kind == kind
                &&& def.params@.len() == inputs@.len()
                &&& forall|i: int|
                    0 <= i < inputs@.len() ==> #[trigger] inputs@[i] == FnInput::Param(
                        ParamPattern::Name(def.params@[i].name),
                        def.params@[i].ty,
                    )
                &&& def.json_schema.deep_view() == tool_schema(name@, description@, def.params@)
            },
            Err(errs) => {
                &&& errs@.len() > 0
                &&& errs@ == build_errors_spec(inputs@)
            },
        },
{
    let errs = validate_inputs(&inputs);
    proof {
        lemma_no_build_errors(inputs@);
    }
    if errs.len() > 0 {
        return Err(errs);
    }
    let ghost orig = inputs@;
    let mut rest = inputs;
    let total = rest.len();
    proof {
        assert(orig.len() == total);
    }
    let mut params: Vec<ToolParam> = Vec::new();
    let mut i: usize = 0;
    while rest.len() > 0
        invariant
            orig.len() == total,
            i + rest@.len() == orig.len(),
            rest@ == orig.skip(i as int),
            params@.len() == i,
            forall|j: int| 0 <= j < orig.len() ==> input_accepted(#[trigger] orig[j]),
            forall|j: int|
                0 <= j < i ==> #[trigger] orig[j] == FnInput::Param(
                    ParamPattern::Name(params@[j].name),
                    params@[j].ty,
                ),
        decreases rest@.len(),
    {
        proof {
            assert(rest@[0] == orig[i as int]);
            assert(rest@.remove(0) =~= orig.skip(i as int + 1));
        }
        let inp = rest.remove(0);
        match inp {
            FnInput::Param(ParamPattern::Name(param_name), ty) => {
                params.push(ToolParam { name: param_name, ty });
            },
            FnInput::Param(ParamPattern::Destructuring, _) => {
                proof {
                    assert(!input_accepted(orig[i as int]));
                }
            },
            FnInput::Receiver => {
                proof {
                    assert(!input_accepted(orig[i as int]));
                }
            },
        }
        i += 1;
    }
    let json_schema = build_tool_schema(name, description, &params);
    let def = ToolDefinition {
        name: name.to_owned(),
        description: description.to_owned(),
        params,
        json_schema,
        kind,
    };
    Ok(def)
}

/// Which names the `required` list holds: exactly the names of the
/// non-optional parameters.
pub proof fn lemma_required_characterization(params: Seq<ToolParam>, n: Seq<char>)
    ensures
        required_of(params).contains(Json::Str(n)) <==> exists|j: int|
            0 <= j < params.len() && !is_optional_ty(params[j].ty) && params[j].name@ == n,
    decreases params.len(),
{
    if params.len() > 0 {
        lemma_required_characterization(params.drop_last(), n);
        let prefix = params.drop_last();
        let last_index = params.len() - 1;
        if required_of(params).contains(Json::Str(n)) {
            if !is_optional_ty(params.last().ty) && params.last().name@ == n {
                assert(params[last_index as int].name@ == n);
            } else {
                assert(required_of(prefix).contains(Json::Str(n)));
                let j = choose|j: int|
                    0 <= j < prefix.len() && !is_optional_ty(prefix[j].ty) && prefix[j].name@ == n;
                assert(params[j] == prefix[j]);
            }
        }
        if exists|j: int|
            0 <= j < params.len() && !is_optional_ty(params[j].ty) && params[j].name@ == n {
            let j = choose|j: int|
                0 <= j < params.len() && !is_optional_ty(params[j].ty) && params[j].name@ == n;
            if j < last_index {
                assert(prefix[j] == params[j]);
                assert(required_of(prefix).contains(Json::Str(n)));
                if is_optional_ty(params.last().ty) {
                    assert(required_of(params).contains(Json::Str(n)));
                } else {
                    let w = choose|w: int|
                        0 <= w < required_of(prefix).len() && required_of(prefix)[w] == Json::Str(n);
                    assert(required_of(params)[w] == Json::Str(n));
                }
            } else {
                assert(!is_optional_ty(params.last().ty));
                assert(required_of(params).last() == Json::Str(n));
            }
        }
    }
}

/// Optionality is not double-encoded: a nullable/optional parameter's name
/// is absent from the `required` list, as long as no other parameter of the
/// tool reuses its name.
pub proof fn lemma_optional_param_not_required(params: Seq<ToolParam>, i: int)
    requires
        0 <= i < params.len(),
        is_optional_ty(params[i].ty),
        forall|j1: int, j2: int| 0 <= j1 < j2 < params.len() ==> params[j1].name@ != params[j2].name@,
    ensures
        !required_of(params).contains(Json::Str(params[i].name@)),
{
    lemma_required_characterization(params, params[i].name@);
    if required_of(params).contains(Json::Str(params[i].name@)) {
        let j = choose|j: int|
            0 <= j < params.len() && !is_optional_ty(params[j].ty) && params[j].name@
                == params[i].name@;
        assert(j != i);
    }
}

} // verus!
