use std::cell::Cell;

use reductool::JsonValue;
use reductool::GenericArg;
use reductool::TypeDescriptor;
use reductool::TypePath;
use reductool::DispatchError;
use reductool::ExecKind;
use reductool::FnInput;
use reductool::InvokeOutcome;
use reductool::ParamPattern;
use reductool::Registry;
use reductool::dispatch_tool;
use reductool::dispatch::DecodeError;
use reductool::package_tool;

fn named(segments: &[&str], args: Vec<GenericArg>) -> TypeDescriptor {
    TypeDescriptor::Named(TypePath {
        segments: segments.iter().map(|s| s.to_string()).collect(),
        args,
    })
}

fn param(name: &str, ty: TypeDescriptor) -> FnInput {
    FnInput::Param(ParamPattern::Name(name.to_string()), ty)
}

/// The demonstration catalog: `add(a: i32, b: i32)` computed immediately and
/// `greet(name: Option<String>)` computed through a deferred computation.
fn demo_registry() -> Registry {
    let adder = package_tool(
        "add",
        "Add two numbers",
        vec![
            param("a", named(&["i32"], vec![])),
            param("b", named(&["i32"], vec![])),
        ],
        ExecKind::Immediate,
    )
    .unwrap();
    let greeter = package_tool(
        "greet",
        "Greet a person by name",
        vec![param(
            "name",
            named(
                &["Option"],
                vec![GenericArg::TypeArg(named(&["String"], vec![]))],
            ),
        )],
        ExecKind::Deferred,
    )
    .unwrap();
    Registry::build(vec![adder, greeter]).unwrap()
}

fn int_of(v: &JsonValue) -> i64 {
    match v {
        JsonValue::Int(n) => *n,
        other => panic!("not an integer: {:?}", other),
    }
}

/// Runs tool `index` on its decoded record: the sum immediately, the
/// greeting by waiting on a deferred computation.
fn demo_runner(index: usize, rec: Vec<JsonValue>) -> InvokeOutcome {
    match index {
        0 => {
            let total = int_of(&rec[0]) + int_of(&rec[1]);
            InvokeOutcome::Success(JsonValue::Int(total))
        }
        1 => futures::executor::block_on(async move {
            let who = match &rec[0] {
                JsonValue::Str(s) => s.clone(),
                _ => "Guest".to_string(),
            };
            InvokeOutcome::Success(JsonValue::Str(format!("Hello, {}!", who)))
        }),
        _ => InvokeOutcome::DomainError("no such tool".to_string()),
    }
}

fn args_obj(fields: Vec<(&str, JsonValue)>) -> JsonValue {
    JsonValue::Obj(
        fields
            .into_iter()
            .map(|(k, v)| (k.to_string(), v))
            .collect(),
    )
}

#[test]
fn add_round_trip() {
    let reg = demo_registry();
    let args = args_obj(vec![("a", JsonValue::Int(2)), ("b", JsonValue::Int(3))]);
    let r = dispatch_tool(&reg, "add", &args, demo_runner);
    assert_eq!(r, Ok(JsonValue::Int(5)));
}

#[test]
fn greet_round_trip_with_name() {
    let reg = demo_registry();
    let args = args_obj(vec![("name", JsonValue::Str("Hady".to_string()))]);
    let r = dispatch_tool(&reg, "greet", &args, demo_runner);
    assert_eq!(r, Ok(JsonValue::Str("Hello, Hady!".to_string())));
}

#[test]
fn greet_round_trip_defaults_to_guest() {
    let reg = demo_registry();
    let args = args_obj(vec![]);
    let r = dispatch_tool(&reg, "greet", &args, demo_runner);
    assert_eq!(r, Ok(JsonValue::Str("Hello, Guest!".to_string())));
}

#[test]
fn unknown_tool_never_runs_anything() {
    let reg = demo_registry();
    let called = Cell::new(false);
    let runner = |_i: usize, _rec: Vec<JsonValue>| {
        called.set(true);
        InvokeOutcome::Success(JsonValue::Null)
    };
    let r = dispatch_tool(&reg, "nope", &args_obj(vec![]), runner);
    assert_eq!(r, Err(DispatchError::UnknownTool("nope".to_string())));
    assert!(!called.get());
}

#[test]
fn malformed_arguments_fail_decoding() {
    let reg = demo_registry();
    let called = Cell::new(false);
    let runner = |_i: usize, _rec: Vec<JsonValue>| {
        called.set(true);
        InvokeOutcome::Success(JsonValue::Null)
    };
    let args = args_obj(vec![
        ("a", JsonValue::Str("x".to_string())),
        ("b", JsonValue::Int(3)),
    ]);
    let r = dispatch_tool(&reg, "add", &args, runner);
    assert_eq!(
        r,
        Err(DispatchError::ArgumentDecode(DecodeError::TypeMismatch(
            "a".to_string()
        )))
    );
    assert!(!called.get());
}

#[test]
fn missing_required_field_fails_decoding() {
    let reg = demo_registry();
    let args = args_obj(vec![("a", JsonValue::Int(2))]);
    let r = dispatch_tool(&reg, "add", &args, demo_runner);
    assert_eq!(
        r,
        Err(DispatchError::ArgumentDecode(DecodeError::MissingField(
            "b".to_string()
        )))
    );
}

#[test]
fn non_object_arguments_fail_decoding() {
    let reg = demo_registry();
    let r = dispatch_tool(&reg, "add", &JsonValue::Int(7), demo_runner);
    assert_eq!(
        r,
        Err(DispatchError::ArgumentDecode(DecodeError::NotAnObject))
    );
}

#[test]
fn extra_fields_are_ignored() {
    let reg = demo_registry();
    let args = args_obj(vec![
        ("a", JsonValue::Int(2)),
        ("b", JsonValue::Int(3)),
        ("c", JsonValue::Str("ignored".to_string())),
    ]);
    let r = dispatch_tool(&reg, "add", &args, demo_runner);
    assert_eq!(r, Ok(JsonValue::Int(5)));
}

#[test]
fn tool_domain_error_propagates() {
    let reg = demo_registry();
    let runner = |_i: usize, _rec: Vec<JsonValue>| {
        InvokeOutcome::DomainError("downstream failed".to_string())
    };
    let args = args_obj(vec![("a", JsonValue::Int(1)), ("b", JsonValue::Int(1))]);
    let r = dispatch_tool(&reg, "add", &args, runner);
    assert_eq!(
        r,
        Err(DispatchError::ToolExecution("downstream failed".to_string()))
    );
}

#[test]
fn encode_failure_is_reported() {
    let reg = demo_registry();
    let runner = |_i: usize, _rec: Vec<JsonValue>| InvokeOutcome::EncodeFailure;
    let args = args_obj(vec![("a", JsonValue::Int(1)), ("b", JsonValue::Int(1))]);
    let r = dispatch_tool(&reg, "add", &args, runner);
    assert_eq!(r, Err(DispatchError::ResultEncode));
}

#[test]
fn deferred_and_immediate_tools_surface_identically() {
    let twice_now = package_tool(
        "twice_now",
        "",
        vec![param("x", named(&["i64"], vec![]))],
        ExecKind::Immediate,
    )
    .unwrap();
    let twice_later = package_tool(
        "twice_later",
        "",
        vec![param("x", named(&["i64"], vec![]))],
        ExecKind::Deferred,
    )
    .unwrap();
    let reg = Registry::build(vec![twice_now, twice_later]).unwrap();
    let runner = |i: usize, rec: Vec<JsonValue>| match i {
        0 => InvokeOutcome::Success(JsonValue::Int(2 * int_of(&rec[0]))),
        _ => futures::executor::block_on(async move {
            InvokeOutcome::Success(JsonValue::Int(2 * int_of(&rec[0])))
        }),
    };
    let args = args_obj(vec![("x", JsonValue::Int(21))]);
    let now = dispatch_tool(&reg, "twice_now", &args, runner);
    let later = dispatch_tool(&reg, "twice_later", &args, runner);
    assert_eq!(now, Ok(JsonValue::Int(42)));
    assert_eq!(now, later);
}

#[test]
fn optional_vec_and_tuple_values_decode() {
    let shapes = package_tool(
        "shapes",
        "",
        vec![
            param(
                "xs",
                named(
                    &["Vec"],
                    vec![GenericArg::TypeArg(named(&["i32"], vec![]))],
                ),
            ),
            param(
                "pair",
                TypeDescriptor::Tuple(vec![
                    named(&["i32"], vec![]),
                    named(&["String"], vec![]),
                ]),
            ),
        ],
        ExecKind::Immediate,
    )
    .unwrap();
    let reg = Registry::build(vec![shapes]).unwrap();
    let runner = |_i: usize, rec: Vec<JsonValue>| {
        let n = match &rec[0] {
            JsonValue::Arr(items) => items.len() as i64,
            _ => -1,
        };
        InvokeOutcome::Success(JsonValue::Int(n))
    };
    let good = args_obj(vec![
        (
            "xs",
            JsonValue::Arr(vec![JsonValue::Int(1), JsonValue::Int(2)]),
        ),
        (
            "pair",
            JsonValue::Arr(vec![JsonValue::Int(7), JsonValue::Str("x".to_string())]),
        ),
    ]);
    assert_eq!(dispatch_tool(&reg, "shapes", &good, runner), Ok(JsonValue::Int(2)));

    let short_pair = args_obj(vec![
        ("xs", JsonValue::Arr(vec![])),
        ("pair", JsonValue::Arr(vec![JsonValue::Int(7)])),
    ]);
    assert_eq!(
        dispatch_tool(&reg, "shapes", &short_pair, runner),
        Err(DispatchError::ArgumentDecode(DecodeError::TypeMismatch(
            "pair".to_string()
        )))
    );
}
