use reductool::JsonValue;
use reductool::GenericArg;
use reductool::TypeDescriptor;
use reductool::TypePath;
use reductool::ExecKind;
use reductool::FnInput;
use reductool::ParamPattern;
use reductool::Registry;
use reductool::package_tool;
use reductool::tool::BuildErrorKind;
use reductool::tool::collect_doc;
use reductool::registry::RegistryError;

fn named(segments: &[&str], args: Vec<GenericArg>) -> TypeDescriptor {
    TypeDescriptor::Named(TypePath {
        segments: segments.iter().map(|s| s.to_string()).collect(),
        args,
    })
}

fn param(name: &str, ty: TypeDescriptor) -> FnInput {
    FnInput::Param(ParamPattern::Name(name.to_string()), ty)
}

fn type_obj(name: &str) -> JsonValue {
    JsonValue::Obj(vec![("type".to_string(), JsonValue::Str(name.to_string()))])
}

#[test]
fn add_tool_schema_matches_example() {
    let def = package_tool(
        "add",
        "Add two numbers",
        vec![
            param("a", named(&["i32"], vec![])),
            param("b", named(&["i32"], vec![])),
        ],
        ExecKind::Immediate,
    )
    .unwrap();
    let expected = JsonValue::Obj(vec![
        ("name".to_string(), JsonValue::Str("add".to_string())),
        (
            "description".to_string(),
            JsonValue::Str("Add two numbers".to_string()),
        ),
        (
            "parameters".to_string(),
            JsonValue::Obj(vec![
                ("type".to_string(), JsonValue::Str("object".to_string())),
                (
                    "properties".to_string(),
                    JsonValue::Obj(vec![
                        ("a".to_string(), type_obj("integer")),
                        ("b".to_string(), type_obj("integer")),
                    ]),
                ),
                (
                    "required".to_string(),
                    JsonValue::Arr(vec![
                        JsonValue::Str("a".to_string()),
                        JsonValue::Str("b".to_string()),
                    ]),
                ),
            ]),
        ),
    ]);
    assert_eq!(def.json_schema, expected);
    assert_eq!(def.name, "add");
    assert_eq!(def.description, "Add two numbers");
}

#[test]
fn optional_parameter_is_not_required() {
    let def = package_tool(
        "greet",
        "Greet a person by name",
        vec![param(
            "name",
            named(
                &["Option"],
                vec![GenericArg::TypeArg(named(&["String"], vec![]))],
            ),
        )],
        ExecKind::Immediate,
    )
    .unwrap();
    let expected_params = JsonValue::Obj(vec![
        ("type".to_string(), JsonValue::Str("object".to_string())),
        (
            "properties".to_string(),
            JsonValue::Obj(vec![("name".to_string(), type_obj("string"))]),
        ),
        ("required".to_string(), JsonValue::Arr(vec![])),
    ]);
    match &def.json_schema {
        JsonValue::Obj(fields) => assert_eq!(fields[2].1, expected_params),
        other => panic!("schema is not an object: {:?}", other),
    }
}

#[test]
fn doc_lines_join_with_newlines() {
    assert_eq!(collect_doc(&vec![]), "");
    assert_eq!(collect_doc(&vec![" one".to_string()]), " one");
    assert_eq!(
        collect_doc(&vec![" one".to_string(), " two".to_string()]),
        " one\n two"
    );
}

#[test]
fn destructuring_parameter_is_rejected() {
    let r = package_tool(
        "bad",
        "",
        vec![
            param("x", named(&["i32"], vec![])),
            FnInput::Param(ParamPattern::Destructuring, named(&["i32"], vec![])),
        ],
        ExecKind::Immediate,
    );
    let errs = r.err().expect("packaging must fail");
    assert_eq!(errs.len(), 1);
    assert_eq!(errs[0].index, 1);
    assert_eq!(errs[0].kind, BuildErrorKind::UnsupportedPattern);
}

#[test]
fn receiver_is_rejected() {
    let r = package_tool(
        "method",
        "",
        vec![FnInput::Receiver, param("x", named(&["i32"], vec![]))],
        ExecKind::Immediate,
    );
    let errs = r.err().expect("packaging must fail");
    assert_eq!(errs.len(), 1);
    assert_eq!(errs[0].index, 0);
    assert_eq!(errs[0].kind, BuildErrorKind::ReceiverParam);
}

#[test]
fn every_offending_parameter_is_reported() {
    let r = package_tool(
        "worse",
        "",
        vec![
            FnInput::Receiver,
            param("x", named(&["i32"], vec![])),
            FnInput::Param(ParamPattern::Destructuring, named(&["bool"], vec![])),
        ],
        ExecKind::Immediate,
    );
    let errs = r.err().expect("packaging must fail");
    assert_eq!(errs.len(), 2);
    assert_eq!(errs[0].index, 0);
    assert_eq!(errs[0].kind, BuildErrorKind::ReceiverParam);
    assert_eq!(errs[1].index, 2);
    assert_eq!(errs[1].kind, BuildErrorKind::UnsupportedPattern);
}

#[test]
fn duplicate_tool_names_are_rejected_at_build() {
    let one = package_tool("echo", "", vec![], ExecKind::Immediate).unwrap();
    let two = package_tool("echo", "", vec![], ExecKind::Deferred).unwrap();
    let r = Registry::build(vec![one, two]);
    match r {
        Err(RegistryError::DuplicateName(name)) => assert_eq!(name, "echo"),
        Ok(_) => panic!("duplicate names must be rejected"),
    }
}

#[test]
fn registry_catalog_lists_every_schema() {
    let one = package_tool("first", "", vec![], ExecKind::Immediate).unwrap();
    let two = package_tool(
        "second",
        "",
        vec![param("x", named(&["bool"], vec![]))],
        ExecKind::Deferred,
    )
    .unwrap();
    let schema_one = one.json_schema.duplicate();
    let schema_two = two.json_schema.duplicate();
    let reg = Registry::build(vec![one, two]).unwrap();
    let catalog = reg.tools_to_schema();
    assert_eq!(catalog, JsonValue::Arr(vec![schema_one, schema_two]));
}
