use reductool::JsonValue;
use reductool::GenericArg;
use reductool::TypeDescriptor;
use reductool::TypePath;
use reductool::schema::ty_to_schema;

fn named(segments: &[&str], args: Vec<GenericArg>) -> TypeDescriptor {
    TypeDescriptor::Named(TypePath {
        segments: segments.iter().map(|s| s.to_string()).collect(),
        args,
    })
}

fn type_obj(name: &str) -> JsonValue {
    JsonValue::Obj(vec![("type".to_string(), JsonValue::Str(name.to_string()))])
}

fn array_obj(items: JsonValue) -> JsonValue {
    JsonValue::Obj(vec![
        ("type".to_string(), JsonValue::Str("array".to_string())),
        ("items".to_string(), items),
    ])
}

#[test]
fn primitive_fragments() {
    assert_eq!(ty_to_schema(&named(&["i32"], vec![])), type_obj("integer"));
    assert_eq!(ty_to_schema(&named(&["u8"], vec![])), type_obj("integer"));
    assert_eq!(ty_to_schema(&named(&["usize"], vec![])), type_obj("integer"));
    assert_eq!(ty_to_schema(&named(&["f64"], vec![])), type_obj("number"));
    assert_eq!(ty_to_schema(&named(&["f32"], vec![])), type_obj("number"));
    assert_eq!(ty_to_schema(&named(&["bool"], vec![])), type_obj("boolean"));
    assert_eq!(ty_to_schema(&named(&["String"], vec![])), type_obj("string"));
    assert_eq!(ty_to_schema(&named(&["str"], vec![])), type_obj("string"));
    assert_eq!(
        ty_to_schema(&named(&["std", "string", "String"], vec![])),
        type_obj("string")
    );
}

#[test]
fn reference_is_transparent() {
    let inner = named(&["i64"], vec![]);
    let reference = TypeDescriptor::Reference(Box::new(named(&["i64"], vec![])));
    assert_eq!(ty_to_schema(&reference), ty_to_schema(&inner));
}

#[test]
fn fixed_array_fragment() {
    let arr = TypeDescriptor::FixedArray(Box::new(named(&["u8"], vec![])));
    assert_eq!(ty_to_schema(&arr), array_obj(type_obj("integer")));
}

#[test]
fn tuple_fragment_carries_arity() {
    let tup = TypeDescriptor::Tuple(vec![named(&["i32"], vec![]), named(&["String"], vec![])]);
    let expected = JsonValue::Obj(vec![
        ("type".to_string(), JsonValue::Str("array".to_string())),
        (
            "items".to_string(),
            JsonValue::Arr(vec![type_obj("integer"), type_obj("string")]),
        ),
        ("minItems".to_string(), JsonValue::Int(2)),
        ("maxItems".to_string(), JsonValue::Int(2)),
    ]);
    assert_eq!(ty_to_schema(&tup), expected);
}

#[test]
fn vec_fragment() {
    let v = named(
        &["Vec"],
        vec![GenericArg::TypeArg(named(&["String"], vec![]))],
    );
    assert_eq!(ty_to_schema(&v), array_obj(type_obj("string")));
}

#[test]
fn vec_without_argument_defaults_items_to_string() {
    let v = named(&["Vec"], vec![]);
    assert_eq!(ty_to_schema(&v), array_obj(type_obj("string")));
}

#[test]
fn vec_skips_non_type_arguments() {
    let v = named(
        &["Vec"],
        vec![
            GenericArg::Opaque,
            GenericArg::TypeArg(named(&["bool"], vec![])),
        ],
    );
    assert_eq!(ty_to_schema(&v), array_obj(type_obj("boolean")));
}

#[test]
fn option_unwraps_to_inner_fragment() {
    let opt = named(
        &["Option"],
        vec![GenericArg::TypeArg(named(&["i32"], vec![]))],
    );
    assert_eq!(ty_to_schema(&opt), ty_to_schema(&named(&["i32"], vec![])));
}

#[test]
fn option_without_argument_is_unconstrained() {
    let opt = named(&["Option"], vec![]);
    assert_eq!(ty_to_schema(&opt), JsonValue::Obj(vec![]));
}

#[test]
fn nested_option_of_vec() {
    let opt = named(
        &["Option"],
        vec![GenericArg::TypeArg(named(
            &["Vec"],
            vec![GenericArg::TypeArg(named(&["u16"], vec![]))],
        ))],
    );
    assert_eq!(ty_to_schema(&opt), array_obj(type_obj("integer")));
}

#[test]
fn value_type_is_unconstrained() {
    assert_eq!(
        ty_to_schema(&named(&["serde_json", "Value"], vec![])),
        JsonValue::Obj(vec![])
    );
    assert_eq!(ty_to_schema(&named(&["Value"], vec![])), JsonValue::Obj(vec![]));
}

#[test]
fn unknown_shapes_fall_back_to_string() {
    assert_eq!(ty_to_schema(&TypeDescriptor::Unknown), type_obj("string"));
    assert_eq!(
        ty_to_schema(&named(&["MyCustomThing"], vec![])),
        type_obj("string")
    );
}

#[test]
fn inference_is_deterministic() {
    let tup = TypeDescriptor::Tuple(vec![
        named(&["i32"], vec![]),
        named(
            &["Option"],
            vec![GenericArg::TypeArg(named(&["String"], vec![]))],
        ),
    ]);
    let first = ty_to_schema(&tup);
    let second = ty_to_schema(&tup);
    assert_eq!(first, second);
}
