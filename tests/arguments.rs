use mongodb_agent_core::variables::query_variable_name;
use mongodb_agent_core::arguments::{resolve_arguments, validate_no_excess_arguments, Argument, ArgumentError};
use mongodb_agent_core::bson::{Bson, JsonValue};
use mongodb_agent_core::scalar_types::{BsonScalarType, MongoScalarType};
use mongodb_agent_core::types::{ObjectType, Type};

fn int_type() -> Type {
    Type::Scalar(MongoScalarType::Bson(BsonScalarType::Int))
}

fn params() -> Vec<(String, Type)> {
    vec![("limit".to_owned(), int_type()), ("title".to_owned(), Type::Scalar(MongoScalarType::Bson(BsonScalarType::String)))]
}

#[test]
fn resolves_literals_and_variables() {
    let arguments = vec![
        ("title".to_owned(), Argument::Variable { name: "t".to_owned() }),
        ("limit".to_owned(), Argument::Literal { value: JsonValue::Int(3) }),
    ];
    assert_eq!(
        resolve_arguments(&params(), arguments),
        Ok(vec![
            ("limit".to_owned(), Bson::Int32(3)),
            ("title".to_owned(), Bson::String("$$v_t_se".to_owned())),
        ])
    );
}

#[test]
fn reports_excess_then_missing_then_invalid() {
    let excess = vec![("limit".to_owned(), Argument::Literal { value: JsonValue::Int(3) }), ("x".to_owned(), Argument::Literal { value: JsonValue::Null })];
    assert_eq!(resolve_arguments(&params(), excess), Err(ArgumentError::Excess(vec!["x".to_owned()])));
    let missing = vec![("limit".to_owned(), Argument::Literal { value: JsonValue::Int(3) })];
    assert_eq!(resolve_arguments(&params(), missing), Err(ArgumentError::Missing(vec!["title".to_owned()])));
    let invalid = vec![
        ("limit".to_owned(), Argument::Literal { value: JsonValue::String("three".to_owned()) }),
        ("title".to_owned(), Argument::Literal { value: JsonValue::String("ok".to_owned()) }),
    ];
    match resolve_arguments(&params(), invalid) {
        Err(ArgumentError::Invalid(errors)) => {
            assert_eq!(errors.len(), 1);
            assert_eq!(errors[0].0, "limit");
        },
        other => panic!("unexpected {other:?}"),
    }
    let no_args: Vec<(String, ())> = vec![("limit".to_owned(), ())];
    assert_eq!(validate_no_excess_arguments(&params(), &no_args), Ok(()));
}

#[test]
fn variable_names_tell_types_apart() {
    let object = Type::Object(ObjectType { name: None, fields: vec![("a".to_owned(), int_type())] });
    assert_eq!(query_variable_name("x", &int_type()), "v_x_sc");
    assert_eq!(query_variable_name("x", &Type::Nullable(Box::new(int_type()))), "v_x_nsc");
    assert_eq!(query_variable_name("x", &object), "v_x_o0fa_escz");
    let underscored = Type::Object(ObjectType { name: Some("a_b".to_owned()), fields: vec![] });
    assert_eq!(query_variable_name("x", &underscored), "v_x_o1a__b_ez");
    assert_ne!(query_variable_name("x", &int_type()), query_variable_name("x", &Type::ArrayOf(Box::new(int_type()))));
}

#[test]
fn argument_error_messages() {
    assert_eq!(
        ArgumentError::Missing(vec!["a".to_owned(), "b".to_owned()]).message(),
        "missing variables or arguments: a, b"
    );
    let invalid = resolve_arguments(
        &params(),
        vec![
            ("limit".to_owned(), Argument::Literal { value: JsonValue::Bool(true) }),
            ("title".to_owned(), Argument::Literal { value: JsonValue::String("ok".to_owned()) }),
        ],
    )
    .unwrap_err();
    assert_eq!(
        invalid.message(),
        "some variables or arguments are invalid:\n  limit:\n    the value does not have the expected type"
    );
}
