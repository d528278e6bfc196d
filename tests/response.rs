use std::str::FromStr;

use mongodb_agent_core::bson::{Bson, JsonValue};
use mongodb_agent_core::query_plan::{Field, NestedField, Query, QueryPlan};
use mongodb_agent_core::response::{serialize_query_response, type_for_row_set, QueryResponse, RowSet};
use mongodb_agent_core::scalar_types::{BsonScalarType, MongoScalarType};
use mongodb_agent_core::types::{ObjectType, Type};

fn scalar(s: BsonScalarType) -> Type {
    Type::Scalar(MongoScalarType::Bson(s))
}

fn object(fields: Vec<(&str, Type)>) -> Type {
    Type::Object(ObjectType {
        name: None,
        fields: fields.into_iter().map(|(k, t)| (k.to_owned(), t)).collect(),
    })
}

fn geocode_type() -> Type {
    Type::Nullable(Box::new(object(vec![
        ("latitude", scalar(BsonScalarType::Double)),
        ("longitude", scalar(BsonScalarType::Double)),
    ])))
}

fn address_type() -> Type {
    object(vec![("street", scalar(BsonScalarType::String)), ("geocode", geocode_type())])
}

fn articles_type() -> Type {
    Type::ArrayOf(Box::new(object(vec![("title", scalar(BsonScalarType::String))])))
}

fn column(name: &str, column_type: Type) -> Field {
    Field::Column { column: name.to_owned(), column_type, fields: None }
}

fn nested(name: &str, column_type: Type, fields: NestedField) -> Field {
    Field::Column { column: name.to_owned(), column_type, fields: Some(fields) }
}

fn named(fields: Vec<(&str, Field)>) -> Vec<(String, Field)> {
    fields.into_iter().map(|(k, f)| (k.to_owned(), f)).collect()
}

fn query_with_fields(fields: Vec<(String, Field)>) -> Query {
    Query { aggregates: None, fields: Some(fields), limit: None, offset: None, order_by: None, predicate: None }
}

fn plan(collection: &str, query: Query) -> QueryPlan {
    QueryPlan { collection: collection.to_owned(), query, variables: None, foreach: None, relationships: vec![] }
}

fn doc(entries: Vec<(&str, Bson)>) -> Bson {
    Bson::Document(entries.into_iter().map(|(k, v)| (k.to_owned(), v)).collect())
}

fn obj(entries: Vec<(&str, JsonValue)>) -> JsonValue {
    JsonValue::Object(entries.into_iter().map(|(k, v)| (k.to_owned(), v)).collect())
}

fn row(entries: Vec<(&str, JsonValue)>) -> Vec<(String, JsonValue)> {
    entries.into_iter().map(|(k, v)| (k.to_owned(), v)).collect()
}

fn s(v: &str) -> JsonValue {
    JsonValue::String(v.to_owned())
}

fn bs(v: &str) -> Bson {
    Bson::String(v.to_owned())
}

fn decimal(text: &str) -> [u8; 16] {
    mongodb::bson::Decimal128::from_str(text).unwrap().bytes()
}

fn rows_only(rows: Vec<Vec<(String, JsonValue)>>) -> QueryResponse {
    QueryResponse(vec![RowSet { aggregates: None, rows: Some(rows) }])
}

#[test]
fn serializes_response_with_nested_fields() {
    let fields = named(vec![(
        "address",
        nested(
            "address",
            address_type(),
            NestedField::Object(named(vec![
                ("street", column("street", scalar(BsonScalarType::String))),
                (
                    "geocode",
                    nested(
                        "geocode",
                        geocode_type(),
                        NestedField::Object(named(vec![("longitude", column("longitude", scalar(BsonScalarType::Double)))])),
                    ),
                ),
            ])),
        ),
    )]);
    let query_plan = plan("authors", query_with_fields(fields));
    let response_documents = vec![doc(vec![(
        "address",
        doc(vec![("street", bs("137 Maple Dr")), ("geocode", doc(vec![("longitude", Bson::Double("122.4194".to_owned()))]))]),
    )])];
    let response = serialize_query_response(&query_plan, response_documents).unwrap();
    assert_eq!(
        response,
        rows_only(vec![row(vec![(
            "address",
            obj(vec![
                ("street", s("137 Maple Dr")),
                ("geocode", obj(vec![("longitude", JsonValue::Float("122.4194".to_owned()))])),
            ]),
        )])])
    );
}

#[test]
fn serializes_response_with_nested_object_inside_array() {
    let fields = named(vec![(
        "articles",
        nested(
            "articles",
            articles_type(),
            NestedField::Array(Box::new(NestedField::Object(named(vec![(
                "title",
                column("title", scalar(BsonScalarType::String)),
            )])))),
        ),
    )]);
    let query_plan = plan("authors", query_with_fields(fields));
    let response_documents = vec![doc(vec![(
        "articles",
        Bson::Array(vec![
            doc(vec![("title", bs("Modeling MongoDB with relational model"))]),
            doc(vec![("title", bs("NoSQL databases: MongoDB vs cassandra"))]),
        ]),
    )])];
    let response = serialize_query_response(&query_plan, response_documents).unwrap();
    assert_eq!(
        response,
        rows_only(vec![row(vec![(
            "articles",
            JsonValue::Array(vec![
                obj(vec![("title", s("Modeling MongoDB with relational model"))]),
                obj(vec![("title", s("NoSQL databases: MongoDB vs cassandra"))]),
            ]),
        )])])
    );
}

#[test]
fn serializes_response_with_aliased_fields() {
    let fields = named(vec![
        (
            "address1",
            nested(
                "address",
                address_type(),
                NestedField::Object(named(vec![("line1", column("street", scalar(BsonScalarType::String)))])),
            ),
        ),
        (
            "address2",
            nested(
                "address",
                address_type(),
                NestedField::Object(named(vec![(
                    "latlong",
                    nested(
                        "geocode",
                        geocode_type(),
                        NestedField::Object(named(vec![("long", column("longitude", scalar(BsonScalarType::Double)))])),
                    ),
                )])),
            ),
        ),
    ]);
    let query_plan = plan("authors", query_with_fields(fields));
    let response_documents = vec![doc(vec![
        ("address1", doc(vec![("line1", bs("137 Maple Dr"))])),
        ("address2", doc(vec![("latlong", doc(vec![("long", Bson::Double("122.4194".to_owned()))]))])),
    ])];
    let response = serialize_query_response(&query_plan, response_documents).unwrap();
    assert_eq!(
        response,
        rows_only(vec![row(vec![
            ("address1", obj(vec![("line1", s("137 Maple Dr"))])),
            ("address2", obj(vec![("latlong", obj(vec![("long", JsonValue::Float("122.4194".to_owned()))]))])),
        ])])
    );
}

#[test]
fn serializes_response_with_decimal_128_fields() {
    let fields = named(vec![
        ("price", column("price", scalar(BsonScalarType::Decimal))),
        ("price_extjson", column("price_extjson", Type::Scalar(MongoScalarType::ExtendedJSON))),
    ]);
    let query_plan = plan("business", query_with_fields(fields));
    let response_documents = vec![doc(vec![
        ("price", Bson::Decimal128(decimal("127.6486654"))),
        ("price_extjson", Bson::Decimal128(decimal("-4.9999999999"))),
    ])];
    let response = serialize_query_response(&query_plan, response_documents).unwrap();
    assert_eq!(
        response,
        rows_only(vec![row(vec![
            ("price", s("127.6486654")),
            ("price_extjson", obj(vec![("$numberDecimal", s("-4.9999999999"))])),
        ])])
    );
}

#[test]
fn serializes_response_with_nested_extjson() {
    let fields = named(vec![("value", column("value", Type::Scalar(MongoScalarType::ExtendedJSON)))]);
    let query_plan = plan("data", query_with_fields(fields));
    let response_documents = vec![doc(vec![(
        "value",
        doc(vec![
            (
                "array",
                Bson::Array(vec![
                    doc(vec![("number", Bson::Int32(3))]),
                    doc(vec![("number", Bson::Decimal128(decimal("127.6486654")))]),
                ]),
            ),
            ("string", bs("hello")),
            ("object", doc(vec![("foo", Bson::Int32(1)), ("bar", Bson::Int32(2))])),
        ]),
    )])];
    let response = serialize_query_response(&query_plan, response_documents).unwrap();
    assert_eq!(
        response,
        rows_only(vec![row(vec![(
            "value",
            obj(vec![
                (
                    "array",
                    JsonValue::Array(vec![
                        obj(vec![("number", obj(vec![("$numberInt", s("3"))]))]),
                        obj(vec![("number", obj(vec![("$numberDecimal", s("127.6486654"))]))]),
                    ]),
                ),
                ("string", s("hello")),
                (
                    "object",
                    obj(vec![
                        ("foo", obj(vec![("$numberInt", s("1"))])),
                        ("bar", obj(vec![("$numberInt", s("2"))])),
                    ]),
                ),
            ]),
        )])])
    );
}

#[test]
fn uses_field_path_to_guarantee_distinct_type_names() {
    let collection_name = "appearances";
    let presenter_fields = named(vec![
        (
            "addr",
            nested(
                "address",
                address_type(),
                NestedField::Object(named(vec![
                    ("street", column("street", scalar(BsonScalarType::String))),
                    (
                        "geocode",
                        nested(
                            "geocode",
                            geocode_type(),
                            NestedField::Object(named(vec![
                                ("latitude", column("latitude", scalar(BsonScalarType::Double))),
                                ("long", column("longitude", scalar(BsonScalarType::Double))),
                            ])),
                        ),
                    ),
                ])),
            ),
        ),
        (
            "articles",
            nested(
                "articles",
                articles_type(),
                NestedField::Array(Box::new(NestedField::Object(named(vec![(
                    "article_title",
                    column("title", scalar(BsonScalarType::String)),
                )])))),
            ),
        ),
    ]);
    let fields = Some(named(vec![(
        "presenter",
        Field::Relationship { relationship: "author".to_owned(), aggregates: None, fields: Some(presenter_fields) },
    )]));
    let path = vec![collection_name.to_owned()];
    let row_set_type = type_for_row_set(&path, &None, &fields).unwrap();

    let expected = object(vec![(
        "rows",
        Type::ArrayOf(Box::new(object(vec![(
            "presenter",
            object(vec![(
                "rows",
                Type::ArrayOf(Box::new(object(vec![
                    (
                        "addr",
                        object(vec![
                            ("street", scalar(BsonScalarType::String)),
                            (
                                "geocode",
                                Type::Nullable(Box::new(object(vec![
                                    ("latitude", scalar(BsonScalarType::Double)),
                                    ("long", scalar(BsonScalarType::Double)),
                                ]))),
                            ),
                        ]),
                    ),
                    (
                        "articles",
                        Type::ArrayOf(Box::new(object(vec![("article_title", scalar(BsonScalarType::String))]))),
                    ),
                ]))),
            )]),
        )]))),
    )]);
    assert_eq!(row_set_type, expected);
}

#[test]
fn missing_nullable_field_becomes_null_and_missing_required_field_fails() {
    let fields = named(vec![
        ("geocode", column("geocode", geocode_type())),
        ("street", column("street", scalar(BsonScalarType::String))),
    ]);
    let query_plan = plan("authors", query_with_fields(fields));
    let ok = serialize_query_response(&query_plan, vec![doc(vec![("street", bs("Elm"))])]).unwrap();
    assert_eq!(ok, rows_only(vec![row(vec![("geocode", JsonValue::Null), ("street", s("Elm"))])]));
    assert!(serialize_query_response(&query_plan, vec![doc(vec![])]).is_err());
}

#[test]
fn serializes_long_object_id_and_aggregates() {
    let fields = named(vec![
        ("_id", column("_id", scalar(BsonScalarType::ObjectId))),
        ("n", column("n", scalar(BsonScalarType::Long))),
    ]);
    let mut query = query_with_fields(fields);
    query.aggregates = Some(vec![("count".to_owned(), mongodb_agent_core::query_plan::Aggregate::StarCount)]);
    let query_plan = plan("things", query);
    let oid = [0x65u8, 0x0a, 0xbc, 0xde, 0xf0, 0x12, 0x34, 0x56, 0x78, 0x9a, 0xbc, 0xde];
    let docs = vec![doc(vec![
        ("aggregates", doc(vec![("count", Bson::Int32(1))])),
        ("rows", Bson::Array(vec![doc(vec![("_id", Bson::ObjectId(oid)), ("n", Bson::Int64(-9007199254740993))])])),
    ])];
    let response = serialize_query_response(&query_plan, docs).unwrap();
    assert_eq!(
        response,
        QueryResponse(vec![RowSet {
            aggregates: Some(row(vec![("count", obj(vec![("$numberInt", s("1"))]))])),
            rows: Some(vec![row(vec![("_id", s("650abcdef0123456789abcde")), ("n", s("-9007199254740993"))])]),
        }])
    );
}

#[test]
fn expects_a_single_document_for_aggregates() {
    let mut query = query_with_fields(vec![]);
    query.aggregates = Some(vec![]);
    let query_plan = plan("things", query);
    assert!(serialize_query_response(&query_plan, vec![]).is_err());
}

#[test]
fn serializes_relationship_row_sets() {
    let comments = named(vec![("text", column("text", scalar(BsonScalarType::String)))]);
    let fields = named(vec![(
        "comments",
        Field::Relationship { relationship: "movie_comments".to_owned(), aggregates: None, fields: Some(comments) },
    )]);
    let query_plan = plan("movies", query_with_fields(fields));
    let docs = vec![doc(vec![("comments", doc(vec![("rows", Bson::Array(vec![doc(vec![("text", bs("hi"))])]))]))])];
    let response = serialize_query_response(&query_plan, docs).unwrap();
    assert_eq!(
        response,
        rows_only(vec![row(vec![("comments", obj(vec![("rows", JsonValue::Array(vec![obj(vec![("text", s("hi"))])]))]))])])
    );
}

#[test]
fn response_shape_errors() {
    let mut query = query_with_fields(vec![]);
    query.aggregates = Some(vec![("count".to_owned(), mongodb_agent_core::query_plan::Aggregate::StarCount)]);
    let query_plan = plan("things", query);
    let docs = vec![doc(vec![("aggregates", bs("three")), ("rows", Bson::Array(vec![]))])];
    assert_eq!(
        serialize_query_response(&query_plan, docs),
        Err(mongodb_agent_core::response::QueryResponseError::AggregatesNotObject { path: vec![] })
    );
    let mut variables_plan = plan("things", query_with_fields(vec![]));
    variables_plan.variables = Some(vec![vec![]]);
    assert!(matches!(
        serialize_query_response(&variables_plan, vec![doc(vec![("row_sets", Bson::Int32(1))])]),
        Err(mongodb_agent_core::response::QueryResponseError::BsonDeserialization(_))
    ));
}
