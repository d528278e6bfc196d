use std::str::FromStr;

use mongodb_agent_core::bson::{Bson, JsonValue};
use mongodb_agent_core::scalar_types::{BsonScalarType, MongoScalarType};
use mongodb_agent_core::serialization::{bson_to_json, json_to_bson, scalar_to_json, to_ext_json, BsonToJsonError};
use mongodb_agent_core::types::Type;

fn scalar(s: BsonScalarType) -> Type {
    Type::Scalar(MongoScalarType::Bson(s))
}

fn s(v: &str) -> JsonValue {
    JsonValue::String(v.to_owned())
}

fn tagged(tag: &str, v: JsonValue) -> JsonValue {
    JsonValue::Object(vec![(tag.to_owned(), v)])
}

#[test]
fn long_and_decimal_are_strings() {
    assert_eq!(scalar_to_json(BsonScalarType::Long, &Bson::Int64(-42)), Ok(s("-42")));
    let d = mongodb::bson::Decimal128::from_str("127.6486654").unwrap().bytes();
    assert_eq!(scalar_to_json(BsonScalarType::Decimal, &Bson::Decimal128(d)), Ok(s("127.6486654")));
    assert_eq!(scalar_to_json(BsonScalarType::Long, &Bson::Int32(1)), Err(BsonToJsonError::TypeMismatch));
}

#[test]
fn object_id_is_lowercase_hex() {
    let oid = [0xAB, 0xCD, 0xEF, 0, 1, 2, 3, 4, 5, 6, 7, 8];
    assert_eq!(scalar_to_json(BsonScalarType::ObjectId, &Bson::ObjectId(oid)), Ok(s("abcdef000102030405060708")));
    assert_eq!(json_to_bson(&scalar(BsonScalarType::ObjectId), &s("abcdef000102030405060708")), Ok(Bson::ObjectId(oid)));
    assert!(json_to_bson(&scalar(BsonScalarType::ObjectId), &s("xyz")).is_err());
}

#[test]
fn dates_are_rfc3339() {
    let json = scalar_to_json(BsonScalarType::Date, &Bson::DateTime(0)).unwrap();
    assert_eq!(json, s("1970-01-01T00:00:00Z"));
    assert_eq!(json_to_bson(&scalar(BsonScalarType::Date), &json), Ok(Bson::DateTime(0)));
}

#[test]
fn extended_json_keeps_type_tags() {
    assert_eq!(to_ext_json(&Bson::Int64(7)), tagged("$numberLong", s("7")));
    assert_eq!(to_ext_json(&Bson::DateTime(5)), tagged("$date", tagged("$numberLong", s("5"))));
    assert_eq!(to_ext_json(&Bson::ObjectId([0; 12])), tagged("$oid", s("000000000000000000000000")));
    assert_eq!(to_ext_json(&Bson::Double("1.5".to_owned())), tagged("$numberDouble", s("1.5")));
    assert_eq!(to_ext_json(&Bson::String("x".to_owned())), s("x"));
}

#[test]
fn nullable_and_arrays() {
    let t = Type::Nullable(Box::new(Type::ArrayOf(Box::new(scalar(BsonScalarType::Int)))));
    assert_eq!(bson_to_json(&t, &Bson::Null), Ok(JsonValue::Null));
    assert_eq!(
        bson_to_json(&t, &Bson::Array(vec![Bson::Int32(1), Bson::Int32(2)])),
        Ok(JsonValue::Array(vec![JsonValue::Int(1), JsonValue::Int(2)]))
    );
    assert_eq!(bson_to_json(&t, &Bson::Array(vec![Bson::String("a".to_owned())])), Err(BsonToJsonError::TypeMismatch));
    assert!(bson_to_json(&scalar(BsonScalarType::Int), &Bson::Null).is_err());
}

#[test]
fn scalar_round_trips() {
    let cases = vec![
        (BsonScalarType::Int, Bson::Int32(-7)),
        (BsonScalarType::Long, Bson::Int64(9007199254740993)),
        (BsonScalarType::Bool, Bson::Boolean(true)),
        (BsonScalarType::String, Bson::String("héllo".to_owned())),
        (BsonScalarType::Double, Bson::Double("0.25".to_owned())),
        (BsonScalarType::Null, Bson::Null),
    ];
    for (t, b) in cases {
        let json = bson_to_json(&scalar(t), &b).unwrap();
        assert_eq!(json_to_bson(&scalar(t), &json), Ok(b));
    }
}

#[test]
fn literals_need_their_type() {
    assert!(json_to_bson(&scalar(BsonScalarType::Int), &JsonValue::Int(1 << 40)).is_err());
    assert!(json_to_bson(&scalar(BsonScalarType::Long), &s("12x")).is_err());
    assert_eq!(json_to_bson(&scalar(BsonScalarType::Long), &s("12")), Ok(Bson::Int64(12)));
    let d = json_to_bson(&scalar(BsonScalarType::Decimal), &s("-4.9999999999")).unwrap();
    assert_eq!(bson_to_json(&scalar(BsonScalarType::Decimal), &d), Ok(s("-4.9999999999")));
}

#[test]
fn extended_json_reads_type_tags_back() {
    let ext = Type::Scalar(MongoScalarType::ExtendedJSON);
    let value = Bson::Document(vec![
        ("n".to_owned(), Bson::Int32(3)),
        ("big".to_owned(), Bson::Int64(1 << 40)),
        ("when".to_owned(), Bson::DateTime(-5)),
        ("id".to_owned(), Bson::ObjectId([7; 12])),
        ("ts".to_owned(), Bson::Timestamp { time: 4, increment: 9 }),
        ("re".to_owned(), Bson::RegularExpression { pattern: "^a".to_owned(), options: "i".to_owned() }),
        ("list".to_owned(), Bson::Array(vec![Bson::MinKey, Bson::Undefined, Bson::Null, Bson::Double("2.5".to_owned())])),
    ]);
    let json = bson_to_json(&ext, &value).unwrap();
    assert_eq!(json_to_bson(&ext, &json), Ok(value));
    assert_eq!(json_to_bson(&ext, &JsonValue::Int(1 << 40)), Ok(Bson::Int64(1 << 40)));
    assert_eq!(json_to_bson(&ext, &tagged("$numberInt", s("70000000000"))), Err(mongodb_agent_core::serialization::JsonToBsonError::TypeMismatch));
    let d = mongodb::bson::Decimal128::from_str("1.5").unwrap().bytes();
    assert_eq!(json_to_bson(&ext, &tagged("$numberDecimal", s("1.5"))), Ok(Bson::Decimal128(d)));
    assert_eq!(
        json_to_bson(&ext, &JsonValue::Object(vec![("plain".to_owned(), JsonValue::Bool(true))])),
        Ok(Bson::Document(vec![("plain".to_owned(), Bson::Boolean(true))]))
    );
}

#[test]
fn conversion_errors() {
    assert_eq!(
        scalar_to_json(BsonScalarType::Date, &Bson::DateTime(i64::MAX)),
        Err(BsonToJsonError::DateOutOfRange)
    );
    let object = Type::Object(mongodb_agent_core::types::ObjectType {
        name: None,
        fields: vec![("a".to_owned(), scalar(BsonScalarType::Int))],
    });
    assert_eq!(
        json_to_bson(&object, &JsonValue::Object(vec![])),
        Err(mongodb_agent_core::serialization::JsonToBsonError::MissingObjectField("a".to_owned()))
    );
    assert_eq!(
        bson_to_json(&object, &Bson::Document(vec![])),
        Err(BsonToJsonError::MissingObjectField("a".to_owned()))
    );
}
