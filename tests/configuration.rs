use mongodb_agent_core::bson::Bson;
use mongodb_agent_core::configuration::{
    Collection, Configuration, ConfigurationError, ConfigurationIntrospectionOptions, ConfigurationOptions,
    NativeQueryRepresentation, NdcType, ObjectField, ObjectType, Schema, SchemaType, SerializedNativeMutation,
    SerializedNativeQuery, errors_to_string,
};
use mongodb_agent_core::scalar_types::BsonScalarType;

fn empty_object_type() -> ObjectType {
    ObjectType { fields: vec![], description: None }
}

fn field(t: SchemaType) -> ObjectField {
    ObjectField { field_type: t, description: None }
}

fn native_query(representation: NativeQueryRepresentation, result: &str, object_types: Vec<(String, ObjectType)>) -> SerializedNativeQuery {
    SerializedNativeQuery {
        representation,
        arguments: vec![("limit".to_owned(), field(SchemaType::Scalar(BsonScalarType::Int)))],
        object_types,
        result_document_type: result.to_owned(),
        pipeline: vec![],
        description: Some("a query".to_owned()),
    }
}

#[test]
fn fails_with_duplicate_object_types() {
    let schema = Schema { collections: vec![], object_types: vec![("Album".to_owned(), empty_object_type())] };
    let native_mutations = vec![(
        "hello".to_owned(),
        SerializedNativeMutation {
            object_types: vec![("Album".to_owned(), empty_object_type())],
            result_type: SchemaType::Object("Album".to_owned()),
            command: Bson::Document(vec![("command".to_owned(), Bson::Int32(1))]),
            arguments: vec![],
            description: None,
        },
    )];
    let result = Configuration::validate(schema, native_mutations, vec![], ConfigurationOptions::default());
    let error_msg = errors_to_string(&result.unwrap_err());
    assert!(error_msg.contains("multiple definitions"));
    assert!(error_msg.contains("Album"));
}

#[test]
fn reports_duplicate_collections_and_every_function_error() {
    let schema = Schema {
        collections: vec![("albums".to_owned(), Collection { collection_type: "Album".to_owned(), description: None })],
        object_types: vec![("Album".to_owned(), empty_object_type())],
    };
    let native_queries = vec![
        ("albums".to_owned(), native_query(NativeQueryRepresentation::Collection, "Album", vec![])),
        ("count_albums".to_owned(), native_query(NativeQueryRepresentation::Function, "Album", vec![])),
        ("lost".to_owned(), native_query(NativeQueryRepresentation::Function, "Nowhere", vec![])),
    ];
    let errors = Configuration::validate(schema, vec![], native_queries, ConfigurationOptions::default()).unwrap_err();
    assert_eq!(
        errors,
        vec![
            ConfigurationError::DuplicateCollections(vec!["albums".to_owned()]),
            ConfigurationError::MissingValueField { function_name: "count_albums".to_owned() },
            ConfigurationError::UndefinedObjectType { function_name: "lost".to_owned(), object_type: "Nowhere".to_owned() },
        ]
    );
    let message = errors_to_string(&errors);
    assert!(message.starts_with("connector configuration has errors:\n  - "));
    assert!(message.contains("albums"));
    assert!(message.contains("Nowhere"));
}

#[test]
fn builds_catalog_from_schema_and_native_queries() {
    let album = ObjectType {
        fields: vec![
            ("_id".to_owned(), field(SchemaType::Scalar(BsonScalarType::ObjectId))),
            ("title".to_owned(), field(SchemaType::Scalar(BsonScalarType::String))),
        ],
        description: None,
    };
    let count_result = ObjectType {
        fields: vec![("__value".to_owned(), field(SchemaType::Nullable(Box::new(SchemaType::Scalar(BsonScalarType::Int)))))],
        description: None,
    };
    let schema = Schema {
        collections: vec![("albums".to_owned(), Collection { collection_type: "Album".to_owned(), description: None })],
        object_types: vec![("Album".to_owned(), album)],
    };
    let native_queries = vec![(
        "count_albums".to_owned(),
        native_query(NativeQueryRepresentation::Function, "CountResult", vec![("CountResult".to_owned(), count_result)]),
    )];
    let config = Configuration::validate(schema, vec![], native_queries, ConfigurationOptions::default()).unwrap();
    assert_eq!(config.object_types.len(), 2);
    assert_eq!(config.object_types[1].0, "CountResult");
    assert_eq!(config.collections.len(), 1);
    let albums = &config.collections[0].1;
    assert_eq!(albums.uniqueness_constraints.len(), 1);
    assert_eq!(albums.uniqueness_constraints[0].0, "albums_id");
    assert_eq!(albums.uniqueness_constraints[0].1.unique_columns, vec!["_id".to_owned()]);
    assert_eq!(config.functions.len(), 1);
    assert_eq!(config.functions[0].1.result_type, NdcType::Nullable(Box::new(NdcType::Named("Int".to_owned()))));
    assert_eq!(config.functions[0].1.arguments[0].1.argument_type, NdcType::Named("Int".to_owned()));
    assert_eq!(config.native_queries[0].1.result_document_type, "CountResult");
}

#[test]
fn introspection_options_default() {
    let options = ConfigurationIntrospectionOptions::default();
    assert_eq!(options.sample_size, 100);
    assert!(!options.no_validator_schema);
    assert!(options.all_schema_nullable);
    assert_eq!(ConfigurationOptions::default().introspection_options, options);
}

#[test]
fn reports_fields_of_undefined_object_types() {
    let album = ObjectType {
        fields: vec![
            ("artist".to_owned(), field(SchemaType::Nullable(Box::new(SchemaType::Object("Artist".to_owned()))))),
            ("tracks".to_owned(), field(SchemaType::ArrayOf(Box::new(SchemaType::Object("Album".to_owned()))))),
        ],
        description: None,
    };
    let schema = Schema { collections: vec![], object_types: vec![("Album".to_owned(), album)] };
    let errors = Configuration::validate(schema, vec![], vec![], ConfigurationOptions::default()).unwrap_err();
    assert_eq!(
        errors,
        vec![ConfigurationError::UndefinedFieldType {
            object_type: "Album".to_owned(),
            field_name: "artist".to_owned(),
            referenced: "Artist".to_owned(),
        }]
    );
    assert!(errors_to_string(&errors).contains("references an object type named Artist"));
}

#[test]
fn finds_the_first_object_type_of_a_name() {
    let first = ObjectType { fields: vec![], description: Some("first".to_owned()) };
    let second = ObjectType { fields: vec![], description: Some("second".to_owned()) };
    let types = vec![("A".to_owned(), first), ("A".to_owned(), second)];
    assert_eq!(mongodb_agent_core::configuration::find_object_type(&types, "A").unwrap().description, Some("first".to_owned()));
    assert!(mongodb_agent_core::configuration::find_object_type(&types, "B").is_none());
}

#[test]
fn catalog_from_schema_alone() {
    let schema = Schema {
        collections: vec![("albums".to_owned(), Collection { collection_type: "Album".to_owned(), description: None })],
        object_types: vec![("Album".to_owned(), empty_object_type())],
    };
    let config = Configuration::from_schema(schema).unwrap();
    assert_eq!(config.collections[0].0, "albums");
    assert!(config.collections[0].1.uniqueness_constraints.is_empty());
    assert!(config.functions.is_empty());
}
