use mongodb_agent_core::bson::{Bson, JsonValue};
use mongodb_agent_core::comparison_function::ComparisonFunction;
use mongodb_agent_core::foreach::{facet_name, foreach_variants, pipeline_for_foreach};
use mongodb_agent_core::pipeline::{Pipeline, Stage};
use mongodb_agent_core::query_plan::{Aggregate, ComparisonValue, Expression, Field, Query, QueryPlan};
use mongodb_agent_core::response::{serialize_query_response, QueryResponse, RowSet};
use mongodb_agent_core::scalar_types::{BsonScalarType, MongoScalarType};
use mongodb_agent_core::types::Type;

fn doc(entries: Vec<(&str, Bson)>) -> Bson {
    Bson::Document(entries.into_iter().map(|(k, v)| (k.to_owned(), v)).collect())
}

fn bs(v: &str) -> Bson {
    Bson::String(v.to_owned())
}

fn column(name: &str, s: BsonScalarType) -> Field {
    Field::Column { column: name.to_owned(), column_type: Type::Scalar(MongoScalarType::Bson(s)), fields: None }
}

fn track_fields() -> Vec<(String, Field)> {
    vec![
        ("albumId".to_owned(), column("albumId", BsonScalarType::Int)),
        ("title".to_owned(), column("title", BsonScalarType::String)),
    ]
}

fn query(aggregates: Option<Vec<(String, Aggregate)>>, predicate: Option<Expression>) -> Query {
    Query { aggregates, fields: Some(track_fields()), limit: None, offset: None, order_by: None, predicate }
}

fn if_null(field: &str) -> Bson {
    doc(vec![("$ifNull", Bson::Array(vec![bs(&format!("${field}")), Bson::Null]))])
}

fn projection() -> Stage {
    Stage::ReplaceWith(doc(vec![("albumId", if_null("albumId")), ("title", if_null("title"))]))
}

fn match_artist_and(artist_id: i32) -> Stage {
    Stage::Match(doc(vec![(
        "$and",
        Bson::Array(vec![doc(vec![("artistId", doc(vec![("$eq", Bson::Int32(artist_id))]))])]),
    )]))
}

fn row_sets_selection(n: usize) -> Stage {
    Stage::ReplaceWith(doc(vec![(
        "row_sets",
        Bson::Array((0..n).map(|i| bs(&format!("$__FACET___{i}"))).collect()),
    )]))
}

fn track(album_id: i32, title: &str) -> Bson {
    doc(vec![("albumId", Bson::Int32(album_id)), ("title", bs(title))])
}

fn track_row(album_id: i64, title: &str) -> Vec<(String, JsonValue)> {
    vec![("albumId".to_owned(), JsonValue::Int(album_id)), ("title".to_owned(), JsonValue::String(title.to_owned()))]
}

fn foreach_artists() -> Option<Vec<Vec<(String, Bson)>>> {
    Some(vec![vec![("artistId".to_owned(), Bson::Int32(1))], vec![("artistId".to_owned(), Bson::Int32(2))]])
}

#[test]
fn executes_foreach_with_fields() {
    let plan = QueryPlan { collection: "tracks".to_owned(), query: query(None, None), variables: None, foreach: foreach_artists(), relationships: vec![] };
    let variants = foreach_variants(&plan).unwrap();
    let pipeline = pipeline_for_foreach(variants, &plan).unwrap();
    let expected_pipeline = Pipeline {
        stages: vec![
            Stage::Facet(vec![
                ("__FACET___0".to_owned(), Pipeline { stages: vec![match_artist_and(1), projection()] }),
                ("__FACET___1".to_owned(), Pipeline { stages: vec![match_artist_and(2), projection()] }),
            ]),
            row_sets_selection(2),
        ],
    };
    assert_eq!(pipeline, expected_pipeline);

    let response_documents = vec![doc(vec![(
        "row_sets",
        Bson::Array(vec![
            Bson::Array(vec![track(1, "For Those About To Rock We Salute You"), track(4, "Let There Be Rock")]),
            Bson::Array(vec![track(2, "Balls to the Wall"), track(3, "Restless and Wild")]),
        ]),
    )])];
    let response = serialize_query_response(&plan, response_documents).unwrap();
    assert_eq!(
        response,
        QueryResponse(vec![
            RowSet {
                aggregates: None,
                rows: Some(vec![track_row(1, "For Those About To Rock We Salute You"), track_row(4, "Let There Be Rock")]),
            },
            RowSet { aggregates: None, rows: Some(vec![track_row(2, "Balls to the Wall"), track_row(3, "Restless and Wild")]) },
        ])
    );
}

fn aggregate_facet(artist_id: i32) -> Pipeline {
    let count_extraction = doc(vec![(
        "$getField",
        doc(vec![
            ("field", bs("result")),
            ("input", doc(vec![("$first", doc(vec![("$getField", doc(vec![("$literal", bs("count"))]))]))])),
        ]),
    )]);
    Pipeline {
        stages: vec![
            match_artist_and(artist_id),
            Stage::Facet(vec![
                ("__ROWS__".to_owned(), Pipeline { stages: vec![projection()] }),
                ("count".to_owned(), Pipeline { stages: vec![Stage::Count("result".to_owned())] }),
            ]),
            Stage::ReplaceWith(doc(vec![
                ("aggregates", doc(vec![("count", count_extraction)])),
                ("rows", bs("$__ROWS__")),
            ])),
        ],
    }
}

#[test]
fn executes_foreach_with_aggregates() {
    let aggregates = Some(vec![("count".to_owned(), Aggregate::StarCount)]);
    let plan = QueryPlan {
        collection: "tracks".to_owned(),
        query: query(aggregates, None),
        variables: None,
        foreach: foreach_artists(),
        relationships: vec![],
    };
    let variants = foreach_variants(&plan).unwrap();
    let pipeline = pipeline_for_foreach(variants, &plan).unwrap();
    let expected_pipeline = Pipeline {
        stages: vec![
            Stage::Facet(vec![
                ("__FACET___0".to_owned(), aggregate_facet(1)),
                ("__FACET___1".to_owned(), aggregate_facet(2)),
            ]),
            row_sets_selection(2),
        ],
    };
    assert_eq!(pipeline, expected_pipeline);

    let response_documents = vec![doc(vec![(
        "row_sets",
        Bson::Array(vec![
            doc(vec![
                ("aggregates", doc(vec![("count", Bson::Int32(2))])),
                ("rows", Bson::Array(vec![track(1, "For Those About To Rock We Salute You"), track(4, "Let There Be Rock")])),
            ]),
            doc(vec![
                ("aggregates", doc(vec![("count", Bson::Int32(2))])),
                ("rows", Bson::Array(vec![track(2, "Balls to the Wall"), track(3, "Restless and Wild")])),
            ]),
        ]),
    )])];
    let count = || {
        Some(vec![(
            "count".to_owned(),
            JsonValue::Object(vec![("$numberInt".to_owned(), JsonValue::String("2".to_owned()))]),
        )])
    };
    let response = serialize_query_response(&plan, response_documents).unwrap();
    assert_eq!(
        response,
        QueryResponse(vec![
            RowSet {
                aggregates: count(),
                rows: Some(vec![track_row(1, "For Those About To Rock We Salute You"), track_row(4, "Let There Be Rock")]),
            },
            RowSet { aggregates: count(), rows: Some(vec![track_row(2, "Balls to the Wall"), track_row(3, "Restless and Wild")]) },
        ])
    );
}

#[test]
fn executes_foreach_with_variables() {
    let predicate = Expression::BinaryComparison {
        column: "artistId".to_owned(),
        operator: ComparisonFunction::Equal,
        value: ComparisonValue::Variable("artistId".to_owned()),
    };
    let variables: Vec<Vec<(String, Bson)>> =
        (1..=12).map(|artist_id| vec![("artistId".to_owned(), Bson::Int32(artist_id))]).collect();
    let plan = QueryPlan {
        collection: "tracks".to_owned(),
        query: query(None, Some(predicate)),
        variables: Some(variables),
        foreach: None,
        relationships: vec![],
    };
    let facet = |artist_id: i32| Pipeline {
        stages: vec![
            Stage::Match(doc(vec![("artistId", doc(vec![("$eq", Bson::Int32(artist_id))]))])),
            projection(),
        ],
    };
    let variants = foreach_variants(&plan).unwrap();
    let pipeline = pipeline_for_foreach(variants, &plan).unwrap();
    let expected_pipeline = Pipeline {
        stages: vec![
            Stage::Facet((0..12).map(|i| (format!("__FACET___{i}"), facet(i as i32 + 1))).collect()),
            row_sets_selection(12),
        ],
    };
    assert_eq!(pipeline, expected_pipeline);

    let mut row_sets = vec![
        Bson::Array(vec![track(1, "For Those About To Rock We Salute You"), track(4, "Let There Be Rock")]),
        Bson::Array(vec![]),
        Bson::Array(vec![track(2, "Balls to the Wall"), track(3, "Restless and Wild")]),
    ];
    row_sets.extend((0..8).map(|_| Bson::Array(vec![])));
    let response_documents = vec![doc(vec![("row_sets", Bson::Array(row_sets))])];
    let response = serialize_query_response(&plan, response_documents).unwrap();
    let mut expected = vec![
        RowSet {
            aggregates: None,
            rows: Some(vec![track_row(1, "For Those About To Rock We Salute You"), track_row(4, "Let There Be Rock")]),
        },
        RowSet { aggregates: None, rows: Some(vec![]) },
        RowSet { aggregates: None, rows: Some(vec![track_row(2, "Balls to the Wall"), track_row(3, "Restless and Wild")]) },
    ];
    expected.extend((0..8).map(|_| RowSet { aggregates: None, rows: Some(vec![]) }));
    assert_eq!(response, QueryResponse(expected));
}

#[test]
fn foreach_reports_an_unbound_variable() {
    let predicate = Expression::BinaryComparison {
        column: "artistId".to_owned(),
        operator: ComparisonFunction::Equal,
        value: ComparisonValue::Variable("albumId".to_owned()),
    };
    let plan = QueryPlan {
        collection: "tracks".to_owned(),
        query: query(None, Some(predicate)),
        variables: Some(vec![vec![("artistId".to_owned(), Bson::Int32(1))]]),
        foreach: None,
        relationships: vec![],
    };
    let variants = foreach_variants(&plan).unwrap();
    assert!(pipeline_for_foreach(variants, &plan).is_err());
}

#[test]
fn no_foreach_without_variables_or_entries() {
    let plan = QueryPlan { collection: "tracks".to_owned(), query: query(None, None), variables: None, foreach: None, relationships: vec![] };
    assert!(foreach_variants(&plan).is_none());
}

#[test]
fn facet_names_count_from_zero() {
    assert_eq!(facet_name(0), "__FACET___0");
    assert_eq!(facet_name(11), "__FACET___11");
}

#[test]
fn twelve_variable_sets_give_twelve_row_sets() {
    let predicate = Expression::BinaryComparison {
        column: "artistId".to_owned(),
        operator: ComparisonFunction::Equal,
        value: ComparisonValue::Variable("artistId".to_owned()),
    };
    let variables: Vec<Vec<(String, Bson)>> =
        (1..=12).map(|artist_id| vec![("artistId".to_owned(), Bson::Int32(artist_id))]).collect();
    let plan = QueryPlan {
        collection: "tracks".to_owned(),
        query: query(None, Some(predicate)),
        variables: Some(variables),
        foreach: None,
        relationships: vec![],
    };
    let pipeline = pipeline_for_foreach(foreach_variants(&plan).unwrap(), &plan).unwrap();
    match &pipeline.stages[0] {
        Stage::Facet(branches) => assert_eq!(branches.len(), 12),
        other => panic!("unexpected {other:?}"),
    }
    let mut row_sets = vec![Bson::Array(vec![track(1, "For Those About To Rock We Salute You")])];
    row_sets.extend((1..12).map(|_| Bson::Array(vec![])));
    let response = serialize_query_response(&plan, vec![doc(vec![("row_sets", Bson::Array(row_sets))])]).unwrap();
    assert_eq!(response.0.len(), 12);
    assert_eq!(response.0[11], RowSet { aggregates: None, rows: Some(vec![]) });
}
