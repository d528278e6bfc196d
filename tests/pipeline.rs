use mongodb_agent_core::bson::Bson;
use mongodb_agent_core::comparison_function::ComparisonFunction;
use mongodb_agent_core::pipeline::{match_document, pipeline_for_query, projection, Stage};
use mongodb_agent_core::pipeline::Pipeline;
use mongodb_agent_core::query_plan::{Aggregate, ComparisonValue, Expression, Field, OrderByElement, OrderDirection, Query, Relationship};
use mongodb_agent_core::scalar_types::{AggregationFunction, BsonScalarType, MongoScalarType};
use mongodb_agent_core::types::Type;

fn doc(entries: Vec<(&str, Bson)>) -> Bson {
    Bson::Document(entries.into_iter().map(|(k, v)| (k.to_owned(), v)).collect())
}

fn bs(v: &str) -> Bson {
    Bson::String(v.to_owned())
}

fn compare(column: &str, operator: ComparisonFunction, value: Bson) -> Expression {
    Expression::BinaryComparison { column: column.to_owned(), operator, value: ComparisonValue::Scalar(value) }
}

#[test]
fn match_documents_for_predicates() {
    let e = Expression::Or(vec![
        compare("title", ComparisonFunction::IRegex, bs("rear")),
        Expression::Not(Box::new(compare("year", ComparisonFunction::LessThan, Bson::Int32(1990)))),
    ]);
    assert_eq!(
        match_document(&e, None),
        Ok(doc(vec![(
            "$or",
            Bson::Array(vec![
                doc(vec![("title", doc(vec![("$regex", bs("rear")), ("$options", bs("i"))]))]),
                doc(vec![("$nor", Bson::Array(vec![doc(vec![("year", doc(vec![("$lt", Bson::Int32(1990))]))])]))]),
            ]),
        )]))
    );
}

#[test]
fn aggregation_expressions() {
    assert_eq!(
        ComparisonFunction::GreaterThan.mongodb_aggregation_expression(bs("$year"), Bson::Int32(2000)),
        doc(vec![("$gt", Bson::Array(vec![bs("$year"), Bson::Int32(2000)]))])
    );
    assert_eq!(
        ComparisonFunction::IRegex.mongodb_aggregation_expression(bs("$title"), bs("a")),
        doc(vec![("$regexMatch", doc(vec![("input", bs("$title")), ("regex", bs("a")), ("options", bs("i"))]))])
    );
}

#[test]
fn paging_comes_before_projection_and_skip_before_limit() {
    let fields = vec![(
        "t".to_owned(),
        Field::Column { column: "title".to_owned(), column_type: Type::Scalar(MongoScalarType::Bson(BsonScalarType::String)), fields: None },
    )];
    let query = Query {
        aggregates: Some(vec![
            ("n".to_owned(), Aggregate::ColumnCount { column: "title".to_owned(), distinct: true }),
            (
                "m".to_owned(),
                Aggregate::SingleColumn {
                    column: "year".to_owned(),
                    function: AggregationFunction::Max,
                    result_type: Type::Scalar(MongoScalarType::Bson(BsonScalarType::Int)),
                },
            ),
        ]),
        fields: Some(fields),
        limit: Some(10),
        offset: Some(5),
        order_by: Some(vec![OrderByElement { column: "year".to_owned(), direction: OrderDirection::Desc }]),
        predicate: None,
    };
    let pipeline = pipeline_for_query(&query, None, None, &vec![]).unwrap();
    assert_eq!(pipeline.stages[0], Stage::Sort(doc(vec![("year", Bson::Int32(-1))])));
    assert_eq!(pipeline.stages[1], Stage::Skip(5));
    assert_eq!(pipeline.stages[2], Stage::Limit(10));
    match &pipeline.stages[3] {
        Stage::Facet(branches) => {
            assert_eq!(branches.len(), 3);
            assert_eq!(branches[0].0, "__ROWS__");
            assert_eq!(branches[1].1.stages.len(), 3);
            assert_eq!(
                branches[2].1.stages,
                vec![Stage::Group(doc(vec![("_id", Bson::Null), ("result", doc(vec![("$max", bs("$year"))]))]))]
            );
        },
        other => panic!("unexpected {other:?}"),
    }
    assert_eq!(pipeline.stages.len(), 5);
    assert_eq!(
        projection(query.fields.as_ref().unwrap()),
        doc(vec![("t", doc(vec![("$ifNull", Bson::Array(vec![bs("$title"), Bson::Null]))]))])
    );
}

#[test]
fn relationship_fields_are_looked_up() {
    let string = || Type::Scalar(MongoScalarType::Bson(BsonScalarType::String));
    let comments = vec![(
        "text".to_owned(),
        Field::Column { column: "text".to_owned(), column_type: string(), fields: None },
    )];
    let fields = vec![
        ("title".to_owned(), Field::Column { column: "title".to_owned(), column_type: string(), fields: None }),
        (
            "comments".to_owned(),
            Field::Relationship { relationship: "movie_comments".to_owned(), aggregates: None, fields: Some(comments) },
        ),
    ];
    let query = Query { aggregates: None, fields: Some(fields), limit: Some(2), offset: None, order_by: None, predicate: None };
    let relationships = vec![(
        "movie_comments".to_owned(),
        Relationship { target_collection: "comments".to_owned(), column_mapping: vec![("_id".to_owned(), "movie_id".to_owned())] },
    )];
    let pipeline = pipeline_for_query(&query, None, None, &relationships).unwrap();
    let text_projection = doc(vec![("text", doc(vec![("$ifNull", Bson::Array(vec![bs("$text"), Bson::Null]))]))]);
    let expected_lookup = Stage::Lookup {
        from: "comments".to_owned(),
        let_vars: doc(vec![("v__id", bs("$_id"))]),
        pipeline: Pipeline {
            stages: vec![
                Stage::Match(doc(vec![(
                    "$expr",
                    doc(vec![("$and", Bson::Array(vec![doc(vec![("$eq", Bson::Array(vec![bs("$$v__id"), bs("$movie_id")]))])]))]),
                )])),
                Stage::ReplaceWith(text_projection),
            ],
        },
        as_field: "comments".to_owned(),
    };
    assert_eq!(
        pipeline.stages,
        vec![
            expected_lookup,
            Stage::Limit(2),
            Stage::ReplaceWith(doc(vec![
                ("title", doc(vec![("$ifNull", Bson::Array(vec![bs("$title"), Bson::Null]))])),
                ("comments", doc(vec![("rows", bs("$comments"))])),
            ])),
        ]
    );
    assert!(pipeline_for_query(&query, None, None, &vec![]).is_err());
}
