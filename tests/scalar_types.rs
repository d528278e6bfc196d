use mongodb_agent_core::comparison_function::ComparisonFunction;
use mongodb_agent_core::query_plan_error::QueryPlanError;
use mongodb_agent_core::scalar_types::{
    resolve_aggregate_function, resolve_comparison_operator, MongoScalarType,
    aggregate_functions, comparison_operators, scalar_types, AggregationFunction, BsonScalarType,
    ComparisonOperatorDefinition, TypeRepresentation,
};

#[test]
fn comparison_function_names() {
    assert_eq!(ComparisonFunction::LessThan.graphql_name(), "_lt");
    assert_eq!(ComparisonFunction::NotEqual.graphql_name(), "_neq");
    assert_eq!(ComparisonFunction::NotEqual.mongodb_name(), "$ne");
    assert_eq!(ComparisonFunction::IRegex.mongodb_name(), "$regex");
    assert_eq!(ComparisonFunction::from_graphql_name("_gte"), Ok(ComparisonFunction::GreaterThanOrEqual));
    assert_eq!(
        ComparisonFunction::from_graphql_name("_like"),
        Err(QueryPlanError::UnknownComparisonOperator("_like".to_owned()))
    );
}

#[test]
fn capabilities_follow_the_scalar_kind() {
    assert_eq!(
        aggregate_functions(BsonScalarType::Int),
        vec![
            (AggregationFunction::Count, BsonScalarType::Int),
            (AggregationFunction::Min, BsonScalarType::Int),
            (AggregationFunction::Max, BsonScalarType::Int),
            (AggregationFunction::Avg, BsonScalarType::Int),
            (AggregationFunction::Sum, BsonScalarType::Int),
        ]
    );
    assert_eq!(aggregate_functions(BsonScalarType::Bool), vec![(AggregationFunction::Count, BsonScalarType::Int)]);
    assert_eq!(
        comparison_operators(BsonScalarType::Bool),
        vec![(ComparisonFunction::Equal, BsonScalarType::Bool), (ComparisonFunction::NotEqual, BsonScalarType::Bool)]
    );
    let string_ops: Vec<ComparisonFunction> = comparison_operators(BsonScalarType::String).into_iter().map(|(f, _)| f).collect();
    assert_eq!(string_ops.len(), 8);
    assert!(string_ops.contains(&ComparisonFunction::IRegex));
    assert!(comparison_operators(BsonScalarType::Javascript).is_empty());
}

#[test]
fn catalog_publishes_every_scalar_type() {
    let types = scalar_types();
    assert_eq!(types.len(), 20);
    let (name, decimal) = &types[1];
    assert_eq!(name, "Decimal");
    assert_eq!(decimal.representation, Some(TypeRepresentation::BigDecimal));
    assert_eq!(decimal.aggregate_functions[0], ("count".to_owned(), "Int".to_owned()));
    assert_eq!(decimal.comparison_operators[0], ("_eq".to_owned(), ComparisonOperatorDefinition::Equal));
    assert_eq!(
        decimal.comparison_operators[1],
        ("_neq".to_owned(), ComparisonOperatorDefinition::Custom { argument_type: "Decimal".to_owned() })
    );
    let (last, extended) = &types[19];
    assert_eq!(last, "ExtendedJSON");
    assert_eq!(extended.representation, Some(TypeRepresentation::JSON));
    assert!(extended.aggregate_functions.is_empty());
    assert_eq!(types[6].1.representation, None);
}

#[test]
fn operators_and_aggregates_resolve_per_scalar_type() {
    let string = MongoScalarType::Bson(BsonScalarType::String);
    let boolean = MongoScalarType::Bson(BsonScalarType::Bool);
    assert_eq!(resolve_comparison_operator(string, "_iregex"), Ok(ComparisonFunction::IRegex));
    assert_eq!(
        resolve_comparison_operator(boolean, "_lt"),
        Err(QueryPlanError::UnknownComparisonOperator("_lt".to_owned()))
    );
    assert!(resolve_comparison_operator(MongoScalarType::ExtendedJSON, "_eq").is_err());
    assert_eq!(resolve_aggregate_function(MongoScalarType::Bson(BsonScalarType::Double), "avg"), Ok(AggregationFunction::Avg));
    assert_eq!(
        resolve_aggregate_function(string, "sum"),
        Err(QueryPlanError::UnknownAggregateFunction { aggregate_function: "sum".to_owned() })
    );
}
