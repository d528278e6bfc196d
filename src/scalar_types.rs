//! BSON scalar types and the capabilities that the catalog publishes for each.
use vstd::prelude::*;
use crate::comparison_function::ComparisonFunction;
use crate::query_plan_error::QueryPlanError;

verus! {

/// The scalar kinds of BSON.
#[derive(Clone, Copy, Debug, PartialEq, Eq, Structural)]
pub enum BsonScalarType {
    Double,
    Decimal,
    Int,
    Long,
    String,
    Date,
    Timestamp,
    BinData,
    ObjectId,
    Bool,
    Null,
    Regex,
    Javascript,
    JavascriptWithScope,
    MinKey,
    MaxKey,
    Undefined,
    DbPointer,
    Symbol,
}

/// A scalar type as the connector sees it: a BSON scalar, or any BSON value
/// serialized as canonical extended JSON.
#[derive(Clone, Copy, Debug, PartialEq, Eq, Structural)]
pub enum MongoScalarType {
    Bson(BsonScalarType),
    ExtendedJSON,
}

/// How clients see a scalar type in JSON.
#[derive(Clone, Copy, Debug, PartialEq, Eq, Structural)]
pub enum TypeRepresentation {
    Boolean,
    String,
    Int32,
    Int64,
    Float64,
    BigDecimal,
    Timestamp,
    JSON,
}

/// Aggregate functions over a column.
#[derive(Clone, Copy, Debug, PartialEq, Eq, Structural)]
pub enum AggregationFunction {
    Avg,
    Count,
    Min,
    Max,
    Sum,
}

/// Name of the scalar type that stands for any BSON value.
pub const EXTENDED_JSON_TYPE_NAME: &'static str = "ExtendedJSON";

impl BsonScalarType {
    pub open spec fn spec_is_orderable(self) -> bool {
        match self {
            BsonScalarType::Double | BsonScalarType::Decimal | BsonScalarType::Int
            | BsonScalarType::Long | BsonScalarType::String | BsonScalarType::Date
            | BsonScalarType::Timestamp | BsonScalarType::ObjectId => true,
            _ => false,
        }
    }

    pub open spec fn spec_is_numeric(self) -> bool {
        match self {
            BsonScalarType::Double | BsonScalarType::Decimal | BsonScalarType::Int
            | BsonScalarType::Long => true,
            _ => false,
        }
    }

    pub open spec fn spec_is_comparable(self) -> bool {
        self.spec_is_orderable() || match self {
            BsonScalarType::Bool | BsonScalarType::BinData | BsonScalarType::ObjectId
            | BsonScalarType::Null => true,
            _ => false,
        }
    }

    /// Whether `min`, `max` and the ordering operators apply.
    pub fn is_orderable(self) -> (r: bool)
        ensures
            r == self.spec_is_orderable(),
    {
        match self {
            BsonScalarType::Double | BsonScalarType::Decimal | BsonScalarType::Int
            | BsonScalarType::Long | BsonScalarType::String | BsonScalarType::Date
            | BsonScalarType::Timestamp | BsonScalarType::ObjectId => true,
            _ => false,
        }
    }

    /// Whether `avg` and `sum` apply.
    pub fn is_numeric(self) -> (r: bool)
        ensures
            r == self.spec_is_numeric(),
    {
        match self {
            BsonScalarType::Double | BsonScalarType::Decimal | BsonScalarType::Int
            | BsonScalarType::Long => true,
            _ => false,
        }
    }

    /// Whether equality operators apply.
    pub fn is_comparable(self) -> (r: bool)
        ensures
            r == self.spec_is_comparable(),
    {
        if self.is_orderable() {
            true
        } else {
            match self {
                BsonScalarType::Bool | BsonScalarType::BinData | BsonScalarType::ObjectId
                | BsonScalarType::Null => true,
                _ => false,
            }
        }
    }

    pub open spec fn spec_graphql_name(self) -> Seq<char> {
        match self {
            BsonScalarType::Double => "Double"@,
            BsonScalarType::Decimal => "Decimal"@,
            BsonScalarType::Int => "Int"@,
            BsonScalarType::Long => "Long"@,
            BsonScalarType::String => "String"@,
            BsonScalarType::Date => "Date"@,
            BsonScalarType::Timestamp => "Timestamp"@,
            BsonScalarType::BinData => "BinData"@,
            BsonScalarType::ObjectId => "ObjectId"@,
            BsonScalarType::Bool => "Bool"@,
            BsonScalarType::Null => "Null"@,
            BsonScalarType::Regex => "Regex"@,
            BsonScalarType::Javascript => "Javascript"@,
            BsonScalarType::JavascriptWithScope => "JavascriptWithScope"@,
            BsonScalarType::MinKey => "MinKey"@,
            BsonScalarType::MaxKey => "MaxKey"@,
            BsonScalarType::Undefined => "Undefined"@,
            BsonScalarType::DbPointer => "DbPointer"@,
            BsonScalarType::Symbol => "Symbol"@,
        }
    }

    /// The name under which the catalog publishes this scalar type.
    pub fn graphql_name(self) -> (r: &'static str)
        ensures
            r@ == self.spec_graphql_name(),
    {
        match self {
            BsonScalarType::Double => "Double",
            BsonScalarType::Decimal => "Decimal",
            BsonScalarType::Int => "Int",
            BsonScalarType::Long => "Long",
            BsonScalarType::String => "String",
            BsonScalarType::Date => "Date",
            BsonScalarType::Timestamp => "Timestamp",
            BsonScalarType::BinData => "BinData",
            BsonScalarType::ObjectId => "ObjectId",
            BsonScalarType::Bool => "Bool",
            BsonScalarType::Null => "Null",
            BsonScalarType::Regex => "Regex",
            BsonScalarType::Javascript => "Javascript",
            BsonScalarType::JavascriptWithScope => "JavascriptWithScope",
            BsonScalarType::MinKey => "MinKey",
            BsonScalarType::MaxKey => "MaxKey",
            BsonScalarType::Undefined => "Undefined",
            BsonScalarType::DbPointer => "DbPointer",
            BsonScalarType::Symbol => "Symbol",
        }
    }
}

impl AggregationFunction {
    pub open spec fn spec_graphql_name(self) -> Seq<char> {
        match self {
            AggregationFunction::Avg => "avg"@,
            AggregationFunction::Count => "count"@,
            AggregationFunction::Min => "min"@,
            AggregationFunction::Max => "max"@,
            AggregationFunction::Sum => "sum"@,
        }
    }

    /// The function's name in client requests.
    pub fn graphql_name(self) -> (r: &'static str)
        ensures
            r@ == self.spec_graphql_name(),
    {
        match self {
            AggregationFunction::Avg => "avg",
            AggregationFunction::Count => "count",
            AggregationFunction::Min => "min",
            AggregationFunction::Max => "max",
            AggregationFunction::Sum => "sum",
        }
    }
}

/// How a comparison operator is published in the catalog.
#[derive(Debug, PartialEq)]
pub enum ComparisonOperatorDefinition {
    Equal,
    Custom { argument_type: String },
}

/// What the catalog publishes for one scalar type: its representation, its
/// aggregate functions with the names of their result types, and its comparison
/// operators.
#[derive(Debug, PartialEq)]
pub struct ScalarTypeInfo {
    pub representation: Option<TypeRepresentation>,
    pub aggregate_functions: Vec<(String, String)>,
    pub comparison_operators: Vec<(String, ComparisonOperatorDefinition)>,
}

pub open spec fn spec_representation(t: BsonScalarType) -> Option<TypeRepresentation> {
    match t {
        BsonScalarType::Double => Some(TypeRepresentation::Float64),
        BsonScalarType::Decimal => Some(TypeRepresentation::BigDecimal),
        BsonScalarType::Int => Some(TypeRepresentation::Int32),
        BsonScalarType::Long => Some(TypeRepresentation::Int64),
        BsonScalarType::String => Some(TypeRepresentation::String),
        BsonScalarType::Date => Some(TypeRepresentation::Timestamp),
        BsonScalarType::ObjectId => Some(TypeRepresentation::String),
        BsonScalarType::Bool => Some(TypeRepresentation::Boolean),
        _ => None,
    }
}

/// The client-visible representation of a BSON scalar type, where it has one.
pub fn bson_scalar_type_representation(t: BsonScalarType) -> (r: Option<TypeRepresentation>)
    ensures
        r == spec_representation(t),
{
    match t {
        BsonScalarType::Double => Some(TypeRepresentation::Float64),
        BsonScalarType::Decimal => Some(TypeRepresentation::BigDecimal),
        BsonScalarType::Int => Some(TypeRepresentation::Int32),
        BsonScalarType::Long => Some(TypeRepresentation::Int64),
        BsonScalarType::String => Some(TypeRepresentation::String),
        BsonScalarType::Date => Some(TypeRepresentation::Timestamp),
        BsonScalarType::Timestamp => None,
        BsonScalarType::BinData => None,
        BsonScalarType::ObjectId => Some(TypeRepresentation::String),
        BsonScalarType::Bool => Some(TypeRepresentation::Boolean),
        BsonScalarType::Null => None,
        BsonScalarType::Regex => None,
        BsonScalarType::Javascript => None,
        BsonScalarType::JavascriptWithScope => None,
        BsonScalarType::MinKey => None,
        BsonScalarType::MaxKey => None,
        BsonScalarType::Undefined => None,
        BsonScalarType::DbPointer => None,
        BsonScalarType::Symbol => None,
    }
}

/// `count` always, yielding an `Int`; `min` and `max` on orderable types and
/// `avg` and `sum` on numeric ones, yielding the column's type.
pub open spec fn spec_aggregate_functions(t: BsonScalarType) -> Seq<(AggregationFunction, BsonScalarType)> {
    seq![(AggregationFunction::Count, BsonScalarType::Int)]
        + (if t.spec_is_orderable() {
            seq![(AggregationFunction::Min, t), (AggregationFunction::Max, t)]
        } else {
            Seq::empty()
        })
        + (if t.spec_is_numeric() {
            seq![(AggregationFunction::Avg, t), (AggregationFunction::Sum, t)]
        } else {
            Seq::empty()
        })
}

/// `_eq` and `_neq` on comparable types, the four ordering operators on
/// orderable ones, and the two regex operators on `String`; each takes an
/// argument of the column's type.
pub open spec fn spec_comparison_operators(t: BsonScalarType) -> Seq<(ComparisonFunction, BsonScalarType)> {
    (if t.spec_is_comparable() {
        seq![(ComparisonFunction::Equal, t), (ComparisonFunction::NotEqual, t)]
    } else {
        Seq::empty()
    })
        + (if t.spec_is_orderable() {
            seq![
                (ComparisonFunction::LessThan, t),
                (ComparisonFunction::LessThanOrEqual, t),
                (ComparisonFunction::GreaterThan, t),
                (ComparisonFunction::GreaterThanOrEqual, t),
            ]
        } else {
            Seq::empty()
        })
        + (if t == BsonScalarType::String {
            seq![
                (ComparisonFunction::Regex, BsonScalarType::String),
                (ComparisonFunction::IRegex, BsonScalarType::String),
            ]
        } else {
            Seq::empty()
        })
}

/// The aggregate functions available on a scalar type, each with its result type.
pub fn aggregate_functions(t: BsonScalarType) -> (r: Vec<(AggregationFunction, BsonScalarType)>)
    ensures
        r@ == spec_aggregate_functions(t),
{
    let mut r: Vec<(AggregationFunction, BsonScalarType)> = Vec::new();
    r.push((AggregationFunction::Count, BsonScalarType::Int));
    if t.is_orderable() {
        r.push((AggregationFunction::Min, t));
        r.push((AggregationFunction::Max, t));
    }
    if t.is_numeric() {
        r.push((AggregationFunction::Avg, t));
        r.push((AggregationFunction::Sum, t));
    }
    assert(r@ =~= spec_aggregate_functions(t));
    r
}

/// The comparison operators available on a scalar type, each with the type of
/// its argument.
pub fn comparison_operators(t: BsonScalarType) -> (r: Vec<(ComparisonFunction, BsonScalarType)>)
    ensures
        r@ == spec_comparison_operators(t),
{
    let mut r: Vec<(ComparisonFunction, BsonScalarType)> = Vec::new();
    if t.is_comparable() {
        r.push((ComparisonFunction::Equal, t));
        r.push((ComparisonFunction::NotEqual, t));
    }
    if t.is_orderable() {
        r.push((ComparisonFunction::LessThan, t));
        r.push((ComparisonFunction::LessThanOrEqual, t));
        r.push((ComparisonFunction::GreaterThan, t));
        r.push((ComparisonFunction::GreaterThanOrEqual, t));
    }
    if t == BsonScalarType::String {
        r.push((ComparisonFunction::Regex, BsonScalarType::String));
        r.push((ComparisonFunction::IRegex, BsonScalarType::String));
    }
    assert(r@ =~= spec_comparison_operators(t));
    r
}

/// The comparison operators of a scalar type; `ExtendedJSON` has none.
pub open spec fn operators_of(t: MongoScalarType) -> Seq<(ComparisonFunction, BsonScalarType)> {
    match t {
        MongoScalarType::Bson(b) => spec_comparison_operators(b),
        MongoScalarType::ExtendedJSON => Seq::empty(),
    }
}

/// The aggregate functions of a scalar type; `ExtendedJSON` has none.
pub open spec fn aggregates_of(t: MongoScalarType) -> Seq<(AggregationFunction, BsonScalarType)> {
    match t {
        MongoScalarType::Bson(b) => spec_aggregate_functions(b),
        MongoScalarType::ExtendedJSON => Seq::empty(),
    }
}

/// Resolves the operator that a predicate names for a column of type `t`.
pub fn resolve_comparison_operator(t: MongoScalarType, name: &str) -> (r: Result<ComparisonFunction, QueryPlanError>)
    ensures
        r is Ok <==> exists|i: int| 0 <= i < operators_of(t).len() && (#[trigger] operators_of(t)[i]).0.spec_graphql_name() == name@,
        r is Ok ==> r->Ok_0.spec_graphql_name() == name@
            && exists|i: int| 0 <= i < operators_of(t).len() && (#[trigger] operators_of(t)[i]).0 == r->Ok_0,
        r is Err ==> r->Err_0 is UnknownComparisonOperator && r->Err_0->UnknownComparisonOperator_0@ == name@,
{
    let ops: Vec<(ComparisonFunction, BsonScalarType)> = match t {
        MongoScalarType::Bson(b) => comparison_operators(b),
        MongoScalarType::ExtendedJSON => Vec::new(),
    };
    assert(ops@ =~= operators_of(t));
    let target = name.to_owned();
    let mut i: usize = 0;
    while i < ops.len()
        invariant
            ops@ == operators_of(t),
            target@ == name@,
            i <= ops@.len(),
            forall|j: int| 0 <= j < i ==> ops@[j].0.spec_graphql_name() != name@,
        decreases ops.len() - i,
    {
        let f = ops[i].0;
        if f.graphql_name().to_owned() == target {
            return Ok(f);
        }
        i = i + 1;
    }
    Err(QueryPlanError::UnknownComparisonOperator(target))
}

/// Resolves the aggregate function that a request names for a column of type `t`.
pub fn resolve_aggregate_function(t: MongoScalarType, name: &str) -> (r: Result<AggregationFunction, QueryPlanError>)
    ensures
        r is Ok <==> exists|i: int| 0 <= i < aggregates_of(t).len() && (#[trigger] aggregates_of(t)[i]).0.spec_graphql_name() == name@,
        r is Ok ==> r->Ok_0.spec_graphql_name() == name@
            && exists|i: int| 0 <= i < aggregates_of(t).len() && (#[trigger] aggregates_of(t)[i]).0 == r->Ok_0,
        r is Err ==> r->Err_0 is UnknownAggregateFunction
            && r->Err_0->UnknownAggregateFunction_aggregate_function@ == name@,
{
    let aggs: Vec<(AggregationFunction, BsonScalarType)> = match t {
        MongoScalarType::Bson(b) => aggregate_functions(b),
        MongoScalarType::ExtendedJSON => Vec::new(),
    };
    assert(aggs@ =~= aggregates_of(t));
    let target = name.to_owned();
    let mut i: usize = 0;
    while i < aggs.len()
        invariant
            aggs@ == aggregates_of(t),
            target@ == name@,
            i <= aggs@.len(),
            forall|j: int| 0 <= j < i ==> aggs@[j].0.spec_graphql_name() != name@,
        decreases aggs.len() - i,
    {
        let f = aggs[i].0;
        if f.graphql_name().to_owned() == target {
            return Ok(f);
        }
        i = i + 1;
    }
    Err(QueryPlanError::UnknownAggregateFunction { aggregate_function: target })
}

/// Every BSON scalar type, in declaration order.
pub open spec fn all_bson_scalar_types() -> Seq<BsonScalarType> {
    seq![
        BsonScalarType::Double, BsonScalarType::Decimal, BsonScalarType::Int,
        BsonScalarType::Long, BsonScalarType::String, BsonScalarType::Date,
        BsonScalarType::Timestamp, BsonScalarType::BinData, BsonScalarType::ObjectId,
        BsonScalarType::Bool, BsonScalarType::Null, BsonScalarType::Regex,
        BsonScalarType::Javascript, BsonScalarType::JavascriptWithScope,
        BsonScalarType::MinKey, BsonScalarType::MaxKey, BsonScalarType::Undefined,
        BsonScalarType::DbPointer, BsonScalarType::Symbol,
    ]
}

/// Every BSON scalar type, in declaration order.
pub fn bson_scalar_types() -> (r: Vec<BsonScalarType>)
    ensures
        r@ == all_bson_scalar_types(),
{
    let r: Vec<BsonScalarType> = vec![
        BsonScalarType::Double, BsonScalarType::Decimal, BsonScalarType::Int,
        BsonScalarType::Long, BsonScalarType::String, BsonScalarType::Date,
        BsonScalarType::Timestamp, BsonScalarType::BinData, BsonScalarType::ObjectId,
        BsonScalarType::Bool, BsonScalarType::Null, BsonScalarType::Regex,
        BsonScalarType::Javascript, BsonScalarType::JavascriptWithScope,
        BsonScalarType::MinKey, BsonScalarType::MaxKey, BsonScalarType::Undefined,
        BsonScalarType::DbPointer, BsonScalarType::Symbol,
    ];
    assert(r@ =~= all_bson_scalar_types());
    r
}

/// `published` names the aggregate function of `agg` and its result type.
pub open spec fn publishes_aggregate(published: (String, String), agg: (AggregationFunction, BsonScalarType)) -> bool {
    &&& published.0@ == agg.0.spec_graphql_name()
    &&& published.1@ == agg.1.spec_graphql_name()
}

/// The published aggregate functions match `aggs`, one for one.
pub open spec fn publishes_aggregates(
    published: Seq<(String, String)>,
    aggs: Seq<(AggregationFunction, BsonScalarType)>,
) -> bool {
    &&& published.len() == aggs.len()
    &&& forall|j: int| 0 <= j < aggs.len() ==> publishes_aggregate(#[trigger] published[j], aggs[j])
}

/// `published` is how the catalog publishes `op`: `_eq` as the built-in
/// equality, every other operator with the name of its argument type.
pub open spec fn publishes_operator(
    published: (String, ComparisonOperatorDefinition),
    op: (ComparisonFunction, BsonScalarType),
) -> bool {
    &&& published.0@ == op.0.spec_graphql_name()
    &&& (op.0 == ComparisonFunction::Equal ==> published.1 is Equal)
    &&& (op.0 != ComparisonFunction::Equal ==> published.1 is Custom
        && published.1->Custom_argument_type@ == op.1.spec_graphql_name())
}

/// The published comparison operators match `ops`, one for one.
pub open spec fn publishes_operators(
    published: Seq<(String, ComparisonOperatorDefinition)>,
    ops: Seq<(ComparisonFunction, BsonScalarType)>,
) -> bool {
    &&& published.len() == ops.len()
    &&& forall|j: int| 0 <= j < ops.len() ==> publishes_operator(#[trigger] published[j], ops[j])
}

/// `info` is what the catalog publishes for `t`.
pub open spec fn describes(info: ScalarTypeInfo, t: BsonScalarType) -> bool {
    &&& info.representation == spec_representation(t)
    &&& publishes_aggregates(info.aggregate_functions@, spec_aggregate_functions(t))
    &&& publishes_operators(info.comparison_operators@, spec_comparison_operators(t))
}

fn bson_aggregation_functions(t: BsonScalarType) -> (r: Vec<(String, String)>)
    ensures
        publishes_aggregates(r@, spec_aggregate_functions(t)),
{
    let aggs = aggregate_functions(t);
    let mut r: Vec<(String, String)> = Vec::new();
    let mut i: usize = 0;
    while i < aggs.len()
        invariant
            aggs@ == spec_aggregate_functions(t),
            i <= aggs.len(),
            r@.len() == i,
            forall|j: int| 0 <= j < i ==> publishes_aggregate(#[trigger] r@[j], aggs@[j]),
        decreases aggs.len() - i,
    {
        let (f, result_type) = aggs[i];
        r.push((f.graphql_name().to_owned(), result_type.graphql_name().to_owned()));
        i = i + 1;
    }
    r
}

fn bson_comparison_operators(t: BsonScalarType) -> (r: Vec<(String, ComparisonOperatorDefinition)>)
    ensures
        publishes_operators(r@, spec_comparison_operators(t)),
{
    let ops = comparison_operators(t);
    let mut r: Vec<(String, ComparisonOperatorDefinition)> = Vec::new();
    let mut i: usize = 0;
    while i < ops.len()
        invariant
            ops@ == spec_comparison_operators(t),
            i <= ops.len(),
            r@.len() == i,
            forall|j: int| 0 <= j < i ==> publishes_operator(#[trigger] r@[j], ops@[j]),
        decreases ops.len() - i,
    {
        let (f, argument_type) = ops[i];
        let name = f.graphql_name().to_owned();
        let definition = match f {
            ComparisonFunction::Equal => ComparisonOperatorDefinition::Equal,
            _ => ComparisonOperatorDefinition::Custom {
                argument_type: argument_type.graphql_name().to_owned(),
            },
        };
        r.push((name, definition));
        i = i + 1;
    }
    r
}

/// The catalog entry of one BSON scalar type.
pub fn make_scalar_type(t: BsonScalarType) -> (r: (String, ScalarTypeInfo))
    ensures
        r.0@ == t.spec_graphql_name(),
        describes(r.1, t),
{
    let info = ScalarTypeInfo {
        representation: bson_scalar_type_representation(t),
        aggregate_functions: bson_aggregation_functions(t),
        comparison_operators: bson_comparison_operators(t),
    };
    (t.graphql_name().to_owned(), info)
}

/// The catalog entry of `ExtendedJSON`: represented as JSON, with no aggregate
/// functions and no comparison operators.
pub fn extended_json_scalar_type() -> (r: (String, ScalarTypeInfo))
    ensures
        r.0@ == EXTENDED_JSON_TYPE_NAME@,
        r.1.representation == Some(TypeRepresentation::JSON),
        r.1.aggregate_functions@.len() == 0,
        r.1.comparison_operators@.len() == 0,
{
    let info = ScalarTypeInfo {
        representation: Some(TypeRepresentation::JSON),
        aggregate_functions: Vec::new(),
        comparison_operators: Vec::new(),
    };
    (EXTENDED_JSON_TYPE_NAME.to_owned(), info)
}

/// The scalar types of the catalog: one entry for each BSON scalar type, in
/// declaration order, then `ExtendedJSON`.
pub fn scalar_types() -> (r: Vec<(String, ScalarTypeInfo)>)
    ensures
        r@.len() == all_bson_scalar_types().len() + 1,
        forall|i: int| 0 <= i < all_bson_scalar_types().len() ==> {
            &&& #[trigger] r@[i].0@ == all_bson_scalar_types()[i].spec_graphql_name()
            &&& describes(r@[i].1, all_bson_scalar_types()[i])
        },
        r@.last().0@ == EXTENDED_JSON_TYPE_NAME@,
        r@.last().1.representation == Some(TypeRepresentation::JSON),
        r@.last().1.aggregate_functions@.len() == 0,
        r@.last().1.comparison_operators@.len() == 0,
{
    let all = bson_scalar_types();
    let mut r: Vec<(String, ScalarTypeInfo)> = Vec::new();
    let mut i: usize = 0;
    while i < all.len()
        invariant
            all@ == all_bson_scalar_types(),
            i <= all.len(),
            r@.len() == i,
            forall|j: int| 0 <= j < i ==> {
                &&& #[trigger] r@[j].0@ == all@[j].spec_graphql_name()
                &&& describes(r@[j].1, all@[j])
            },
        decreases all.len() - i,
    {
        r.push(make_scalar_type(all[i]));
        i = i + 1;
    }
    r.push(extended_json_scalar_type());
    r
}

} // verus!
