//! The resolved query plan: what a request asks for, with every column's type.
use vstd::prelude::*;
use crate::bson::Bson;
use crate::comparison_function::ComparisonFunction;
use crate::scalar_types::AggregationFunction;
use crate::types::Type;

verus! {

#[derive(Debug, PartialEq)]
pub enum Aggregate {
    ColumnCount { column: String, distinct: bool },
    SingleColumn { column: String, function: AggregationFunction, result_type: Type },
    StarCount,
}

/// A selection inside an object or array column.
#[derive(Debug, PartialEq)]
pub enum NestedField {
    Object(Vec<(String, Field)>),
    Array(Box<NestedField>),
}

/// A selected field of a row.
#[allow(inconsistent_fields)]
#[derive(Debug, PartialEq)]
pub enum Field {
    Column { column: String, column_type: Type, fields: Option<NestedField> },
    Relationship {
        relationship: String,
        aggregates: Option<Vec<(String, Aggregate)>>,
        fields: Option<Vec<(String, Field)>>,
    },
}

/// The right-hand side of a comparison.
#[derive(Debug, PartialEq)]
pub enum ComparisonValue {
    Scalar(Bson),
    Variable(String),
}

/// A predicate over the documents of a collection.
#[derive(Debug, PartialEq)]
pub enum Expression {
    And(Vec<Expression>),
    Or(Vec<Expression>),
    Not(Box<Expression>),
    BinaryComparison { column: String, operator: ComparisonFunction, value: ComparisonValue },
}

#[derive(Clone, Copy, Debug, PartialEq, Eq, Structural)]
pub enum OrderDirection {
    Asc,
    Desc,
}

#[derive(Debug, PartialEq)]
pub struct OrderByElement {
    pub column: String,
    pub direction: OrderDirection,
}

#[derive(Debug, PartialEq)]
pub struct Query {
    pub aggregates: Option<Vec<(String, Aggregate)>>,
    pub fields: Option<Vec<(String, Field)>>,
    pub limit: Option<u32>,
    pub offset: Option<u32>,
    pub order_by: Option<Vec<OrderByElement>>,
    pub predicate: Option<Expression>,
}

/// A relationship from the query's collection to another: the target
/// collection and pairs of (local column, target column) that must be equal.
#[derive(Debug, PartialEq)]
pub struct Relationship {
    pub target_collection: String,
    pub column_mapping: Vec<(String, String)>,
}

/// Values for the variables of one execution of a query.
pub type VariableSet = Vec<(String, Bson)>;

#[derive(Debug, PartialEq)]
pub struct QueryPlan {
    pub collection: String,
    pub query: Query,
    /// The relationships that relationship fields name.
    pub relationships: Vec<(String, Relationship)>,
    pub variables: Option<Vec<VariableSet>>,
    /// Column values, one map per execution, each an added equality predicate.
    pub foreach: Option<Vec<Vec<(String, Bson)>>>,
}

impl Query {
    pub open spec fn spec_has_aggregates(&self) -> bool {
        self.aggregates is Some
    }

    /// Whether aggregates were requested.
    pub fn has_aggregates(&self) -> (r: bool)
        ensures
            r == self.spec_has_aggregates(),
    {
        self.aggregates.is_some()
    }
}

impl QueryPlan {
    pub open spec fn spec_has_variables(&self) -> bool {
        self.variables is Some || self.foreach is Some
    }

    /// Whether the request runs once per variable set or per foreach entry.
    pub fn has_variables(&self) -> (r: bool)
        ensures
            r == self.spec_has_variables(),
    {
        self.variables.is_some() || self.foreach.is_some()
    }
}

} // verus!
