//! Binary comparison operators: their client-facing names, their MongoDB
//! names, and the expressions that apply them.
use vstd::prelude::*;
use crate::bson::{bdoc1, bdoc2, bdoc3, bson_str, doc1, doc2, doc3, pair, Bson, BsonV};
use crate::query_plan_error::QueryPlanError;

verus! {

/// Supported binary comparison operators.
#[derive(Clone, Copy, Debug, PartialEq, Eq, Structural)]
pub enum ComparisonFunction {
    LessThan,
    LessThanOrEqual,
    GreaterThan,
    GreaterThanOrEqual,
    Equal,
    NotEqual,
    Regex,
    /// case-insensitive regex
    IRegex,
}

/// Every comparison function, in declaration order.
pub open spec fn all_comparison_functions() -> Seq<ComparisonFunction> {
    seq![
        ComparisonFunction::LessThan,
        ComparisonFunction::LessThanOrEqual,
        ComparisonFunction::GreaterThan,
        ComparisonFunction::GreaterThanOrEqual,
        ComparisonFunction::Equal,
        ComparisonFunction::NotEqual,
        ComparisonFunction::Regex,
        ComparisonFunction::IRegex,
    ]
}

impl ComparisonFunction {
    pub open spec fn spec_graphql_name(self) -> Seq<char> {
        match self {
            ComparisonFunction::LessThan => "_lt"@,
            ComparisonFunction::LessThanOrEqual => "_lte"@,
            ComparisonFunction::GreaterThan => "_gt"@,
            ComparisonFunction::GreaterThanOrEqual => "_gte"@,
            ComparisonFunction::Equal => "_eq"@,
            ComparisonFunction::NotEqual => "_neq"@,
            ComparisonFunction::Regex => "_regex"@,
            ComparisonFunction::IRegex => "_iregex"@,
        }
    }

    pub open spec fn spec_mongodb_name(self) -> Seq<char> {
        match self {
            ComparisonFunction::LessThan => "$lt"@,
            ComparisonFunction::LessThanOrEqual => "$lte"@,
            ComparisonFunction::GreaterThan => "$gt"@,
            ComparisonFunction::GreaterThanOrEqual => "$gte"@,
            ComparisonFunction::Equal => "$eq"@,
            ComparisonFunction::NotEqual => "$ne"@,
            ComparisonFunction::Regex => "$regex"@,
            ComparisonFunction::IRegex => "$regex"@,
        }
    }

    /// The operator's name in client requests.
    pub fn graphql_name(self) -> (r: &'static str)
        ensures
            r@ == self.spec_graphql_name(),
    {
        match self {
            ComparisonFunction::LessThan => "_lt",
            ComparisonFunction::LessThanOrEqual => "_lte",
            ComparisonFunction::GreaterThan => "_gt",
            ComparisonFunction::GreaterThanOrEqual => "_gte",
            ComparisonFunction::Equal => "_eq",
            ComparisonFunction::NotEqual => "_neq",
            ComparisonFunction::Regex => "_regex",
            ComparisonFunction::IRegex => "_iregex",
        }
    }

    /// The MongoDB query operator.
    pub fn mongodb_name(self) -> (r: &'static str)
        ensures
            r@ == self.spec_mongodb_name(),
    {
        match self {
            ComparisonFunction::LessThan => "$lt",
            ComparisonFunction::LessThanOrEqual => "$lte",
            ComparisonFunction::GreaterThan => "$gt",
            ComparisonFunction::GreaterThanOrEqual => "$gte",
            ComparisonFunction::Equal => "$eq",
            ComparisonFunction::NotEqual => "$ne",
            ComparisonFunction::Regex => "$regex",
            ComparisonFunction::IRegex => "$regex",
        }
    }

    /// The operator whose client name is `s`.
    pub fn from_graphql_name(s: &str) -> (r: Result<ComparisonFunction, QueryPlanError>)
        ensures
            (exists|f: ComparisonFunction| f.spec_graphql_name() == s@) <==> r is Ok,
            r is Ok ==> r->Ok_0.spec_graphql_name() == s@,
            r is Err ==> r->Err_0 is UnknownComparisonOperator
                && r->Err_0->UnknownComparisonOperator_0@ == s@,
    {
        let all: [ComparisonFunction; 8] = [
            ComparisonFunction::LessThan,
            ComparisonFunction::LessThanOrEqual,
            ComparisonFunction::GreaterThan,
            ComparisonFunction::GreaterThanOrEqual,
            ComparisonFunction::Equal,
            ComparisonFunction::NotEqual,
            ComparisonFunction::Regex,
            ComparisonFunction::IRegex,
        ];
        assert(all@ == all_comparison_functions());
        let target = s.to_owned();
        let mut i: usize = 0;
        while i < 8
            invariant
                all@ == all_comparison_functions(),
                target@ == s@,
                forall|j: int| 0 <= j < i ==> all@[j].spec_graphql_name() != s@,
            decreases 8 - i,
        {
            let f = all[i];
            let name = f.graphql_name().to_owned();
            if name == target {
                return Ok(f);
            }
            i = i + 1;
        }
        assert forall|f: ComparisonFunction| f.spec_graphql_name() != s@ by {
            assert(all_comparison_functions().contains(f)) by {
                match f {
                    ComparisonFunction::LessThan => assert(all@[0] == f),
                    ComparisonFunction::LessThanOrEqual => assert(all@[1] == f),
                    ComparisonFunction::GreaterThan => assert(all@[2] == f),
                    ComparisonFunction::GreaterThanOrEqual => assert(all@[3] == f),
                    ComparisonFunction::Equal => assert(all@[4] == f),
                    ComparisonFunction::NotEqual => assert(all@[5] == f),
                    ComparisonFunction::Regex => assert(all@[6] == f),
                    ComparisonFunction::IRegex => assert(all@[7] == f),
                }
            }
        }
        Err(QueryPlanError::UnknownComparisonOperator(target))
    }

    /// The match-query form `{ column: { op: value } }`; the case-insensitive
    /// regex adds `$options: "i"`.
    pub fn mongodb_match_query(self, column_ref: &str, comparison_value: Bson) -> (r: Bson)
        ensures
            r@ == spec_match_query(self, column_ref@, comparison_value@),
    {
        match self {
            ComparisonFunction::IRegex => {
                let options = bson_str("i");
                doc1(column_ref, doc2(self.mongodb_name(), comparison_value, "$options", options))
            },
            _ => doc1(column_ref, doc1(self.mongodb_name(), comparison_value)),
        }
    }

    /// The aggregation-expression form: `{ op: [column, value] }`, or for the
    /// regex operators `{ $regexMatch: { input, regex } }`, with `options: "i"`
    /// for the case-insensitive one.
    pub fn mongodb_aggregation_expression(self, column_ref: Bson, comparison_value: Bson) -> (r: Bson)
        ensures
            r@ == spec_aggregation_expression(self, column_ref@, comparison_value@),
    {
        match self {
            ComparisonFunction::Regex => {
                doc1("$regexMatch", doc2("input", column_ref, "regex", comparison_value))
            },
            ComparisonFunction::IRegex => {
                let options = bson_str("i");
                doc1("$regexMatch", doc3("input", column_ref, "regex", comparison_value, "options", options))
            },
            _ => doc1(self.mongodb_name(), pair(column_ref, comparison_value)),
        }
    }
}

/// `{ column: { op: value } }`, with `$options: "i"` for the case-insensitive regex.
pub open spec fn spec_match_query(f: ComparisonFunction, column: Seq<char>, value: BsonV) -> BsonV {
    if f is IRegex {
        bdoc1(column, bdoc2(f.spec_mongodb_name(), value, "$options"@, BsonV::String("i"@)))
    } else {
        bdoc1(column, bdoc1(f.spec_mongodb_name(), value))
    }
}

/// `{ op: [column, value] }`, or `{ $regexMatch: { input, regex[, options: "i"] } }`.
pub open spec fn spec_aggregation_expression(f: ComparisonFunction, column: BsonV, value: BsonV) -> BsonV {
    match f {
        ComparisonFunction::Regex => bdoc1("$regexMatch"@, bdoc2("input"@, column, "regex"@, value)),
        ComparisonFunction::IRegex => bdoc1(
            "$regexMatch"@,
            bdoc3("input"@, column, "regex"@, value, "options"@, BsonV::String("i"@)),
        ),
        _ => bdoc1(f.spec_mongodb_name(), BsonV::Array(seq![column, value])),
    }
}

} // verus!
