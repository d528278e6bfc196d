//! Running one query once per variable set, or once per foreach entry, in a
//! single pipeline: a `$facet` with one branch per execution.
use vstd::prelude::*;
use crate::bson::{bdoc1, bson_entries_view, bson_seq_view, clone_bson, clone_bson_entries, doc1, push_item, Bson, BsonV};
use crate::comparison_function::ComparisonFunction;
use crate::pipeline::{
    facets_view, field_ref, pipeline_for_query, spec_pipeline_for_query, stage_view, stages_view, Pipeline, Stage, StageV,
    MongoAgentError,
};
use crate::query_plan::{ComparisonValue, Expression, QueryPlan, VariableSet};
use crate::serialization::{decimal_text, i64_text};

verus! {

/// Prefix of the names of the facet branches.
pub const FACET_FIELD: &'static str = "__FACET__";

/// One execution of a foreach query: an added predicate, or a variable set.
#[derive(Debug, PartialEq)]
pub enum ForeachVariant {
    Predicate(Expression),
    VariableSet(VariableSet),
}

/// `e` is the conjunction of the equalities `column == value` of `column_values`, in order.
pub open spec fn is_foreach_expression(e: Expression, column_values: Seq<(Seq<char>, BsonV)>) -> bool {
    &&& e is And
    &&& e->And_0@.len() == column_values.len()
    &&& forall|i: int| 0 <= i < column_values.len() ==> {
        let c = #[trigger] e->And_0@[i];
        &&& c is BinaryComparison
        &&& c->BinaryComparison_column@ == column_values[i].0
        &&& c->BinaryComparison_operator == ComparisonFunction::Equal
        &&& c->BinaryComparison_value is Scalar
        &&& c->BinaryComparison_value->Scalar_0@ == column_values[i].1
    }
}

/// Folds a foreach entry into a predicate: the conjunction of one equality per column.
pub fn make_expression(column_values: &Vec<(String, Bson)>) -> (r: Expression)
    ensures
        is_foreach_expression(r, bson_entries_view(column_values@)),
{
    proof {
        crate::bson::lemma_bson_entries_view(column_values@);
    }
    let mut sub_exps: Vec<Expression> = Vec::new();
    let mut i: usize = 0;
    while i < column_values.len()
        invariant
            i <= column_values@.len(),
            sub_exps@.len() == i,
            forall|j: int| 0 <= j < i ==> {
                let c = #[trigger] sub_exps@[j];
                &&& c is BinaryComparison
                &&& c->BinaryComparison_column@ == column_values@[j].0@
                &&& c->BinaryComparison_operator == ComparisonFunction::Equal
                &&& c->BinaryComparison_value is Scalar
                &&& c->BinaryComparison_value->Scalar_0@ == column_values@[j].1@
            },
        decreases column_values.len() - i,
    {
        let comparison = Expression::BinaryComparison {
            column: column_values[i].0.clone(),
            operator: ComparisonFunction::Equal,
            value: ComparisonValue::Scalar(clone_bson(&column_values[i].1)),
        };
        sub_exps.push(comparison);
        i = i + 1;
    }
    Expression::And(sub_exps)
}

/// The executions a request asks for: one per foreach entry, else one per
/// variable set; none where it asks for neither.
pub fn foreach_variants(query_plan: &QueryPlan) -> (r: Option<Vec<ForeachVariant>>)
    ensures
        query_plan.foreach is Some ==> r is Some && r->Some_0@.len() == query_plan.foreach->Some_0@.len()
            && forall|i: int| 0 <= i < r->Some_0@.len() ==> (#[trigger] r->Some_0@[i]) is Predicate
                && is_foreach_expression(r->Some_0@[i]->Predicate_0, bson_entries_view(query_plan.foreach->Some_0@[i]@)),
        query_plan.foreach is None && query_plan.variables is Some ==> r is Some
            && r->Some_0@.len() == query_plan.variables->Some_0@.len()
            && forall|i: int| 0 <= i < r->Some_0@.len() ==> (#[trigger] r->Some_0@[i]) is VariableSet
                && bson_entries_view(r->Some_0@[i]->VariableSet_0@) == bson_entries_view(query_plan.variables->Some_0@[i]@),
        query_plan.foreach is None && query_plan.variables is None ==> r is None,
{
    if let Some(foreach) = &query_plan.foreach {
        let mut r: Vec<ForeachVariant> = Vec::new();
        let mut i: usize = 0;
        while i < foreach.len()
            invariant
                i <= foreach@.len(),
                r@.len() == i,
                forall|j: int| 0 <= j < i ==> (#[trigger] r@[j]) is Predicate
                    && is_foreach_expression(r@[j]->Predicate_0, bson_entries_view(foreach@[j]@)),
            decreases foreach.len() - i,
        {
            r.push(ForeachVariant::Predicate(make_expression(&foreach[i])));
            i = i + 1;
        }
        Some(r)
    } else if let Some(variables) = &query_plan.variables {
        let mut r: Vec<ForeachVariant> = Vec::new();
        let mut i: usize = 0;
        while i < variables.len()
            invariant
                i <= variables@.len(),
                r@.len() == i,
                forall|j: int| 0 <= j < i ==> (#[trigger] r@[j]) is VariableSet
                    && bson_entries_view(r@[j]->VariableSet_0@) == bson_entries_view(variables@[j]@),
            decreases variables.len() - i,
        {
            r.push(ForeachVariant::VariableSet(clone_bson_entries(&variables[i])));
            i = i + 1;
        }
        Some(r)
    } else {
        None
    }
}

/// The name of the facet branch of the execution at `index`.
pub open spec fn spec_facet_name(index: int) -> Seq<char> {
    FACET_FIELD@ + "_"@ + decimal_text(index)
}

/// The name of the facet branch of the execution at `index`.
pub fn facet_name(index: usize) -> (r: String)
    requires
        index <= i64::MAX,
    ensures
        r@ == spec_facet_name(index as int),
{
    String::from_str(FACET_FIELD).concat("_").concat(i64_text(index as i64).as_str())
}

/// The pipeline of one execution.
pub open spec fn spec_variant_pipeline(plan: QueryPlan, v: ForeachVariant) -> Option<Seq<StageV>> {
    match v {
        ForeachVariant::Predicate(e) => spec_pipeline_for_query(plan.query, Some(e), None, plan.relationships@),
        ForeachVariant::VariableSet(vs) => spec_pipeline_for_query(
            plan.query,
            None,
            Some(bson_entries_view(vs@)),
            plan.relationships@,
        ),
    }
}

/// `{ row_sets: [ "$__FACET___0", ..., "$__FACET___<n-1>" ] }`.
pub open spec fn spec_row_sets_selection(n: nat) -> BsonV {
    bdoc1("row_sets"@, BsonV::Array(Seq::new(n, |i: int| BsonV::String(field_ref(spec_facet_name(i))))))
}

/// The pipeline of a foreach query: one `$facet` whose branch `__FACET___i`
/// is the pipeline of execution `i`, then a `$replaceWith` that lists the
/// branches' outputs, in order, under `row_sets`.
pub fn pipeline_for_foreach(foreach: Vec<ForeachVariant>, query_plan: &QueryPlan) -> (r: Result<Pipeline, MongoAgentError>)
    requires
        foreach@.len() <= i64::MAX,
    ensures
        (r is Ok) <==> forall|i: int| 0 <= i < foreach@.len() ==> (#[trigger] spec_variant_pipeline(*query_plan, foreach@[i])) is Some,
        r is Ok ==> {
            let p = r->Ok_0@;
            &&& p.len() == 2
            &&& p[0] is Facet
            &&& p[0]->Facet_0.len() == foreach@.len()
            &&& forall|i: int| 0 <= i < foreach@.len() ==> #[trigger] p[0]->Facet_0[i]
                == (spec_facet_name(i), spec_variant_pipeline(*query_plan, foreach@[i])->Some_0)
            &&& p[1] == StageV::ReplaceWith(spec_row_sets_selection(foreach@.len()))
        },
{
    let ghost variants = foreach@;
    let mut branches: Vec<(String, Pipeline)> = Vec::new();
    let mut references: Vec<Bson> = Vec::new();
    let mut index: usize = 0;
    while index < foreach.len()
        invariant
            variants == foreach@,
            foreach@.len() <= i64::MAX,
            index <= foreach@.len(),
            branches@.len() == index,
            forall|j: int| 0 <= j < index ==> (#[trigger] branches@[j]).0@ == spec_facet_name(j)
                && spec_variant_pipeline(*query_plan, variants[j]) == Some(branches@[j].1@),
            bson_seq_view(references@) == Seq::new(index as nat, |i: int| BsonV::String(field_ref(spec_facet_name(i)))),
        decreases foreach.len() - index,
    {
        let ghost expected = spec_variant_pipeline(*query_plan, variants[index as int]);
        let pipeline = match &foreach[index] {
            ForeachVariant::Predicate(expression) => {
                pipeline_for_query(&query_plan.query, Some(expression), None, &query_plan.relationships)
            },
            ForeachVariant::VariableSet(variables) => {
                pipeline_for_query(&query_plan.query, None, Some(variables), &query_plan.relationships)
            },
        };
        assert(match pipeline {
            Ok(p) => expected == Some(p@),
            Err(_) => expected is None,
        });
        match pipeline {
            Ok(p) => {
                let name = facet_name(index);
                let reference = String::from_str("$").concat(name.as_str());
                push_item(&mut references, Bson::String(reference));
                branches.push((name, p));
            },
            Err(e) => {
                return Err(e);
            },
        }
        index = index + 1;
        assert(bson_seq_view(references@) =~= Seq::new(index as nat, |i: int| BsonV::String(field_ref(spec_facet_name(i)))));
    }
    proof {
        crate::pipeline::lemma_facets_view(branches@);
    }
    let selection = doc1("row_sets", Bson::Array(references));
    let mut stages: Vec<Stage> = Vec::new();
    stages.push(Stage::Facet(branches));
    stages.push(Stage::ReplaceWith(selection));
    proof {
        assert forall|i: int| 0 <= i < foreach@.len() implies (#[trigger] spec_variant_pipeline(*query_plan, foreach@[i])) is Some by {
            assert(branches@[i].0@ == spec_facet_name(i));
        }
        crate::pipeline::lemma_stages_view(stages@);
        let f = facets_view(branches@);
        assert forall|i: int| 0 <= i < foreach@.len() implies #[trigger] f[i]
            == (spec_facet_name(i), spec_variant_pipeline(*query_plan, foreach@[i])->Some_0) by {
            assert(f[i] == (branches@[i].0@, stages_view(branches@[i].1.stages@)));
        }
    }
    Ok(Pipeline { stages })
}

} // verus!
