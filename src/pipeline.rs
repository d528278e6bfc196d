//! Aggregation pipelines, and the lowering of one query into one.
use vstd::prelude::*;
use crate::bson::{
    bdoc1, bdoc2, bson_entries_view, bson_seq_view, bson_str, clone_bson, doc1, doc2, lemma_bson_entries_view,
    pair, push_entry, push_item, Bson, BsonV,
};
use crate::comparison_function::spec_match_query;
use crate::scalar_types::AggregationFunction;
use crate::configuration::{find_entry, first_match, no_match};
use crate::query_plan::{Aggregate, OrderByElement, Relationship, ComparisonValue, Expression, Field, OrderDirection, Query, VariableSet};
use crate::serialization::doc_get;

verus! {

/// One stage of an aggregation pipeline.
#[derive(Debug, PartialEq)]
pub enum Stage {
    Match(Bson),
    Sort(Bson),
    Skip(u32),
    Limit(u32),
    Facet(Vec<(String, Pipeline)>),
    ReplaceWith(Bson),
    Count(String),
    Group(Bson),
    /// Joins documents of `from` under `as_field`; `let_vars` binds local
    /// fields as variables of `pipeline`.
    Lookup { from: String, let_vars: Bson, pipeline: Pipeline, as_field: String },
}

#[derive(Debug, PartialEq)]
pub struct Pipeline {
    pub stages: Vec<Stage>,
}

/// A stage as plain data.
pub enum StageV {
    Match(BsonV),
    Sort(BsonV),
    Skip(u32),
    Limit(u32),
    Facet(Seq<(Seq<char>, Seq<StageV>)>),
    ReplaceWith(BsonV),
    Count(Seq<char>),
    Group(BsonV),
    Lookup { from: Seq<char>, let_vars: BsonV, pipeline: Seq<StageV>, as_field: Seq<char> },
}

pub open spec fn stage_view(s: Stage) -> StageV
    decreases s,
{
    match s {
        Stage::Match(d) => StageV::Match(d@),
        Stage::Sort(d) => StageV::Sort(d@),
        Stage::Skip(n) => StageV::Skip(n),
        Stage::Limit(n) => StageV::Limit(n),
        Stage::Facet(branches) => StageV::Facet(facets_view(branches@)),
        Stage::ReplaceWith(d) => StageV::ReplaceWith(d@),
        Stage::Count(f) => StageV::Count(f@),
        Stage::Group(d) => StageV::Group(d@),
        Stage::Lookup { from, let_vars, pipeline, as_field } => StageV::Lookup {
            from: from@,
            let_vars: let_vars@,
            pipeline: stages_view(pipeline.stages@),
            as_field: as_field@,
        },
    }
}

pub open spec fn stages_view(s: Seq<Stage>) -> Seq<StageV>
    decreases s,
{
    if s.len() == 0 {
        Seq::empty()
    } else {
        stages_view(s.subrange(0, s.len() - 1)).push(stage_view(s[s.len() - 1]))
    }
}

pub open spec fn facets_view(s: Seq<(String, Pipeline)>) -> Seq<(Seq<char>, Seq<StageV>)>
    decreases s,
{
    if s.len() == 0 {
        Seq::empty()
    } else {
        facets_view(s.subrange(0, s.len() - 1)).push((s[s.len() - 1].0@, stages_view(s[s.len() - 1].1.stages@)))
    }
}

impl View for Pipeline {
    type V = Seq<StageV>;

    open spec fn view(&self) -> Seq<StageV> {
        stages_view(self.stages@)
    }
}

pub proof fn lemma_stages_view(s: Seq<Stage>)
    ensures
        stages_view(s).len() == s.len(),
        forall|i: int| 0 <= i < s.len() ==> #[trigger] stages_view(s)[i] == stage_view(s[i]),
    decreases s.len(),
{
    if s.len() > 0 {
        lemma_stages_view(s.subrange(0, s.len() - 1));
    }
}

pub proof fn lemma_facets_view(s: Seq<(String, Pipeline)>)
    ensures
        facets_view(s).len() == s.len(),
        forall|i: int| 0 <= i < s.len() ==> #[trigger] facets_view(s)[i] == (s[i].0@, stages_view(s[i].1.stages@)),
    decreases s.len(),
{
    if s.len() > 0 {
        lemma_facets_view(s.subrange(0, s.len() - 1));
    }
}

/// Why a query could not be lowered to a pipeline.
#[derive(Debug, PartialEq)]
pub enum MongoAgentError {
    /// A predicate refers to a variable that no variable set binds.
    VariableNotDefined(String),
    /// A relationship field names a relationship that the request does not declare.
    UnspecifiedRelation(String),
}

/// The value a comparison compares with: a literal, or the binding of a
/// variable in the variable set.
pub open spec fn spec_comparison_value(
    v: ComparisonValue,
    vars: Option<Seq<(Seq<char>, BsonV)>>,
) -> Option<BsonV> {
    match v {
        ComparisonValue::Scalar(b) => Some(b@),
        ComparisonValue::Variable(name) => match vars {
            Some(vs) => doc_get(vs, name@),
            None => None,
        },
    }
}

/// The match-query document of a predicate: `$and`, `$or` and `$nor` over
/// the documents of the parts, and each comparison in match-query form.
pub open spec fn spec_match_doc(e: Expression, vars: Option<Seq<(Seq<char>, BsonV)>>) -> Option<BsonV>
    decreases e,
{
    match e {
        Expression::And(es) => match spec_match_docs(es@, vars) {
            Some(ds) => Some(bdoc1("$and"@, BsonV::Array(ds))),
            None => None,
        },
        Expression::Or(es) => match spec_match_docs(es@, vars) {
            Some(ds) => Some(bdoc1("$or"@, BsonV::Array(ds))),
            None => None,
        },
        Expression::Not(x) => match spec_match_doc(*x, vars) {
            Some(d) => Some(bdoc1("$nor"@, BsonV::Array(seq![d]))),
            None => None,
        },
        Expression::BinaryComparison { column, operator, value } => match spec_comparison_value(value, vars) {
            Some(v) => Some(spec_match_query(operator, column@, v)),
            None => None,
        },
    }
}

pub open spec fn spec_match_docs(es: Seq<Expression>, vars: Option<Seq<(Seq<char>, BsonV)>>) -> Option<Seq<BsonV>>
    decreases es,
{
    if es.len() == 0 {
        Some(Seq::empty())
    } else {
        match (spec_match_docs(es.subrange(0, es.len() - 1), vars), spec_match_doc(es[es.len() - 1], vars)) {
            (Some(init), Some(d)) => Some(init.push(d)),
            _ => None,
        }
    }
}

pub open spec fn vars_view(vars: Option<&VariableSet>) -> Option<Seq<(Seq<char>, BsonV)>> {
    match vars {
        Some(vs) => Some(bson_entries_view(vs@)),
        None => None,
    }
}

fn comparison_value(v: &ComparisonValue, vars: Option<&VariableSet>) -> (r: Result<Bson, MongoAgentError>)
    ensures
        match r {
            Ok(b) => spec_comparison_value(*v, vars_view(vars)) == Some(b@),
            Err(_) => spec_comparison_value(*v, vars_view(vars)) is None,
        },
{
    match v {
        ComparisonValue::Scalar(b) => Ok(clone_bson(b)),
        ComparisonValue::Variable(name) => match vars {
            Some(vs) => match crate::response::entry_value(vs, name.as_str()) {
                Some(b) => Ok(clone_bson(b)),
                None => Err(MongoAgentError::VariableNotDefined(name.clone())),
            },
            None => Err(MongoAgentError::VariableNotDefined(name.clone())),
        },
    }
}

/// The match-query document of a predicate.
pub fn match_document(e: &Expression, vars: Option<&VariableSet>) -> (r: Result<Bson, MongoAgentError>)
    ensures
        match r {
            Ok(d) => spec_match_doc(*e, vars_view(vars)) == Some(d@),
            Err(_) => spec_match_doc(*e, vars_view(vars)) is None,
        },
    decreases e,
{
    match e {
        Expression::And(es) => match match_documents(es, vars) {
            Ok(ds) => Ok(doc1("$and", Bson::Array(ds))),
            Err(err) => Err(err),
        },
        Expression::Or(es) => match match_documents(es, vars) {
            Ok(ds) => Ok(doc1("$or", Bson::Array(ds))),
            Err(err) => Err(err),
        },
        Expression::Not(x) => match match_document(x, vars) {
            Ok(d) => {
                let mut v: Vec<Bson> = Vec::new();
                v.push(d);
                assert(v@.subrange(0, 0) =~= Seq::<Bson>::empty());
                assert(bson_seq_view(v@.subrange(0, 0)) =~= Seq::empty());
                assert(bson_seq_view(v@) =~= seq![d@]);
                Ok(doc1("$nor", Bson::Array(v)))
            },
            Err(err) => Err(err),
        },
        Expression::BinaryComparison { column, operator, value } => match comparison_value(value, vars) {
            Ok(v) => Ok(operator.mongodb_match_query(column.as_str(), v)),
            Err(err) => Err(err),
        },
    }
}

proof fn lemma_match_docs_none_extends(es: Seq<Expression>, vars: Option<Seq<(Seq<char>, BsonV)>>, i: int)
    requires
        0 <= i <= es.len(),
        spec_match_docs(es.subrange(0, i), vars) is None,
    ensures
        spec_match_docs(es, vars) is None,
    decreases es.len(),
{
    if i == es.len() {
        assert(es.subrange(0, i) =~= es);
    } else {
        let init = es.subrange(0, es.len() - 1);
        assert(init.subrange(0, i) =~= es.subrange(0, i));
        lemma_match_docs_none_extends(init, vars, i);
    }
}

fn match_documents(es: &Vec<Expression>, vars: Option<&VariableSet>) -> (r: Result<Vec<Bson>, MongoAgentError>)
    ensures
        match r {
            Ok(ds) => spec_match_docs(es@, vars_view(vars)) == Some(bson_seq_view(ds@)),
            Err(_) => spec_match_docs(es@, vars_view(vars)) is None,
        },
    decreases es,
{
    let mut r: Vec<Bson> = Vec::new();
    let mut i: usize = 0;
    assert(es@.subrange(0, 0) =~= Seq::<Expression>::empty());
    while i < es.len()
        invariant
            i <= es@.len(),
            spec_match_docs(es@.subrange(0, i as int), vars_view(vars)) == Some(bson_seq_view(r@)),
        decreases es.len() - i,
    {
        let ghost cur = es@.subrange(0, i + 1);
        assert(cur.subrange(0, cur.len() - 1) =~= es@.subrange(0, i as int));
        match match_document(&es[i], vars) {
            Ok(d) => {
                let ghost before = r@;
                r.push(d);
                assert(r@.subrange(0, r@.len() - 1) =~= before);
            },
            Err(err) => {
                proof {
                    lemma_match_docs_none_extends(es@, vars_view(vars), i + 1);
                }
                return Err(err);
            },
        }
        i = i + 1;
    }
    assert(es@.subrange(0, i as int) =~= es@);
    Ok(r)
}

fn push_stage(stages: &mut Vec<Stage>, s: Stage)
    ensures
        stages_view(final(stages)@) == stages_view(old(stages)@).push(stage_view(s)),
{
    let ghost before = stages@;
    stages.push(s);
    assert(stages@.subrange(0, stages@.len() - 1) =~= before);
}

fn push_facet(branches: &mut Vec<(String, Pipeline)>, name: String, p: Pipeline)
    ensures
        facets_view(final(branches)@) == facets_view(old(branches)@).push((name@, p@)),
{
    let ghost before = branches@;
    branches.push((name, p));
    assert(branches@.subrange(0, branches@.len() - 1) =~= before);
}

/// `"$" + name`: a reference to a field of the input document.
pub open spec fn field_ref(name: Seq<char>) -> Seq<char> {
    "$"@ + name
}

fn make_field_ref(name: &str) -> (r: String)
    ensures
        r@ == field_ref(name@),
{
    String::from_str("$").concat(name)
}

/// `{ $ifNull: [ "$source", null ] }`: a missing value becomes an explicit null.
pub open spec fn if_null(source: Seq<char>) -> BsonV {
    bdoc1("$ifNull"@, BsonV::Array(seq![BsonV::String(field_ref(source)), BsonV::Null]))
}

/// The value projected for a selected field: a column's value, a missing one
/// as null; for a relationship, the row set that its lookup wrote under the
/// alias (`{ rows }`, or the single `{ aggregates, rows }` document).
pub open spec fn field_value(alias: Seq<char>, f: Field) -> BsonV {
    match f {
        Field::Column { column, .. } => if_null(column@),
        Field::Relationship { aggregates, .. } => if aggregates is Some {
            bdoc1("$first"@, BsonV::String(field_ref(alias)))
        } else {
            bdoc1("rows"@, BsonV::String(field_ref(alias)))
        },
    }
}

/// The projection of the selected fields: each alias with its value.
pub open spec fn spec_projection(fields: Seq<(String, Field)>) -> BsonV {
    BsonV::Document(fields.map_values(|p: (String, Field)| (p.0@, field_value(p.0@, p.1))))
}

/// The document that projects the selected fields.
pub fn projection(fields: &Vec<(String, Field)>) -> (r: Bson)
    ensures
        r@ == spec_projection(fields@),
{
    let mut entries: Vec<(String, Bson)> = Vec::new();
    let mut i: usize = 0;
    while i < fields.len()
        invariant
            i <= fields@.len(),
            bson_entries_view(entries@) == fields@.take(i as int).map_values(
                |p: (String, Field)| (p.0@, field_value(p.0@, p.1)),
            ),
        decreases fields.len() - i,
    {
        let (alias, field) = (&fields[i].0, &fields[i].1);
        let value = match field {
            Field::Column { column, .. } => doc1("$ifNull", pair(Bson::String(make_field_ref(column.as_str())), Bson::Null)),
            Field::Relationship { aggregates, .. } => if aggregates.is_some() {
                doc1("$first", Bson::String(make_field_ref(alias.as_str())))
            } else {
                doc1("rows", Bson::String(make_field_ref(alias.as_str())))
            },
        };
        push_entry(&mut entries, alias.clone(), value);
        i = i + 1;
        assert(bson_entries_view(entries@) =~= fields@.take(i as int).map_values(
            |p: (String, Field)| (p.0@, field_value(p.0@, p.1)),
        ));
    }
    assert(fields@.take(i as int) =~= fields@);
    Bson::Document(entries)
}

/// The stages of a facet branch that computes one aggregate into `result`.
pub open spec fn spec_aggregate_stages(a: Aggregate) -> Seq<StageV> {
    match a {
        Aggregate::StarCount => seq![StageV::Count("result"@)],
        Aggregate::ColumnCount { column, distinct } => seq![
            StageV::Match(bdoc1(column@, bdoc2("$exists"@, BsonV::Boolean(true), "$ne"@, BsonV::Null))),
        ] + (if distinct {
            seq![StageV::Group(bdoc1("_id"@, BsonV::String(field_ref(column@))))]
        } else {
            Seq::empty()
        }) + seq![StageV::Count("result"@)],
        Aggregate::SingleColumn { column, function, .. } => seq![
            StageV::Group(
                bdoc2(
                    "_id"@,
                    BsonV::Null,
                    "result"@,
                    bdoc1("$"@ + function.spec_graphql_name(), BsonV::String(field_ref(column@))),
                ),
            ),
        ],
    }
}

fn aggregate_pipeline(a: &Aggregate) -> (r: Pipeline)
    ensures
        r@ == spec_aggregate_stages(*a),
{
    let mut stages: Vec<Stage> = Vec::new();
    assert(stages_view(stages@) =~= Seq::empty());
    match a {
        Aggregate::StarCount => {
            push_stage(&mut stages, Stage::Count(String::from_str("result")));
        },
        Aggregate::ColumnCount { column, distinct } => {
            let not_null = doc1(column.as_str(), doc2("$exists", Bson::Boolean(true), "$ne", Bson::Null));
            push_stage(&mut stages, Stage::Match(not_null));
            if *distinct {
                push_stage(&mut stages, Stage::Group(doc1("_id", Bson::String(make_field_ref(column.as_str())))));
            }
            push_stage(&mut stages, Stage::Count(String::from_str("result")));
        },
        Aggregate::SingleColumn { column, function, .. } => {
            let accumulator = make_field_ref(function.graphql_name());
            let group = doc2(
                "_id",
                Bson::Null,
                "result",
                doc1(accumulator.as_str(), Bson::String(make_field_ref(column.as_str()))),
            );
            push_stage(&mut stages, Stage::Group(group));
        },
    }
    assert(stages_view(stages@) =~= spec_aggregate_stages(*a));
    Pipeline { stages }
}

/// `{ $getField: { field: "result", input: { $first: { $getField: { $literal: name } } } } }`:
/// the result of the facet branch `name`.
pub open spec fn aggregate_extraction(name: Seq<char>) -> BsonV {
    bdoc1(
        "$getField"@,
        bdoc2(
            "field"@,
            BsonV::String("result"@),
            "input"@,
            bdoc1("$first"@, bdoc1("$getField"@, bdoc1("$literal"@, BsonV::String(name)))),
        ),
    )
}

fn make_aggregate_extraction(name: &str) -> (r: Bson)
    ensures
        r@ == aggregate_extraction(name@),
{
    let literal = doc1("$getField", doc1("$literal", bson_str(name)));
    doc1("$getField", doc2("field", bson_str("result"), "input", doc1("$first", literal)))
}

/// The branches of the facet that computes rows and aggregates together:
/// `__ROWS__` with the projection where fields are selected, then one branch
/// per aggregate under its name.
pub open spec fn spec_facet_branches(
    aggregates: Seq<(String, Aggregate)>,
    fields: Option<Vec<(String, Field)>>,
) -> Seq<(Seq<char>, Seq<StageV>)> {
    (if fields is Some {
        seq![("__ROWS__"@, seq![StageV::ReplaceWith(spec_projection(fields->Some_0@))])]
    } else {
        Seq::empty()
    }) + aggregates.map_values(|p: (String, Aggregate)| (p.0@, spec_aggregate_stages(p.1)))
}

/// `{ aggregates: { name: <its result>, ... }, rows: "$__ROWS__" }`, without
/// `rows` where no field is selected.
pub open spec fn spec_facet_result(aggregates: Seq<(String, Aggregate)>, with_rows: bool) -> BsonV {
    let aggregates_doc = BsonV::Document(
        aggregates.map_values(|p: (String, Aggregate)| (p.0@, aggregate_extraction(p.0@))),
    );
    if with_rows {
        bdoc2("aggregates"@, aggregates_doc, "rows"@, BsonV::String("$__ROWS__"@))
    } else {
        bdoc1("aggregates"@, aggregates_doc)
    }
}

fn facet_for_aggregates(
    aggregates: &Vec<(String, Aggregate)>,
    fields: &Option<Vec<(String, Field)>>,
) -> (r: (Stage, Stage))
    ensures
        stage_view(r.0) == StageV::Facet(spec_facet_branches(aggregates@, *fields)),
        stage_view(r.1) == StageV::ReplaceWith(spec_facet_result(aggregates@, fields is Some)),
{
    let mut branches: Vec<(String, Pipeline)> = Vec::new();
    assert(facets_view(branches@) =~= Seq::empty());
    if let Some(fs) = fields {
        let mut rows: Vec<Stage> = Vec::new();
        assert(stages_view(rows@) =~= Seq::empty());
        push_stage(&mut rows, Stage::ReplaceWith(projection(fs)));
        push_facet(&mut branches, String::from_str("__ROWS__"), Pipeline { stages: rows });
    }
    let ghost prefix = facets_view(branches@);
    let mut extractions: Vec<(String, Bson)> = Vec::new();
    let mut i: usize = 0;
    while i < aggregates.len()
        invariant
            i <= aggregates@.len(),
            facets_view(branches@) == prefix + aggregates@.take(i as int).map_values(
                |p: (String, Aggregate)| (p.0@, spec_aggregate_stages(p.1)),
            ),
            bson_entries_view(extractions@) == aggregates@.take(i as int).map_values(
                |p: (String, Aggregate)| (p.0@, aggregate_extraction(p.0@)),
            ),
        decreases aggregates.len() - i,
    {
        let (name, aggregate) = (&aggregates[i].0, &aggregates[i].1);
        push_facet(&mut branches, name.clone(), aggregate_pipeline(aggregate));
        push_entry(&mut extractions, name.clone(), make_aggregate_extraction(name.as_str()));
        i = i + 1;
        assert(facets_view(branches@) =~= prefix + aggregates@.take(i as int).map_values(
            |p: (String, Aggregate)| (p.0@, spec_aggregate_stages(p.1)),
        ));
        assert(bson_entries_view(extractions@) =~= aggregates@.take(i as int).map_values(
            |p: (String, Aggregate)| (p.0@, aggregate_extraction(p.0@)),
        ));
    }
    assert(aggregates@.take(i as int) =~= aggregates@);
    assert(facets_view(branches@) =~= spec_facet_branches(aggregates@, *fields));
    let aggregates_doc = Bson::Document(extractions);
    let result = if fields.is_some() {
        doc2("aggregates", aggregates_doc, "rows", bson_str("$__ROWS__"))
    } else {
        doc1("aggregates", aggregates_doc)
    };
    (Stage::Facet(branches), Stage::ReplaceWith(result))
}

/// `{ column: 1 }` for ascending, `{ column: -1 }` for descending, in order.
pub open spec fn spec_sort_doc(order_by: Seq<OrderByElement>) -> BsonV {
    BsonV::Document(order_by.map_values(
        |o: OrderByElement| (o.column@, BsonV::Int32(if o.direction == OrderDirection::Asc { 1i32 } else { -1i32 })),
    ))
}

fn sort_document(order_by: &Vec<OrderByElement>) -> (r: Bson)
    ensures
        r@ == spec_sort_doc(order_by@),
{
    let mut entries: Vec<(String, Bson)> = Vec::new();
    let mut i: usize = 0;
    while i < order_by.len()
        invariant
            i <= order_by@.len(),
            bson_entries_view(entries@) == order_by@.take(i as int).map_values(
                |o: OrderByElement| (o.column@, BsonV::Int32(if o.direction == OrderDirection::Asc { 1i32 } else { -1i32 })),
            ),
        decreases order_by.len() - i,
    {
        let direction: i32 = match order_by[i].direction {
            OrderDirection::Asc => 1,
            OrderDirection::Desc => -1,
        };
        push_entry(&mut entries, order_by[i].column.clone(), Bson::Int32(direction));
        i = i + 1;
        assert(bson_entries_view(entries@) =~= order_by@.take(i as int).map_values(
            |o: OrderByElement| (o.column@, BsonV::Int32(if o.direction == OrderDirection::Asc { 1i32 } else { -1i32 })),
        ));
    }
    assert(order_by@.take(i as int) =~= order_by@);
    Bson::Document(entries)
}

/// The `$match` stage of a query, where it has a predicate: its own predicate,
/// the added one, or both under `$and`.
pub open spec fn spec_match_stages(
    query: Query,
    extra: Option<Expression>,
    vars: Option<Seq<(Seq<char>, BsonV)>>,
) -> Option<Seq<StageV>> {
    match (query.predicate, extra) {
        (None, None) => Some(Seq::empty()),
        (Some(p), None) => match spec_match_doc(p, vars) {
            Some(d) => Some(seq![StageV::Match(d)]),
            None => None,
        },
        (None, Some(x)) => match spec_match_doc(x, vars) {
            Some(d) => Some(seq![StageV::Match(d)]),
            None => None,
        },
        (Some(p), Some(x)) => match (spec_match_doc(p, vars), spec_match_doc(x, vars)) {
            (Some(a), Some(b)) => Some(seq![StageV::Match(bdoc1("$and"@, BsonV::Array(seq![a, b])))]),
            _ => None,
        },
    }
}

/// `$sort`, then `$skip`, then `$limit`, each where the query asks for it.
pub open spec fn spec_paging_stages(query: Query) -> Seq<StageV> {
    (if query.order_by is Some {
        seq![StageV::Sort(spec_sort_doc(query.order_by->Some_0@))]
    } else {
        Seq::empty()
    }) + (if query.offset is Some {
        seq![StageV::Skip(query.offset->Some_0)]
    } else {
        Seq::empty()
    }) + (if query.limit is Some {
        seq![StageV::Limit(query.limit->Some_0)]
    } else {
        Seq::empty()
    })
}

/// The stages that shape the output: a facet and its collection where
/// aggregates are requested, else the projection of the selected fields.
pub open spec fn spec_shape(
    aggregates: Option<Vec<(String, Aggregate)>>,
    fields: Option<Vec<(String, Field)>>,
) -> Seq<StageV> {
    if aggregates is Some {
        seq![
            StageV::Facet(spec_facet_branches(aggregates->Some_0@, fields)),
            StageV::ReplaceWith(spec_facet_result(aggregates->Some_0@, fields is Some)),
        ]
    } else if fields is Some {
        seq![StageV::ReplaceWith(spec_projection(fields->Some_0@))]
    } else {
        Seq::empty()
    }
}

pub open spec fn spec_shape_stages(query: Query) -> Seq<StageV> {
    spec_shape(query.aggregates, query.fields)
}

fn push_shape(
    aggregates: &Option<Vec<(String, Aggregate)>>,
    fields: &Option<Vec<(String, Field)>>,
    stages: &mut Vec<Stage>,
)
    ensures
        stages_view(final(stages)@) == stages_view(old(stages)@) + spec_shape(*aggregates, *fields),
{
    let ghost start = stages_view(stages@);
    if let Some(aggregates) = aggregates {
        let (facet, collect) = facet_for_aggregates(aggregates, fields);
        push_stage(stages, facet);
        push_stage(stages, collect);
    } else if let Some(fields) = fields {
        push_stage(stages, Stage::ReplaceWith(projection(fields)));
    }
    assert(stages_view(stages@) =~= start + spec_shape(*aggregates, *fields));
}

/// `v_<column>`: the variable that binds a local column in a lookup.
pub open spec fn join_variable(column: Seq<char>) -> Seq<char> {
    "v_"@ + column
}

/// The lookup's variables: each local column of the mapping under its variable.
pub open spec fn join_variables(mapping: Seq<(String, String)>) -> BsonV {
    BsonV::Document(mapping.map_values(|m: (String, String)| (join_variable(m.0@), BsonV::String(field_ref(m.0@)))))
}

/// `{ $expr: { $and: [ { $eq: [ "$$v_<local>", "$<target>" ] }, ... ] } }`.
pub open spec fn join_condition(mapping: Seq<(String, String)>) -> BsonV {
    bdoc1("$expr"@, bdoc1("$and"@, BsonV::Array(mapping.map_values(
        |m: (String, String)| bdoc1(
            "$eq"@,
            BsonV::Array(seq![BsonV::String("$$"@ + join_variable(m.0@)), BsonV::String(field_ref(m.1@))]),
        ),
    ))))
}

fn join_documents(mapping: &Vec<(String, String)>) -> (r: (Bson, Bson))
    ensures
        r.0@ == join_variables(mapping@),
        r.1@ == join_condition(mapping@),
{
    let mut variables: Vec<(String, Bson)> = Vec::new();
    let mut conditions: Vec<Bson> = Vec::new();
    let mut i: usize = 0;
    while i < mapping.len()
        invariant
            i <= mapping@.len(),
            bson_entries_view(variables@) == mapping@.take(i as int).map_values(
                |m: (String, String)| (join_variable(m.0@), BsonV::String(field_ref(m.0@))),
            ),
            bson_seq_view(conditions@) == mapping@.take(i as int).map_values(
                |m: (String, String)| bdoc1(
                    "$eq"@,
                    BsonV::Array(seq![BsonV::String("$$"@ + join_variable(m.0@)), BsonV::String(field_ref(m.1@))]),
                ),
            ),
        decreases mapping.len() - i,
    {
        let (local, target) = (&mapping[i].0, &mapping[i].1);
        let variable = String::from_str("v_").concat(local.as_str());
        let reference = String::from_str("$$").concat(variable.as_str());
        push_entry(&mut variables, variable, Bson::String(make_field_ref(local.as_str())));
        push_item(&mut conditions, doc1("$eq", pair(Bson::String(reference), Bson::String(make_field_ref(target.as_str())))));
        i = i + 1;
        assert(bson_entries_view(variables@) =~= mapping@.take(i as int).map_values(
            |m: (String, String)| (join_variable(m.0@), BsonV::String(field_ref(m.0@))),
        ));
        assert(bson_seq_view(conditions@) =~= mapping@.take(i as int).map_values(
            |m: (String, String)| bdoc1(
                "$eq"@,
                BsonV::Array(seq![BsonV::String("$$"@ + join_variable(m.0@)), BsonV::String(field_ref(m.1@))]),
            ),
        ));
    }
    assert(mapping@.take(i as int) =~= mapping@);
    (Bson::Document(variables), doc1("$expr", doc1("$and", Bson::Array(conditions))))
}

/// The `$lookup` stages of the relationship fields among `fields`, in order.
pub open spec fn spec_lookups(rels: Seq<(String, Relationship)>, fields: Seq<(String, Field)>) -> Option<Seq<StageV>>
    decreases fields,
{
    if fields.len() == 0 {
        Some(Seq::empty())
    } else {
        let last = fields[fields.len() - 1];
        match (spec_lookups(rels, fields.subrange(0, fields.len() - 1)), spec_field_lookup(rels, last.0@, last.1)) {
            (Some(init), Some(l)) => Some(init + l),
            _ => None,
        }
    }
}

/// The `$lookup` of one field, where it is a relationship: the target
/// collection's documents that match the join, with the relationship's own
/// lookups and shape, under the alias.
pub open spec fn spec_field_lookup(rels: Seq<(String, Relationship)>, alias: Seq<char>, f: Field) -> Option<Seq<StageV>>
    decreases f,
{
    match f {
        Field::Column { .. } => Some(Seq::empty()),
        Field::Relationship { relationship, aggregates, fields } => {
            if no_match(rels, relationship@) {
                None
            } else {
                let rel = rels[choose|i: int| first_match(rels, relationship@, i)].1;
                let inner = match fields {
                    Some(fs) => spec_lookups(rels, fs@),
                    None => Some(Seq::empty()),
                };
                match inner {
                    Some(lookups) => Some(seq![StageV::Lookup {
                        from: rel.target_collection@,
                        let_vars: join_variables(rel.column_mapping@),
                        pipeline: seq![StageV::Match(join_condition(rel.column_mapping@))] + lookups
                            + spec_shape(aggregates, fields),
                        as_field: alias,
                    }]),
                    None => None,
                }
            }
        },
    }
}

proof fn lemma_lookups_none_extends(rels: Seq<(String, Relationship)>, fields: Seq<(String, Field)>, i: int)
    requires
        0 <= i <= fields.len(),
        spec_lookups(rels, fields.subrange(0, i)) is None,
    ensures
        spec_lookups(rels, fields) is None,
    decreases fields.len(),
{
    if i == fields.len() {
        assert(fields.subrange(0, i) =~= fields);
    } else {
        let init = fields.subrange(0, fields.len() - 1);
        assert(init.subrange(0, i) =~= fields.subrange(0, i));
        lemma_lookups_none_extends(rels, init, i);
    }
}

fn push_lookups(
    rels: &Vec<(String, Relationship)>,
    fields: &Vec<(String, Field)>,
    stages: &mut Vec<Stage>,
) -> (r: Result<(), MongoAgentError>)
    ensures
        match r {
            Ok(()) => spec_lookups(rels@, fields@) is Some
                && stages_view(final(stages)@) == stages_view(old(stages)@) + spec_lookups(rels@, fields@)->Some_0,
            Err(_) => spec_lookups(rels@, fields@) is None,
        },
    decreases fields,
{
    let ghost start = stages_view(stages@);
    let mut i: usize = 0;
    assert(fields@.subrange(0, 0) =~= Seq::<(String, Field)>::empty());
    assert(stages_view(stages@) =~= start + Seq::empty());
    while i < fields.len()
        invariant
            i <= fields@.len(),
            spec_lookups(rels@, fields@.subrange(0, i as int)) is Some,
            stages_view(stages@) == start + spec_lookups(rels@, fields@.subrange(0, i as int))->Some_0,
        decreases fields.len() - i,
    {
        let ghost cur = fields@.subrange(0, i + 1);
        assert(cur.subrange(0, cur.len() - 1) =~= fields@.subrange(0, i as int));
        assert(cur[cur.len() - 1] == fields@[i as int]);
        let ghost before = stages_view(stages@);
        match push_field_lookup(rels, &fields[i].0, &fields[i].1, stages) {
            Ok(()) => {},
            Err(e) => {
                proof {
                    lemma_lookups_none_extends(rels@, fields@, i + 1);
                }
                return Err(e);
            },
        }
        i = i + 1;
        assert(stages_view(stages@) =~= start + spec_lookups(rels@, fields@.subrange(0, i as int))->Some_0);
    }
    assert(fields@.subrange(0, i as int) =~= fields@);
    Ok(())
}

fn push_field_lookup(
    rels: &Vec<(String, Relationship)>,
    alias: &String,
    field: &Field,
    stages: &mut Vec<Stage>,
) -> (r: Result<(), MongoAgentError>)
    ensures
        match r {
            Ok(()) => spec_field_lookup(rels@, alias@, *field) is Some
                && stages_view(final(stages)@) == stages_view(old(stages)@) + spec_field_lookup(rels@, alias@, *field)->Some_0,
            Err(_) => spec_field_lookup(rels@, alias@, *field) is None,
        },
    decreases field,
{
    match field {
        Field::Column { .. } => {
            assert(stages_view(stages@) =~= stages_view(stages@) + Seq::empty());
            Ok(())
        },
        Field::Relationship { relationship, aggregates, fields } => {
            let k = match find_entry(rels, relationship.as_str()) {
                Some(k) => k,
                None => { return Err(MongoAgentError::UnspecifiedRelation(relationship.clone())); },
            };
            proof {
                let c = choose|c: int| first_match(rels@, relationship@, c);
                assert(c == k as int) by {
                    if c < k as int { } else if c > k as int { }
                }
            }
            let rel = &rels[k].1;
            let (let_vars, condition) = join_documents(&rel.column_mapping);
            let mut inner: Vec<Stage> = Vec::new();
            assert(stages_view(inner@) =~= Seq::empty());
            push_stage(&mut inner, Stage::Match(condition));
            if let Some(fs) = fields {
                match push_lookups(rels, fs, &mut inner) {
                    Ok(()) => {},
                    Err(e) => { return Err(e); },
                }
            } else {
                assert(stages_view(inner@) =~= stages_view(inner@) + Seq::empty());
            }
            push_shape(aggregates, fields, &mut inner);
            let lookup = Stage::Lookup {
                from: rel.target_collection.clone(),
                let_vars,
                pipeline: Pipeline { stages: inner },
                as_field: alias.clone(),
            };
            let ghost before = stages_view(stages@);
            push_stage(stages, lookup);
            assert(stages_view(stages@) =~= before + spec_field_lookup(rels@, alias@, *field)->Some_0);
            Ok(())
        },
    }
}

/// The lookups of a query's relationship fields.
pub open spec fn spec_query_lookups(query: Query, rels: Seq<(String, Relationship)>) -> Option<Seq<StageV>> {
    match query.fields {
        Some(fs) => spec_lookups(rels, fs@),
        None => Some(Seq::empty()),
    }
}

/// The pipeline of one query, with a predicate added and variables bound:
/// `$match`, the lookups, `$sort`, `$skip`, `$limit`, then the shape.
pub open spec fn spec_pipeline_for_query(
    query: Query,
    extra: Option<Expression>,
    vars: Option<Seq<(Seq<char>, BsonV)>>,
    rels: Seq<(String, Relationship)>,
) -> Option<Seq<StageV>> {
    match (spec_match_stages(query, extra, vars), spec_query_lookups(query, rels)) {
        (Some(m), Some(l)) => Some(m + l + spec_paging_stages(query) + spec_shape_stages(query)),
        _ => None,
    }
}

/// Lowers one query to a pipeline: `$match`, a `$lookup` per relationship
/// field, `$sort`, `$skip`, `$limit`, then the projection, or a facet where
/// aggregates are requested. `extra` is a predicate added to the query's own;
/// `variables` bind its variables; `relationships` are those the request
/// declares.
pub fn pipeline_for_query(
    query: &Query,
    extra: Option<&Expression>,
    variables: Option<&VariableSet>,
    relationships: &Vec<(String, Relationship)>,
) -> (r: Result<Pipeline, MongoAgentError>)
    ensures
        match r {
            Ok(p) => spec_pipeline_for_query(*query, opt_expression(extra), vars_view(variables), relationships@)
                == Some(p@),
            Err(_) => spec_pipeline_for_query(*query, opt_expression(extra), vars_view(variables), relationships@)
                is None,
        },
{
    let mut stages: Vec<Stage> = Vec::new();
    assert(stages_view(stages@) =~= Seq::empty());
    match (&query.predicate, extra) {
        (None, None) => {},
        (Some(p), None) => match match_document(p, variables) {
            Ok(d) => push_stage(&mut stages, Stage::Match(d)),
            Err(e) => { return Err(e); },
        },
        (None, Some(x)) => match match_document(x, variables) {
            Ok(d) => push_stage(&mut stages, Stage::Match(d)),
            Err(e) => { return Err(e); },
        },
        (Some(p), Some(x)) => {
            let a = match match_document(p, variables) {
                Ok(d) => d,
                Err(e) => { return Err(e); },
            };
            let b = match match_document(x, variables) {
                Ok(d) => d,
                Err(e) => { return Err(e); },
            };
            push_stage(&mut stages, Stage::Match(doc1("$and", pair(a, b))));
        },
    }
    let ghost m = stages_view(stages@);
    if let Some(fields) = &query.fields {
        match push_lookups(relationships, fields, &mut stages) {
            Ok(()) => {},
            Err(e) => { return Err(e); },
        }
    } else {
        assert(stages_view(stages@) =~= m + Seq::empty());
    }
    let ghost ml = stages_view(stages@);
    assert(ml == m + spec_query_lookups(*query, relationships@)->Some_0);
    if let Some(order_by) = &query.order_by {
        push_stage(&mut stages, Stage::Sort(sort_document(order_by)));
    }
    if let Some(offset) = query.offset {
        push_stage(&mut stages, Stage::Skip(offset));
    }
    if let Some(limit) = query.limit {
        push_stage(&mut stages, Stage::Limit(limit));
    }
    assert(stages_view(stages@) =~= ml + spec_paging_stages(*query));
    push_shape(&query.aggregates, &query.fields, &mut stages);
    Ok(Pipeline { stages })
}

pub open spec fn opt_expression(e: Option<&Expression>) -> Option<Expression> {
    match e {
        Some(x) => Some(*x),
        None => None,
    }
}

} // verus!
