//! The response serializer: it builds the type of each row (or row set) from
//! the plan, then converts the documents MongoDB returned against that type.
use vstd::prelude::*;
use crate::bson::{bson_seq_view, bson_view, json_entries_view, lemma_bson_entries_view, lemma_bson_seq_view, Bson, BsonV, JsonV, JsonValue};
use crate::configuration::{entry_names, find_entry, string_views};
use crate::query_plan::{Aggregate, Field, NestedField, Query, QueryPlan};
use crate::serialization::{bson_to_json, doc_get, spec_bson_to_json, spec_ext_json, spec_fields_to_json, to_ext_json};
use crate::scalar_types::MongoScalarType;
use crate::types::{
    clone_type, is_nullable, spec_into_nullable, spec_is_nullable, ObjectType, Type, TypeV,
};

verus! {

/// Why the documents MongoDB returned could not be turned into a response.
#[derive(Debug, PartialEq)]
pub enum QueryResponseError {
    AggregatesNotObject { path: Vec<String> },
    BsonDeserialization(String),
    BsonToJson(String),
    ExpectedSingleDocument,
    NoFieldsSelected { path: Vec<String> },
}

/// The elements' type of an array type, through any `Nullable` layers; any
/// other type is its own element type.
pub open spec fn spec_element_type(t: TypeV) -> TypeV
    decreases t,
{
    match t {
        TypeV::Nullable(e) => spec_element_type(*e),
        TypeV::ArrayOf(e) => *e,
        _ => t,
    }
}

/// The type of the aggregates of a row set: any BSON value.
pub open spec fn spec_aggregates_type() -> TypeV {
    TypeV::Scalar(MongoScalarType::ExtendedJSON)
}

/// The types of the selected fields, under their aliases, in order.
pub open spec fn spec_fields_types(fields: Seq<(String, Field)>) -> Seq<(Seq<char>, TypeV)>
    decreases fields,
{
    if fields.len() == 0 {
        Seq::empty()
    } else {
        spec_fields_types(fields.subrange(0, fields.len() - 1)).push(
            (fields[fields.len() - 1].0@, spec_field_type(fields[fields.len() - 1].1)),
        )
    }
}

/// The type of one selected field: a column's own type, a nested selection's
/// synthetic type, or a relationship's row set.
pub open spec fn spec_field_type(f: Field) -> TypeV
    decreases f,
{
    match f {
        Field::Column { column_type, fields: None, .. } => column_type@,
        Field::Column { column_type, fields: Some(nested), .. } => spec_nested_type(column_type@, nested),
        Field::Relationship { aggregates, fields, .. } => TypeV::Object(
            None,
            (if aggregates is Some {
                seq![("aggregates"@, spec_aggregates_type())]
            } else {
                Seq::empty()
            }) + match fields {
                Some(fs) => seq![("rows"@, TypeV::ArrayOf(Box::new(TypeV::Object(None, spec_fields_types(fs@)))))],
                None => Seq::empty(),
            },
        ),
    }
}

/// The type of a nested selection inside a column of type `parent`; a
/// nullable parent makes it nullable.
pub open spec fn spec_nested_type(parent: TypeV, nested: NestedField) -> TypeV
    decreases nested,
{
    let t = match nested {
        NestedField::Object(fields) => TypeV::Object(None, spec_fields_types(fields@)),
        NestedField::Array(inner) => TypeV::ArrayOf(Box::new(spec_nested_type(spec_element_type(parent), *inner))),
    };
    if spec_is_nullable(parent) {
        spec_into_nullable(t)
    } else {
        t
    }
}

/// The type of a row that selects `fields`.
pub open spec fn spec_row_type(fields: Seq<(String, Field)>) -> TypeV {
    TypeV::Object(None, spec_fields_types(fields))
}

/// The type of a row set: `aggregates` where aggregates are requested, and
/// `rows` where fields are.
pub open spec fn spec_row_set_type(
    aggregates: Option<Vec<(String, Aggregate)>>,
    fields: Option<Vec<(String, Field)>>,
) -> TypeV {
    TypeV::Object(
        None,
        (if aggregates is Some {
            seq![("aggregates"@, spec_aggregates_type())]
        } else {
            Seq::empty()
        }) + match fields {
            Some(fs) => seq![("rows"@, TypeV::ArrayOf(Box::new(spec_row_type(fs@))))],
            None => Seq::empty(),
        },
    )
}

/// Extends a path with one element.
pub fn append_to_path(path: &Vec<String>, elem: &str) -> (r: Vec<String>)
    ensures
        string_views(r@) == string_views(path@).push(elem@),
{
    let mut r = path_to_owned(path);
    r.push(elem.to_owned());
    assert(string_views(r@) =~= string_views(path@).push(elem@));
    r
}

/// A copy of a path.
pub fn path_to_owned(path: &Vec<String>) -> (r: Vec<String>)
    ensures
        string_views(r@) == string_views(path@),
{
    let mut r: Vec<String> = Vec::new();
    let mut i: usize = 0;
    while i < path.len()
        invariant
            i <= path@.len(),
            r@.len() == i,
            forall|j: int| 0 <= j < i ==> #[trigger] r@[j]@ == path@[j]@,
        decreases path.len() - i,
    {
        r.push(path[i].clone());
        i = i + 1;
    }
    assert(string_views(r@) =~= string_views(path@));
    r
}

/// Element type of an array type, permissive where the type is no array.
pub fn element_type(probably_array_type: &Type) -> (r: &Type)
    ensures
        r@ == spec_element_type(probably_array_type@),
    decreases probably_array_type,
{
    match probably_array_type {
        Type::Nullable(pt) => element_type(pt),
        Type::ArrayOf(pt) => pt,
        _ => probably_array_type,
    }
}

/// The type of aggregate values.
pub fn type_for_aggregates() -> (r: Result<Type, QueryResponseError>)
    ensures
        r is Ok && r->Ok_0@ == spec_aggregates_type(),
{
    Ok(Type::Scalar(MongoScalarType::ExtendedJSON))
}

fn type_for_fields(path: &Vec<String>, query_fields: &Vec<(String, Field)>) -> (r: Vec<(String, Type)>)
    ensures
        crate::types::type_fields_view(r@) == spec_fields_types(query_fields@),
    decreases query_fields,
{
    let mut r: Vec<(String, Type)> = Vec::new();
    let mut i: usize = 0;
    while i < query_fields.len()
        invariant
            i <= query_fields@.len(),
            crate::types::type_fields_view(r@) == spec_fields_types(query_fields@.subrange(0, i as int)),
        decreases query_fields.len() - i,
    {
        let (field_name, field_definition) = (&query_fields[i].0, &query_fields[i].1);
        let field_path = append_to_path(path, field_name.as_str());
        let field_type = type_for_field(&field_path, field_definition);
        let ghost before = r@;
        match field_type {
            Ok(t) => r.push((field_name.clone(), t)),
            Err(_) => {},
        }
        proof {
            let s = query_fields@.subrange(0, i + 1);
            assert(s.subrange(0, s.len() - 1) =~= query_fields@.subrange(0, i as int));
            assert(r@.subrange(0, r@.len() - 1) =~= before);
        }
        i = i + 1;
    }
    assert(query_fields@.subrange(0, i as int) =~= query_fields@);
    r
}

/// The type of a row that selects `query_fields`.
pub fn type_for_row(path: &Vec<String>, query_fields: &Vec<(String, Field)>) -> (r: Result<Type, QueryResponseError>)
    ensures
        r is Ok && r->Ok_0@ == spec_row_type(query_fields@),
    decreases query_fields, 1nat,
{
    let fields = type_for_fields(path, query_fields);
    Ok(Type::Object(ObjectType { fields, name: None }))
}

/// The type of one selected field.
pub fn type_for_field(path: &Vec<String>, field_definition: &Field) -> (r: Result<Type, QueryResponseError>)
    ensures
        r is Ok && r->Ok_0@ == spec_field_type(*field_definition),
    decreases field_definition,
{
    match field_definition {
        Field::Column { column_type, fields: None, .. } => Ok(clone_type(column_type)),
        Field::Column { column_type, fields: Some(nested_field), .. } => type_for_nested_field(path, column_type, nested_field),
        Field::Relationship { aggregates, fields, .. } => {
            let t = type_for_row_set(path, aggregates, fields);
            t
        },
    }
}

/// The type of a nested selection inside a column of type `parent_type`.
pub fn type_for_nested_field(
    path: &Vec<String>,
    parent_type: &Type,
    nested_field: &NestedField,
) -> (r: Result<Type, QueryResponseError>)
    ensures
        r is Ok && r->Ok_0@ == spec_nested_type(parent_type@, *nested_field),
    decreases nested_field,
{
    let field_type = match nested_field {
        NestedField::Object(fields) => {
            let fields = type_for_fields(path, fields);
            Type::Object(ObjectType { fields, name: None })
        },
        NestedField::Array(nested) => {
            let element_path = append_to_path(path, "[]");
            let inner = type_for_nested_field(&element_path, element_type(parent_type), nested);
            match inner {
                Ok(t) => Type::ArrayOf(Box::new(t)),
                Err(e) => { return Err(e); },
            }
        },
    };
    if is_nullable(parent_type) {
        Ok(field_type.into_nullable())
    } else {
        Ok(field_type)
    }
}

/// The type of a row set with the given aggregates and fields.
pub fn type_for_row_set(
    path: &Vec<String>,
    aggregates: &Option<Vec<(String, Aggregate)>>,
    fields: &Option<Vec<(String, Field)>>,
) -> (r: Result<Type, QueryResponseError>)
    ensures
        r is Ok && r->Ok_0@ == spec_row_set_type(*aggregates, *fields),
    decreases fields,
{
    let ghost prefix: Seq<(Seq<char>, TypeV)> = if aggregates is Some {
        seq![("aggregates"@, spec_aggregates_type())]
    } else {
        Seq::empty()
    };
    let ghost suffix: Seq<(Seq<char>, TypeV)> = if fields is Some {
        seq![("rows"@, TypeV::ArrayOf(Box::new(spec_row_type(fields->Some_0@))))]
    } else {
        Seq::empty()
    };
    let mut type_fields: Vec<(String, Type)> = Vec::new();
    if aggregates.is_some() {
        let aggregates_type = match type_for_aggregates() {
            Ok(t) => t,
            Err(e) => { return Err(e); },
        };
        type_fields.push(("aggregates".to_owned(), aggregates_type));
        assert(type_fields@.subrange(0, 0) =~= Seq::<(String, Type)>::empty());
        assert(crate::types::type_fields_view(type_fields@.subrange(0, 0)) =~= Seq::empty());
        assert(crate::types::type_view(type_fields@[0].1) == spec_aggregates_type());
    } else {
        assert(crate::types::type_fields_view(type_fields@) =~= Seq::empty());
    }
    assert(crate::types::type_fields_view(type_fields@) =~= prefix);
    let ghost before = type_fields@;
    if let Some(query_fields) = fields {
        let row_fields = type_for_fields(path, query_fields);
        let row_type = Type::Object(ObjectType { fields: row_fields, name: None });
        assert(row_type@ == spec_row_type(query_fields@));
        let array_type = Type::ArrayOf(Box::new(row_type));
        assert(array_type@ == TypeV::ArrayOf(Box::new(spec_row_type(query_fields@))));
        type_fields.push(("rows".to_owned(), array_type));
        assert(type_fields@.subrange(0, type_fields@.len() - 1) =~= before);
        assert(crate::types::type_fields_view(type_fields@) =~= prefix.push(suffix[0]));
    }
    assert(crate::types::type_fields_view(type_fields@) =~= prefix + suffix);
    Ok(Type::Object(ObjectType { fields: type_fields, name: None }))
}

/// The fields of one row, under their aliases.
pub type Row = Vec<(String, JsonValue)>;

/// The result of one execution of a query: aggregates where requested, rows
/// where fields are.
#[derive(Debug, PartialEq)]
pub struct RowSet {
    pub aggregates: Option<Vec<(String, JsonValue)>>,
    pub rows: Option<Vec<Row>>,
}

/// One row set per execution: one, or one per variable set.
#[derive(Debug, PartialEq)]
pub struct QueryResponse(pub Vec<RowSet>);

/// A row set as plain data.
pub struct RowSetV {
    pub aggregates: Option<Seq<(Seq<char>, JsonV)>>,
    pub rows: Option<Seq<Seq<(Seq<char>, JsonV)>>>,
}

pub open spec fn rows_view(rows: Seq<Row>) -> Seq<Seq<(Seq<char>, JsonV)>> {
    rows.map_values(|r: Row| json_entries_view(r@))
}

pub open spec fn row_set_view(rs: RowSet) -> RowSetV {
    RowSetV {
        aggregates: match rs.aggregates {
            Some(a) => Some(json_entries_view(a@)),
            None => None,
        },
        rows: match rs.rows {
            Some(r) => Some(rows_view(r@)),
            None => None,
        },
    }
}

pub open spec fn row_sets_view(rs: Seq<RowSet>) -> Seq<RowSetV> {
    rs.map_values(|r: RowSet| row_set_view(r))
}

/// One document as a row: its conversion against the row type, which is an
/// object.
pub open spec fn spec_row(fields: Seq<(String, Field)>, doc: BsonV) -> Option<Seq<(Seq<char>, JsonV)>> {
    match spec_bson_to_json(spec_row_type(fields), doc) {
        Some(JsonV::Object(entries)) => Some(entries),
        _ => None,
    }
}

/// Every document as a row, in order.
pub open spec fn spec_rows(fields: Seq<(String, Field)>, docs: Seq<BsonV>) -> Option<Seq<Seq<(Seq<char>, JsonV)>>>
    decreases docs.len(),
{
    if docs.len() == 0 {
        Some(Seq::empty())
    } else {
        match (spec_rows(fields, docs.drop_last()), spec_row(fields, docs.last())) {
            (Some(init), Some(row)) => Some(init.push(row)),
            _ => None,
        }
    }
}

/// A row set from a list of row documents.
pub open spec fn spec_row_set_rows_only(query: Query, docs: Seq<BsonV>) -> Option<RowSetV> {
    match query.fields {
        None => Some(RowSetV { aggregates: None, rows: None }),
        Some(fields) => match spec_rows(fields@, docs) {
            Some(rows) => Some(RowSetV { aggregates: None, rows: Some(rows) }),
            None => None,
        },
    }
}

/// The aggregates of a row set: their extended JSON, which must be an object.
pub open spec fn spec_aggregates(value: BsonV) -> Option<Seq<(Seq<char>, JsonV)>> {
    match spec_ext_json(value) {
        JsonV::Object(entries) => Some(entries),
        _ => None,
    }
}

/// A row set from a document `{ aggregates, rows }`; a missing `aggregates`
/// is null and missing `rows` are none.
pub open spec fn spec_row_set_with_aggregates(query: Query, doc: BsonV) -> Option<RowSetV> {
    match doc {
        BsonV::Document(entries) => {
            let aggregates_value = match doc_get(entries, "aggregates"@) {
                Some(v) => v,
                None => BsonV::Null,
            };
            let rows_value = match doc_get(entries, "rows"@) {
                Some(BsonV::Array(items)) => Some(items),
                None => Some(Seq::empty()),
                _ => None,
            };
            let aggregates = if query.aggregates is Some {
                match spec_aggregates(aggregates_value) {
                    Some(a) => Some(Some(a)),
                    None => None,
                }
            } else {
                Some(None)
            };
            let rows = match query.fields {
                Some(fields) => match rows_value {
                    Some(items) => match spec_rows(fields@, items) {
                        Some(r) => Some(Some(r)),
                        None => None,
                    },
                    None => None,
                },
                None => Some(None),
            };
            match (aggregates, rows) {
                (Some(a), Some(r)) => Some(RowSetV { aggregates: a, rows: r }),
                _ => None,
            }
        },
        _ => None,
    }
}

/// One row set per element of `sets`, each either a list of rows or a
/// `{ aggregates, rows }` document.
pub open spec fn spec_row_sets(query: Query, with_aggregates: bool, sets: Seq<BsonV>) -> Option<Seq<RowSetV>>
    decreases sets.len(),
{
    if sets.len() == 0 {
        Some(Seq::empty())
    } else {
        let last = if with_aggregates {
            spec_row_set_with_aggregates(query, sets.last())
        } else {
            match sets.last() {
                BsonV::Array(items) => spec_row_set_rows_only(query, items),
                _ => None,
            }
        };
        match (spec_row_sets(query, with_aggregates, sets.drop_last()), last) {
            (Some(init), Some(rs)) => Some(init.push(rs)),
            _ => None,
        }
    }
}

/// The field `key` of a document.
pub open spec fn doc_field(b: BsonV, key: Seq<char>) -> Option<BsonV> {
    match b {
        BsonV::Document(entries) => doc_get(entries, key),
        _ => None,
    }
}

/// The response to a plan, from the documents that its pipeline returned.
/// With variable sets there is one document whose `row_sets` holds one row set
/// per variable set; otherwise, with aggregates, one `{ aggregates, rows }`
/// document; otherwise the documents are the rows.
pub open spec fn spec_serialize_query_response(plan: QueryPlan, docs: Seq<BsonV>) -> Option<Seq<RowSetV>> {
    if plan.spec_has_variables() {
        if docs.len() == 0 {
            None
        } else {
            match doc_field(docs[0], "row_sets"@) {
                Some(BsonV::Array(sets)) => spec_row_sets(plan.query, plan.query.aggregates is Some, sets),
                _ => None,
            }
        }
    } else if plan.query.aggregates is Some {
        if docs.len() == 0 {
            None
        } else {
            match spec_row_set_with_aggregates(plan.query, docs[0]) {
                Some(rs) => Some(seq![rs]),
                None => None,
            }
        }
    } else {
        match spec_row_set_rows_only(plan.query, docs) {
            Some(rs) => Some(seq![rs]),
            None => None,
        }
    }
}

pub(crate) fn entry_value<'a>(entries: &'a Vec<(String, Bson)>, key: &str) -> (r: Option<&'a Bson>)
    ensures
        match r {
            Some(v) => doc_get(crate::bson::bson_entries_view(entries@), key@) == Some(v@),
            None => doc_get(crate::bson::bson_entries_view(entries@), key@) is None,
        },
{
    proof {
        lemma_bson_entries_view(entries@);
    }
    let ghost ev = crate::bson::bson_entries_view(entries@);
    match find_entry(entries, key) {
        Some(k) => {
            proof {
                assert(ev[k as int] == (entries@[k as int].0@, bson_view(entries@[k as int].1)));
                assert forall|j: int| 0 <= j < k implies ev[j].0 != key@ by {
                    assert(ev[j] == (entries@[j].0@, bson_view(entries@[j].1)));
                }
                let c = choose|c: int| 0 <= c < ev.len() && ev[c].0 == key@ && forall|j: int| 0 <= j < c ==> ev[j].0 != key@;
                assert(c == k as int);
            }
            Some(&entries[k].1)
        },
        None => {
            proof {
                assert forall|j: int| 0 <= j < ev.len() implies ev[j].0 != key@ by {
                    assert(ev[j] == (entries@[j].0@, bson_view(entries@[j].1)));
                }
            }
            None
        },
    }
}

fn get_field<'a>(doc: &'a Bson, key: &str) -> (r: Option<&'a Bson>)
    ensures
        match r {
            Some(v) => doc_field(doc@, key@) == Some(v@),
            None => doc_field(doc@, key@) is None,
        },
{
    match doc {
        Bson::Document(entries) => {
            assert(doc@ == BsonV::Document(crate::bson::bson_entries_view(entries@)));
            entry_value(entries, key)
        },
        _ => None,
    }
}

fn serialize_rows(
    path: &Vec<String>,
    query_fields: &Vec<(String, Field)>,
    docs: &Vec<Bson>,
) -> (r: Result<Vec<Row>, QueryResponseError>)
    ensures
        match r {
            Ok(rows) => spec_rows(query_fields@, bson_seq_view(docs@)) == Some(rows_view(rows@)),
            Err(_) => spec_rows(query_fields@, bson_seq_view(docs@)) is None,
        },
{
    let row_type = match type_for_row(path, query_fields) {
        Ok(t) => t,
        Err(e) => { return Err(e); },
    };
    let ghost dv = bson_seq_view(docs@);
    proof {
        lemma_bson_seq_view(docs@);
    }
    let mut rows: Vec<Row> = Vec::new();
    let mut i: usize = 0;
    while i < docs.len()
        invariant
            i <= docs@.len(),
            row_type@ == spec_row_type(query_fields@),
            dv == bson_seq_view(docs@),
            dv.len() == docs@.len(),
            forall|k: int| 0 <= k < docs@.len() ==> #[trigger] dv[k] == bson_view(docs@[k]),
            spec_rows(query_fields@, dv.take(i as int)) == Some(rows_view(rows@)),
        decreases docs.len() - i,
    {
        assert(dv.take(i + 1).drop_last() =~= dv.take(i as int));
        assert(dv.take(i + 1).last() == bson_view(docs@[i as int]));
        let json = bson_to_json(&row_type, &docs[i]);
        match json {
            Ok(JsonValue::Object(entries)) => {
                let ghost before = rows@;
                rows.push(entries);
                assert(rows_view(rows@) =~= rows_view(before).push(json_entries_view(entries@)));
            },
            _ => {
                proof {
                    lemma_rows_none_extends(query_fields@, dv, i + 1);
                }
                return Err(QueryResponseError::BsonToJson(String::from_str("a row could not be converted to JSON")));
            },
        }
        i = i + 1;
    }
    assert(dv.take(i as int) =~= dv);
    Ok(rows)
}

fn serialize_row_set_rows_only(
    path: &Vec<String>,
    query: &Query,
    docs: &Vec<Bson>,
) -> (r: Result<RowSet, QueryResponseError>)
    ensures
        match r {
            Ok(rs) => spec_row_set_rows_only(*query, bson_seq_view(docs@)) == Some(row_set_view(rs)),
            Err(_) => spec_row_set_rows_only(*query, bson_seq_view(docs@)) is None,
        },
{
    match &query.fields {
        None => Ok(RowSet { aggregates: None, rows: None }),
        Some(fields) => match serialize_rows(path, fields, docs) {
            Ok(rows) => Ok(RowSet { aggregates: None, rows: Some(rows) }),
            Err(e) => Err(e),
        },
    }
}

fn serialize_aggregates(path: &Vec<String>, value: &Bson) -> (r: Result<Vec<(String, JsonValue)>, QueryResponseError>)
    ensures
        match r {
            Ok(a) => spec_aggregates(value@) == Some(json_entries_view(a@)),
            Err(_) => spec_aggregates(value@) is None,
        },
{
    match to_ext_json(value) {
        JsonValue::Object(entries) => Ok(entries),
        _ => Err(QueryResponseError::AggregatesNotObject { path: path_to_owned(path) }),
    }
}

#[verifier::rlimit(60)]
fn serialize_row_set_with_aggregates(
    path: &Vec<String>,
    query: &Query,
    row_set: &Bson,
) -> (r: Result<RowSet, QueryResponseError>)
    ensures
        match r {
            Ok(rs) => spec_row_set_with_aggregates(*query, row_set@) == Some(row_set_view(rs)),
            Err(_) => spec_row_set_with_aggregates(*query, row_set@) is None,
        },
{
    let entries = match row_set {
        Bson::Document(entries) => entries,
        _ => {
            return Err(QueryResponseError::BsonDeserialization(String::from_str("expected a row set document")));
        },
    };
    assert(row_set@ == BsonV::Document(crate::bson::bson_entries_view(entries@)));
    let null = Bson::Null;
    let aggregates_value = match entry_value(entries, "aggregates") {
        Some(v) => v,
        None => &null,
    };
    let empty: Vec<Bson> = Vec::new();
    assert(bson_seq_view(empty@) =~= Seq::empty());
    let rows_value: Option<&Vec<Bson>> = match entry_value(entries, "rows") {
        Some(Bson::Array(items)) => Some(items),
        None => Some(&empty),
        _ => None,
    };
    let aggregates = match &query.aggregates {
        Some(_) => match serialize_aggregates(path, aggregates_value) {
            Ok(a) => Some(a),
            Err(e) => { return Err(e); },
        },
        None => None,
    };
    let rows = match &query.fields {
        Some(fields) => match rows_value {
            Some(items) => match serialize_rows(path, fields, items) {
                Ok(r) => Some(r),
                Err(e) => { return Err(e); },
            },
            None => {
                return Err(QueryResponseError::BsonDeserialization(String::from_str("expected rows to be an array")));
            },
        },
        None => None,
    };
    Ok(RowSet { aggregates, rows })
}

fn serialize_row_sets(
    path: &Vec<String>,
    query: &Query,
    with_aggregates: bool,
    sets: &Vec<Bson>,
) -> (r: Result<Vec<RowSet>, QueryResponseError>)
    ensures
        match r {
            Ok(rs) => spec_row_sets(*query, with_aggregates, bson_seq_view(sets@)) == Some(row_sets_view(rs@)),
            Err(_) => spec_row_sets(*query, with_aggregates, bson_seq_view(sets@)) is None,
        },
{
    let ghost sv = bson_seq_view(sets@);
    proof {
        lemma_bson_seq_view(sets@);
    }
    let mut r: Vec<RowSet> = Vec::new();
    let mut i: usize = 0;
    while i < sets.len()
        invariant
            i <= sets@.len(),
            sv == bson_seq_view(sets@),
            sv.len() == sets@.len(),
            forall|k: int| 0 <= k < sets@.len() ==> #[trigger] sv[k] == bson_view(sets@[k]),
            spec_row_sets(*query, with_aggregates, sv.take(i as int)) == Some(row_sets_view(r@)),
        decreases sets.len() - i,
    {
        assert(sv.take(i + 1).drop_last() =~= sv.take(i as int));
        assert(sv.take(i + 1).last() == bson_view(sets@[i as int]));
        let row_set = if with_aggregates {
            serialize_row_set_with_aggregates(path, query, &sets[i])
        } else {
            match &sets[i] {
                Bson::Array(items) => serialize_row_set_rows_only(path, query, items),
                _ => Err(QueryResponseError::BsonDeserialization(String::from_str("expected a list of rows"))),
            }
        };
        match row_set {
            Ok(rs) => {
                let ghost before = r@;
                r.push(rs);
                assert(row_sets_view(r@) =~= row_sets_view(before).push(row_set_view(rs)));
            },
            Err(e) => {
                proof {
                    lemma_row_sets_none_extends(*query, with_aggregates, sv, i + 1);
                }
                return Err(e);
            },
        }
        i = i + 1;
    }
    assert(sv.take(i as int) =~= sv);
    Ok(r)
}

proof fn lemma_row_sets_none_extends(query: Query, with_aggregates: bool, sets: Seq<BsonV>, i: int)
    requires
        0 <= i <= sets.len(),
        spec_row_sets(query, with_aggregates, sets.take(i)) is None,
    ensures
        spec_row_sets(query, with_aggregates, sets) is None,
    decreases sets.len(),
{
    if i == sets.len() {
        assert(sets.take(i) =~= sets);
    } else {
        assert(sets.drop_last().take(i) =~= sets.take(i));
        lemma_row_sets_none_extends(query, with_aggregates, sets.drop_last(), i);
    }
}

/// Turns the documents that a plan's pipeline returned into the response.
pub fn serialize_query_response(
    query_plan: &QueryPlan,
    response_documents: Vec<Bson>,
) -> (r: Result<QueryResponse, QueryResponseError>)
    ensures
        match r {
            Ok(resp) => spec_serialize_query_response(*query_plan, bson_seq_view(response_documents@))
                == Some(row_sets_view(resp.0@)),
            Err(_) => spec_serialize_query_response(*query_plan, bson_seq_view(response_documents@)) is None,
        },
{
    let ghost dv = bson_seq_view(response_documents@);
    proof {
        lemma_bson_seq_view(response_documents@);
    }
    let mut collection_path: Vec<String> = Vec::new();
    collection_path.push(query_plan.collection.clone());
    let root: Vec<String> = Vec::new();
    let row_sets = if query_plan.has_variables() {
        if response_documents.len() == 0 {
            return Err(QueryResponseError::ExpectedSingleDocument);
        }
        match get_field(&response_documents[0], "row_sets") {
            Some(Bson::Array(sets)) => match serialize_row_sets(
                &collection_path,
                &query_plan.query,
                query_plan.query.has_aggregates(),
                sets,
            ) {
                Ok(rs) => rs,
                Err(e) => { return Err(e); },
            },
            _ => {
                return Err(QueryResponseError::BsonDeserialization(String::from_str("expected row_sets to be an array")));
            },
        }
    } else if query_plan.query.has_aggregates() {
        if response_documents.len() == 0 {
            return Err(QueryResponseError::ExpectedSingleDocument);
        }
        match serialize_row_set_with_aggregates(&root, &query_plan.query, &response_documents[0]) {
            Ok(rs) => {
                let mut v: Vec<RowSet> = Vec::new();
                v.push(rs);
                assert(row_sets_view(v@) =~= seq![row_set_view(rs)]);
                v
            },
            Err(e) => { return Err(e); },
        }
    } else {
        match serialize_row_set_rows_only(&root, &query_plan.query, &response_documents) {
            Ok(rs) => {
                let mut v: Vec<RowSet> = Vec::new();
                v.push(rs);
                assert(row_sets_view(v@) =~= seq![row_set_view(rs)]);
                v
            },
            Err(e) => { return Err(e); },
        }
    };
    Ok(QueryResponse(row_sets))
}

proof fn lemma_rows_none_extends(fields: Seq<(String, Field)>, docs: Seq<BsonV>, i: int)
    requires
        0 <= i <= docs.len(),
        spec_rows(fields, docs.take(i)) is None,
    ensures
        spec_rows(fields, docs) is None,
    decreases docs.len(),
{
    if i == docs.len() {
        assert(docs.take(i) =~= docs);
    } else {
        assert(docs.drop_last().take(i) =~= docs.take(i));
        lemma_rows_none_extends(fields, docs.drop_last(), i);
    }
}

/// The keys of an object, in order.
pub open spec fn keys_of(entries: Seq<(Seq<char>, JsonV)>) -> Seq<Seq<char>> {
    entries.map_values(|e: (Seq<char>, JsonV)| e.0)
}

/// The keys of a row set's rows are the aliases of `fields`.
pub open spec fn rows_have_keys(rs: RowSetV, fields: Seq<(String, Field)>) -> bool {
    &&& rs.rows is Some
    &&& forall|j: int| 0 <= j < rs.rows->Some_0.len() ==> keys_of(#[trigger] rs.rows->Some_0[j]) == entry_names(fields)
}

proof fn lemma_fields_to_json_keys(ft: Seq<(Seq<char>, TypeV)>, doc: Seq<(Seq<char>, BsonV)>)
    requires
        spec_fields_to_json(ft, doc) is Some,
    ensures
        keys_of(spec_fields_to_json(ft, doc)->Some_0) == ft.map_values(|p: (Seq<char>, TypeV)| p.0),
    decreases ft.len(),
{
    if ft.len() > 0 {
        let init = ft.subrange(0, ft.len() - 1);
        lemma_fields_to_json_keys(init, doc);
        let e = spec_fields_to_json(ft, doc)->Some_0;
        let ie = spec_fields_to_json(init, doc)->Some_0;
        assert(e == ie.push((ft[ft.len() - 1].0, e.last().1)));
        assert(keys_of(e) =~= keys_of(ie).push(ft[ft.len() - 1].0));
        assert(ft.map_values(|p: (Seq<char>, TypeV)| p.0) =~= init.map_values(|p: (Seq<char>, TypeV)| p.0).push(ft[ft.len() - 1].0));
    } else {
        assert(keys_of(spec_fields_to_json(ft, doc)->Some_0) =~= ft.map_values(|p: (Seq<char>, TypeV)| p.0));
    }
}

proof fn lemma_fields_types_keys(fields: Seq<(String, Field)>)
    ensures
        spec_fields_types(fields).map_values(|p: (Seq<char>, TypeV)| p.0) == entry_names(fields),
    decreases fields.len(),
{
    if fields.len() > 0 {
        let init = fields.subrange(0, fields.len() - 1);
        lemma_fields_types_keys(init);
        assert(spec_fields_types(fields).map_values(|p: (Seq<char>, TypeV)| p.0)
            =~= spec_fields_types(init).map_values(|p: (Seq<char>, TypeV)| p.0).push(fields[fields.len() - 1].0@));
        assert(entry_names(fields) =~= entry_names(init).push(fields[fields.len() - 1].0@));
    } else {
        assert(spec_fields_types(fields).map_values(|p: (Seq<char>, TypeV)| p.0) =~= entry_names(fields));
    }
}

proof fn lemma_row_keys(fields: Seq<(String, Field)>, doc: BsonV)
    requires
        spec_row(fields, doc) is Some,
    ensures
        keys_of(spec_row(fields, doc)->Some_0) == entry_names(fields),
{
    let ft = spec_fields_types(fields);
    if let BsonV::Document(d) = doc {
        lemma_fields_to_json_keys(ft, d);
        lemma_fields_types_keys(fields);
    }
}

proof fn lemma_rows_keys(fields: Seq<(String, Field)>, docs: Seq<BsonV>)
    requires
        spec_rows(fields, docs) is Some,
    ensures
        spec_rows(fields, docs)->Some_0.len() == docs.len(),
        forall|j: int| 0 <= j < docs.len() ==> keys_of(#[trigger] spec_rows(fields, docs)->Some_0[j]) == entry_names(fields),
    decreases docs.len(),
{
    if docs.len() > 0 {
        lemma_rows_keys(fields, docs.drop_last());
        lemma_row_keys(fields, docs.last());
    }
}

proof fn lemma_row_set_keys(query: Query, with_aggregates: bool, b: BsonV, rs: RowSetV)
    requires
        query.fields is Some,
        with_aggregates ==> spec_row_set_with_aggregates(query, b) == Some(rs),
        !with_aggregates ==> b is Array && spec_row_set_rows_only(query, b->Array_0) == Some(rs),
    ensures
        rows_have_keys(rs, query.fields->Some_0@),
{
    let fields = query.fields->Some_0@;
    if with_aggregates {
        let entries = b->Document_0;
        let items = match doc_get(entries, "rows"@) {
            Some(BsonV::Array(items)) => items,
            _ => Seq::empty(),
        };
        lemma_rows_keys(fields, items);
    } else {
        lemma_rows_keys(fields, b->Array_0);
    }
}

proof fn lemma_row_sets_keys(query: Query, with_aggregates: bool, sets: Seq<BsonV>)
    requires
        query.fields is Some,
        spec_row_sets(query, with_aggregates, sets) is Some,
    ensures
        spec_row_sets(query, with_aggregates, sets)->Some_0.len() == sets.len(),
        forall|i: int| 0 <= i < sets.len() ==> rows_have_keys(
            #[trigger] spec_row_sets(query, with_aggregates, sets)->Some_0[i],
            query.fields->Some_0@,
        ),
    decreases sets.len(),
{
    if sets.len() > 0 {
        lemma_row_sets_keys(query, with_aggregates, sets.drop_last());
        let rss = spec_row_sets(query, with_aggregates, sets)->Some_0;
        lemma_row_set_keys(query, with_aggregates, sets.last(), rss.last());
    }
}

/// Every row of a serialized response holds exactly the keys that the query
/// projects, in the order projected; with variable sets there is one row set
/// per element of the `row_sets` array that the pipeline returned.
pub proof fn lemma_response_rows_have_projected_keys(plan: QueryPlan, docs: Seq<BsonV>)
    requires
        plan.query.fields is Some,
        spec_serialize_query_response(plan, docs) is Some,
    ensures
        forall|i: int| 0 <= i < spec_serialize_query_response(plan, docs)->Some_0.len() ==> rows_have_keys(
            #[trigger] spec_serialize_query_response(plan, docs)->Some_0[i],
            plan.query.fields->Some_0@,
        ),
        plan.spec_has_variables() ==> spec_serialize_query_response(plan, docs)->Some_0.len()
            == doc_field(docs[0], "row_sets"@)->Some_0->Array_0.len(),
{
    let query = plan.query;
    if plan.spec_has_variables() {
        let sets = doc_field(docs[0], "row_sets"@)->Some_0->Array_0;
        lemma_row_sets_keys(query, query.aggregates is Some, sets);
    } else if query.aggregates is Some {
        let rs = spec_row_set_with_aggregates(query, docs[0])->Some_0;
        lemma_row_set_keys(query, true, docs[0], rs);
    } else {
        lemma_rows_keys(query.fields->Some_0@, docs);
    }
}

} // verus!
