//! The connector's catalog: object types, collections, functions and
//! procedures merged from the schema, the native queries and the native
//! mutations, and the validation that builds it.
use itertools::Itertools;
use vstd::prelude::*;
use crate::bson::Bson;
use crate::scalar_types::{BsonScalarType, EXTENDED_JSON_TYPE_NAME};
use crate::types::clone_opt_string;

verus! {

/// A type as configuration files declare it; object types are named.
#[derive(Debug, PartialEq)]
pub enum SchemaType {
    ExtendedJSON,
    Scalar(BsonScalarType),
    Object(String),
    ArrayOf(Box<SchemaType>),
    Nullable(Box<SchemaType>),
}

#[derive(Debug, PartialEq)]
pub struct ObjectField {
    pub field_type: SchemaType,
    pub description: Option<String>,
}

#[derive(Debug, PartialEq)]
pub struct ObjectType {
    pub fields: Vec<(String, ObjectField)>,
    pub description: Option<String>,
}

#[derive(Debug, PartialEq)]
pub struct Collection {
    /// Name of the object type of the collection's documents.
    pub collection_type: String,
    pub description: Option<String>,
}

/// The `schema/` part of a configuration.
#[derive(Debug, PartialEq)]
pub struct Schema {
    pub collections: Vec<(String, Collection)>,
    pub object_types: Vec<(String, ObjectType)>,
}

#[derive(Clone, Copy, Debug, PartialEq, Eq, Structural)]
pub enum NativeQueryRepresentation {
    Collection,
    Function,
}

/// A native query as a configuration file declares it.
#[derive(Debug, PartialEq)]
pub struct SerializedNativeQuery {
    pub representation: NativeQueryRepresentation,
    pub arguments: Vec<(String, ObjectField)>,
    pub object_types: Vec<(String, ObjectType)>,
    pub result_document_type: String,
    pub pipeline: Vec<Bson>,
    pub description: Option<String>,
}

/// A native mutation as a configuration file declares it.
#[derive(Debug, PartialEq)]
pub struct SerializedNativeMutation {
    pub object_types: Vec<(String, ObjectType)>,
    pub result_type: SchemaType,
    pub command: Bson,
    pub arguments: Vec<(String, ObjectField)>,
    pub description: Option<String>,
}

/// A native query once its object types have gone to the catalog.
#[derive(Debug, PartialEq)]
pub struct NativeQuery {
    pub representation: NativeQueryRepresentation,
    pub arguments: Vec<(String, ObjectField)>,
    pub result_document_type: String,
    pub pipeline: Vec<Bson>,
    pub description: Option<String>,
}

/// A native mutation once its object types have gone to the catalog.
#[derive(Debug, PartialEq)]
pub struct NativeMutation {
    pub result_type: SchemaType,
    pub command: Bson,
    pub arguments: Vec<(String, ObjectField)>,
    pub description: Option<String>,
}

/// A type as the catalog publishes it to clients.
#[derive(Debug, PartialEq)]
pub enum NdcType {
    Named(String),
    Nullable(Box<NdcType>),
    Array(Box<NdcType>),
}

#[derive(Debug, PartialEq)]
pub struct ArgumentInfo {
    pub argument_type: NdcType,
    pub description: Option<String>,
}

#[derive(Debug, PartialEq)]
pub struct UniquenessConstraint {
    pub unique_columns: Vec<String>,
}

#[derive(Debug, PartialEq)]
pub struct CollectionInfo {
    pub name: String,
    pub collection_type: String,
    pub description: Option<String>,
    pub arguments: Vec<(String, ArgumentInfo)>,
    pub uniqueness_constraints: Vec<(String, UniquenessConstraint)>,
}

#[derive(Debug, PartialEq)]
pub struct FunctionInfo {
    pub name: String,
    pub description: Option<String>,
    pub arguments: Vec<(String, ArgumentInfo)>,
    pub result_type: NdcType,
}

#[derive(Debug, PartialEq)]
pub struct ProcedureInfo {
    pub name: String,
    pub description: Option<String>,
    pub arguments: Vec<(String, ArgumentInfo)>,
    pub result_type: NdcType,
}

/// Options for introspection.
#[derive(Clone, Copy, Debug, PartialEq, Eq, Structural)]
pub struct ConfigurationIntrospectionOptions {
    /// How many documents are sampled per collection.
    pub sample_size: u32,
    /// Whether to skip a validator schema where one exists.
    pub no_validator_schema: bool,
    /// Whether all schema fields are nullable.
    pub all_schema_nullable: bool,
}

impl Default for ConfigurationIntrospectionOptions {
    fn default() -> (r: Self)
        ensures
            r.sample_size == 100,
            !r.no_validator_schema,
            r.all_schema_nullable,
    {
        ConfigurationIntrospectionOptions {
            sample_size: 100,
            no_validator_schema: false,
            all_schema_nullable: true,
        }
    }
}

#[derive(Clone, Copy, Debug, PartialEq, Eq, Structural)]
pub struct ConfigurationOptions {
    pub introspection_options: ConfigurationIntrospectionOptions,
}

impl Default for ConfigurationOptions {
    fn default() -> (r: Self)
        ensures
            r.introspection_options.sample_size == 100,
            !r.introspection_options.no_validator_schema,
            r.introspection_options.all_schema_nullable,
    {
        ConfigurationOptions { introspection_options: ConfigurationIntrospectionOptions::default() }
    }
}

/// `i` is the index of the first entry of `entries` named `key`.
pub open spec fn first_match<T>(entries: Seq<(String, T)>, key: Seq<char>, i: int) -> bool {
    &&& 0 <= i < entries.len()
    &&& entries[i].0@ == key
    &&& forall|j: int| 0 <= j < i ==> entries[j].0@ != key
}

/// No entry of `entries` is named `key`.
pub open spec fn no_match<T>(entries: Seq<(String, T)>, key: Seq<char>) -> bool {
    forall|j: int| 0 <= j < entries.len() ==> entries[j].0@ != key
}

/// Finds the first entry named `key`.
pub fn find_entry<T>(entries: &Vec<(String, T)>, key: &str) -> (r: Option<usize>)
    ensures
        match r {
            Some(i) => first_match(entries@, key@, i as int),
            None => no_match(entries@, key@),
        },
{
    let k = key.to_owned();
    let mut i: usize = 0;
    while i < entries.len()
        invariant
            i <= entries@.len(),
            k@ == key@,
            forall|j: int| 0 <= j < i ==> entries@[j].0@ != key@,
        decreases entries.len() - i,
    {
        if entries[i].0 == k {
            return Some(i);
        }
        i = i + 1;
    }
    None
}

/// How the catalog publishes a configured type: scalars and object types by
/// name, arrays and nullables by structure.
pub open spec fn publishes_type(n: NdcType, t: SchemaType) -> bool
    decreases t,
{
    match t {
        SchemaType::ExtendedJSON => n is Named && n->Named_0@ == EXTENDED_JSON_TYPE_NAME@,
        SchemaType::Scalar(s) => n is Named && n->Named_0@ == s.spec_graphql_name(),
        SchemaType::Object(name) => n is Named && n->Named_0@ == name@,
        SchemaType::ArrayOf(e) => n is Array && publishes_type(*n->Array_0, *e),
        SchemaType::Nullable(e) => n is Nullable && publishes_type(*n->Nullable_0, *e),
    }
}

/// The published form of a configured type.
pub fn to_ndc_type(t: &SchemaType) -> (r: NdcType)
    ensures
        publishes_type(r, *t),
    decreases t,
{
    match t {
        SchemaType::ExtendedJSON => NdcType::Named(EXTENDED_JSON_TYPE_NAME.to_owned()),
        SchemaType::Scalar(s) => NdcType::Named(s.graphql_name().to_owned()),
        SchemaType::Object(name) => NdcType::Named(name.clone()),
        SchemaType::ArrayOf(e) => NdcType::Array(Box::new(to_ndc_type(e))),
        SchemaType::Nullable(e) => NdcType::Nullable(Box::new(to_ndc_type(e))),
    }
}

/// The published arguments match the configured ones, name for name.
pub open spec fn publishes_arguments(r: Seq<(String, ArgumentInfo)>, a: Seq<(String, ObjectField)>) -> bool {
    &&& r.len() == a.len()
    &&& forall|i: int| 0 <= i < a.len() ==> {
        &&& #[trigger] r[i].0@ == a[i].0@
        &&& publishes_type(r[i].1.argument_type, a[i].1.field_type)
        &&& r[i].1.description == a[i].1.description
    }
}

fn arguments_to_ndc_arguments(configured: &Vec<(String, ObjectField)>) -> (r: Vec<(String, ArgumentInfo)>)
    ensures
        publishes_arguments(r@, configured@),
{
    let mut r: Vec<(String, ArgumentInfo)> = Vec::new();
    let mut i: usize = 0;
    while i < configured.len()
        invariant
            i <= configured@.len(),
            r@.len() == i,
            forall|j: int| 0 <= j < i ==> {
                &&& #[trigger] r@[j].0@ == configured@[j].0@
                &&& publishes_type(r@[j].1.argument_type, configured@[j].1.field_type)
                &&& r@[j].1.description == configured@[j].1.description
            },
        decreases configured.len() - i,
    {
        let (name, field) = (&configured[i].0, &configured[i].1);
        let info = ArgumentInfo {
            argument_type: to_ndc_type(&field.field_type),
            description: clone_opt_string(&field.description),
        };
        r.push((name.clone(), info));
        i = i + 1;
    }
    r
}

/// The catalog's object types include `object_type_name`, and the first field `_id`
/// of the first such type is an ObjectId.
pub open spec fn has_object_id_key(object_types: Seq<(String, ObjectType)>, object_type_name: Seq<char>) -> bool {
    exists|i: int, k: int|
        first_match(object_types, object_type_name, i) && first_match(object_types[i].1.fields@, "_id"@, k)
            && object_types[i].1.fields@[k].1.field_type == SchemaType::Scalar(BsonScalarType::ObjectId)
}

/// The primary-key constraint named `<name>_id` on the column `_id`, for a
/// collection whose object type has an ObjectId `_id` field; none otherwise.
pub open spec fn is_primary_key_constraint(
    r: Seq<(String, UniquenessConstraint)>,
    object_types: Seq<(String, ObjectType)>,
    name: Seq<char>,
    collection_type: Seq<char>,
) -> bool {
    if has_object_id_key(object_types, collection_type) {
        &&& r.len() == 1
        &&& r[0].0@ == name + "_id"@
        &&& r[0].1.unique_columns@.len() == 1
        &&& r[0].1.unique_columns@[0]@ == "_id"@
    } else {
        r.len() == 0
    }
}

/// The first object type named `name`.
pub fn find_object_type<'a>(object_types: &'a Vec<(String, ObjectType)>, name: &str) -> (r: Option<&'a ObjectType>)
    ensures
        match r {
            Some(t) => exists|i: int| first_match(object_types@, name@, i) && *t == object_types@[i].1,
            None => no_match(object_types@, name@),
        },
{
    match find_entry(object_types, name) {
        Some(i) => Some(&object_types[i].1),
        None => None,
    }
}

fn get_primary_key_uniqueness_constraint(
    object_types: &Vec<(String, ObjectType)>,
    name: &str,
    collection_type: &str,
) -> (r: Vec<(String, UniquenessConstraint)>)
    ensures
        is_primary_key_constraint(r@, object_types@, name@, collection_type@),
{
    let mut r: Vec<(String, UniquenessConstraint)> = Vec::new();
    let found = find_entry(object_types, collection_type);
    if let Some(i) = found {
        let fields = &object_types[i].1.fields;
        let id = find_entry(fields, "_id");
        if let Some(k) = id {
            if let SchemaType::Scalar(BsonScalarType::ObjectId) = fields[k].1.field_type {
                let mut columns: Vec<String> = Vec::new();
                columns.push("_id".to_owned());
                let constraint_name = name.to_owned().concat("_id");
                r.push((constraint_name, UniquenessConstraint { unique_columns: columns }));
                return r;
            }
        }
    }
    proof {
        if has_object_id_key(object_types@, collection_type@) {
            let (i, k) = choose|i: int, k: int|
                first_match(object_types@, collection_type@, i)
                    && first_match(object_types@[i].1.fields@, "_id"@, k)
                    && object_types@[i].1.fields@[k].1.field_type == SchemaType::Scalar(BsonScalarType::ObjectId);
            assert(found == Some(i as usize));
        }
    }
    r
}

/// `c` is the catalog entry of the collection `name` whose documents have the
/// object type `collection_type`.
pub open spec fn is_collection_info(
    c: CollectionInfo,
    object_types: Seq<(String, ObjectType)>,
    name: Seq<char>,
    collection_type: Seq<char>,
    description: Option<String>,
    arguments: Seq<(String, ObjectField)>,
) -> bool {
    &&& c.name@ == name
    &&& c.collection_type@ == collection_type
    &&& c.description == description
    &&& publishes_arguments(c.arguments@, arguments)
    &&& is_primary_key_constraint(c.uniqueness_constraints@, object_types, name, collection_type)
}

fn collection_to_collection_info(
    object_types: &Vec<(String, ObjectType)>,
    name: String,
    collection: Collection,
) -> (r: CollectionInfo)
    ensures
        is_collection_info(r, object_types@, name@, collection.collection_type@, collection.description, Seq::empty()),
{
    let pk_constraint = get_primary_key_uniqueness_constraint(object_types, name.as_str(), collection.collection_type.as_str());
    let arguments: Vec<(String, ArgumentInfo)> = Vec::new();
    assert(arguments@ =~= Seq::<(String, ArgumentInfo)>::empty());
    CollectionInfo {
        name,
        collection_type: collection.collection_type,
        description: collection.description,
        arguments,
        uniqueness_constraints: pk_constraint,
    }
}

fn native_query_to_collection_info(
    object_types: &Vec<(String, ObjectType)>,
    name: &String,
    native_query: &NativeQuery,
) -> (r: CollectionInfo)
    ensures
        is_collection_info(r, object_types@, name@, native_query.result_document_type@,
            native_query.description, native_query.arguments@),
{
    let pk_constraint = get_primary_key_uniqueness_constraint(object_types, name.as_str(), native_query.result_document_type.as_str());
    CollectionInfo {
        name: name.clone(),
        collection_type: native_query.result_document_type.clone(),
        description: clone_opt_string(&native_query.description),
        arguments: arguments_to_ndc_arguments(&native_query.arguments),
        uniqueness_constraints: pk_constraint,
    }
}

/// What can be wrong with a configuration.
#[derive(Debug, PartialEq)]
pub enum ConfigurationError {
    /// Object type names defined more than once.
    DuplicateObjectTypes(Vec<String>),
    /// Collection names defined more than once.
    DuplicateCollections(Vec<String>),
    /// A function's result type names an object type that is not defined.
    UndefinedObjectType { function_name: String, object_type: String },
    /// A function's result object type has no `__value` field.
    MissingValueField { function_name: String },
    /// A field of an object type refers to an object type that is not defined.
    UndefinedFieldType { object_type: String, field_name: String, referenced: String },
}

/// A configuration error as plain values.
pub enum ConfigurationErrorView {
    DuplicateObjectTypes(Seq<Seq<char>>),
    DuplicateCollections(Seq<Seq<char>>),
    UndefinedObjectType { function_name: Seq<char>, object_type: Seq<char> },
    MissingValueField { function_name: Seq<char> },
    UndefinedFieldType { object_type: Seq<char>, field_name: Seq<char>, referenced: Seq<char> },
}

pub open spec fn string_views(v: Seq<String>) -> Seq<Seq<char>> {
    v.map_values(|s: String| s@)
}

impl View for ConfigurationError {
    type V = ConfigurationErrorView;

    open spec fn view(&self) -> ConfigurationErrorView {
        match self {
            ConfigurationError::DuplicateObjectTypes(names) => ConfigurationErrorView::DuplicateObjectTypes(string_views(names@)),
            ConfigurationError::DuplicateCollections(names) => ConfigurationErrorView::DuplicateCollections(string_views(names@)),
            ConfigurationError::UndefinedObjectType { function_name, object_type } =>
                ConfigurationErrorView::UndefinedObjectType { function_name: function_name@, object_type: object_type@ },
            ConfigurationError::MissingValueField { function_name } =>
                ConfigurationErrorView::MissingValueField { function_name: function_name@ },
            ConfigurationError::UndefinedFieldType { object_type, field_name, referenced } =>
                ConfigurationErrorView::UndefinedFieldType {
                    object_type: object_type@,
                    field_name: field_name@,
                    referenced: referenced@,
                },
        }
    }
}

/// The result type of the function `function_name` whose result documents have
/// the object type `object_type_name`: the type of that object type's `__value`
/// field, or the error that says why there is none.
pub open spec fn function_result_error(
    object_types: Seq<(String, ObjectType)>,
    function_name: Seq<char>,
    object_type_name: Seq<char>,
) -> Option<ConfigurationErrorView> {
    if no_match(object_types, object_type_name) {
        Some(ConfigurationErrorView::UndefinedObjectType { function_name, object_type: object_type_name })
    } else {
        let i = choose|i: int| first_match(object_types, object_type_name, i);
        if no_match(object_types[i].1.fields@, "__value"@) {
            Some(ConfigurationErrorView::MissingValueField { function_name })
        } else {
            None
        }
    }
}

fn function_result_type(
    object_types: &Vec<(String, ObjectType)>,
    function_name: &String,
    object_type_name: &String,
) -> (r: Result<NdcType, ConfigurationError>)
    ensures
        match r {
            Ok(t) => function_result_error(object_types@, function_name@, object_type_name@) is None
                && exists|i: int, k: int| first_match(object_types@, object_type_name@, i)
                    && first_match(object_types@[i].1.fields@, "__value"@, k)
                    && publishes_type(t, object_types@[i].1.fields@[k].1.field_type),
            Err(e) => function_result_error(object_types@, function_name@, object_type_name@) == Some(e@),
        },
{
    let found = find_entry(object_types, object_type_name.as_str());
    match found {
        None => Err(ConfigurationError::UndefinedObjectType {
            function_name: function_name.clone(),
            object_type: object_type_name.clone(),
        }),
        Some(i) => {
            let fields = &object_types[i].1.fields;
            proof {
                let c = choose|c: int| first_match(object_types@, object_type_name@, c);
                assert(c == i as int) by {
                    if c < i { } else if c > i { }
                }
            }
            match find_entry(fields, "__value") {
                None => Err(ConfigurationError::MissingValueField { function_name: function_name.clone() }),
                Some(k) => Ok(to_ndc_type(&fields[k].1.field_type)),
            }
        },
    }
}

/// `x` occurs at least twice in `s`.
pub open spec fn occurs_twice(s: Seq<Seq<char>>, x: Seq<char>) -> bool {
    exists|i: int, j: int| 0 <= i < j < s.len() && s[i] == x && s[j] == x
}

/// No value occurs twice in `s`.
pub open spec fn no_repeats(s: Seq<Seq<char>>) -> bool {
    forall|i: int, j: int| 0 <= i < j < s.len() ==> s[i] != s[j]
}

/// The names that `Itertools::duplicates` yields for `names`.
pub uninterp spec fn duplicates_of(names: Seq<Seq<char>>) -> Seq<Seq<char>>;

/// Relies on itertools' `Itertools::duplicates`: it yields each value that
/// occurs more than once, and each of them exactly once.
#[verifier::external_body]
fn duplicate_names(names: &Vec<String>) -> (r: Vec<String>)
    ensures
        string_views(r@) == duplicates_of(string_views(names@)),
        forall|x: Seq<char>| string_views(r@).contains(x) <==> occurs_twice(string_views(names@), x),
        no_repeats(string_views(r@)),
{
    names.iter().duplicates().cloned().collect()
}

/// The names of the entries, in order.
pub open spec fn entry_names<T>(entries: Seq<(String, T)>) -> Seq<Seq<char>> {
    entries.map_values(|e: (String, T)| e.0@)
}

fn names_of<T>(entries: &Vec<(String, T)>) -> (r: Vec<String>)
    ensures
        string_views(r@) == entry_names(entries@),
{
    let mut r: Vec<String> = Vec::new();
    let mut i: usize = 0;
    while i < entries.len()
        invariant
            i <= entries@.len(),
            r@.len() == i,
            forall|j: int| 0 <= j < i ==> #[trigger] r@[j]@ == entries@[j].0@,
        decreases entries.len() - i,
    {
        r.push(entries[i].0.clone());
        i = i + 1;
    }
    assert(string_views(r@) =~= entry_names(entries@));
    r
}

/// The object types that the native mutations declare, in order.
pub open spec fn mutation_object_types(nms: Seq<(String, SerializedNativeMutation)>) -> Seq<(String, ObjectType)>
    decreases nms.len(),
{
    if nms.len() == 0 {
        Seq::empty()
    } else {
        mutation_object_types(nms.drop_last()) + nms.last().1.object_types@
    }
}

/// The object types that the native queries declare, in order.
pub open spec fn query_object_types(nqs: Seq<(String, SerializedNativeQuery)>) -> Seq<(String, ObjectType)>
    decreases nqs.len(),
{
    if nqs.len() == 0 {
        Seq::empty()
    } else {
        query_object_types(nqs.drop_last()) + nqs.last().1.object_types@
    }
}

pub open spec fn internal_mutation(m: SerializedNativeMutation) -> NativeMutation {
    NativeMutation {
        result_type: m.result_type,
        command: m.command,
        arguments: m.arguments,
        description: m.description,
    }
}

pub open spec fn internal_query(q: SerializedNativeQuery) -> NativeQuery {
    NativeQuery {
        representation: q.representation,
        arguments: q.arguments,
        result_document_type: q.result_document_type,
        pipeline: q.pipeline,
        description: q.description,
    }
}

/// `r` holds the mutations of `nms`, name for name, without their object types.
pub open spec fn internal_mutations(r: Seq<(String, NativeMutation)>, nms: Seq<(String, SerializedNativeMutation)>) -> bool {
    &&& r.len() == nms.len()
    &&& forall|i: int| 0 <= i < nms.len() ==> #[trigger] r[i] == (nms[i].0, internal_mutation(nms[i].1))
}

/// `r` holds the queries of `nqs`, name for name, without their object types.
pub open spec fn internal_queries(r: Seq<(String, NativeQuery)>, nqs: Seq<(String, SerializedNativeQuery)>) -> bool {
    &&& r.len() == nqs.len()
    &&& forall|i: int| 0 <= i < nqs.len() ==> #[trigger] r[i] == (nqs[i].0, internal_query(nqs[i].1))
}

fn take_mutation_object_types(
    merged: &mut Vec<(String, ObjectType)>,
    native_mutations: Vec<(String, SerializedNativeMutation)>,
) -> (r: Vec<(String, NativeMutation)>)
    ensures
        final(merged)@ == old(merged)@ + mutation_object_types(native_mutations@),
        internal_mutations(r@, native_mutations@),
{
    let ghost orig = native_mutations@;
    let mut rest = native_mutations;
    let mut r: Vec<(String, NativeMutation)> = Vec::new();
    assert(orig.take(0) =~= Seq::<(String, SerializedNativeMutation)>::empty());
    assert(merged@ =~= old(merged)@ + mutation_object_types(orig.take(0)));
    while rest.len() > 0
        invariant
            orig.len() == r@.len() + rest@.len(),
            rest@ == orig.subrange(r@.len() as int, orig.len() as int),
            merged@ == old(merged)@ + mutation_object_types(orig.take(r@.len() as int)),
            forall|i: int| 0 <= i < r@.len() ==> #[trigger] r@[i] == (orig[i].0, internal_mutation(orig[i].1)),
        decreases rest.len(),
    {
        let ghost k = r@.len() as int;
        let (name, nm) = rest.remove(0);
        let SerializedNativeMutation { object_types, result_type, command, arguments, description } = nm;
        let mut ots = object_types;
        merged.append(&mut ots);
        r.push((name, NativeMutation { result_type, command, arguments, description }));
        proof {
            assert(orig.take(k + 1).drop_last() =~= orig.take(k));
            assert(orig.take(k + 1).last() == orig[k]);
            assert(merged@ =~= old(merged)@ + mutation_object_types(orig.take(k + 1)));
            assert(rest@ =~= orig.subrange(k + 1, orig.len() as int));
        }
    }
    assert(orig.take(orig.len() as int) =~= orig);
    r
}

fn take_query_object_types(
    merged: &mut Vec<(String, ObjectType)>,
    native_queries: Vec<(String, SerializedNativeQuery)>,
) -> (r: Vec<(String, NativeQuery)>)
    ensures
        final(merged)@ == old(merged)@ + query_object_types(native_queries@),
        internal_queries(r@, native_queries@),
{
    let ghost orig = native_queries@;
    let mut rest = native_queries;
    let mut r: Vec<(String, NativeQuery)> = Vec::new();
    assert(orig.take(0) =~= Seq::<(String, SerializedNativeQuery)>::empty());
    assert(merged@ =~= old(merged)@ + query_object_types(orig.take(0)));
    while rest.len() > 0
        invariant
            orig.len() == r@.len() + rest@.len(),
            rest@ == orig.subrange(r@.len() as int, orig.len() as int),
            merged@ == old(merged)@ + query_object_types(orig.take(r@.len() as int)),
            forall|i: int| 0 <= i < r@.len() ==> #[trigger] r@[i] == (orig[i].0, internal_query(orig[i].1)),
        decreases rest.len(),
    {
        let ghost k = r@.len() as int;
        let (name, nq) = rest.remove(0);
        let SerializedNativeQuery {
            representation,
            arguments,
            object_types,
            result_document_type,
            pipeline,
            description,
        } = nq;
        let mut ots = object_types;
        merged.append(&mut ots);
        r.push((name, NativeQuery { representation, arguments, result_document_type, pipeline, description }));
        proof {
            assert(orig.take(k + 1).drop_last() =~= orig.take(k));
            assert(orig.take(k + 1).last() == orig[k]);
            assert(merged@ =~= old(merged)@ + query_object_types(orig.take(k + 1)));
            assert(rest@ =~= orig.subrange(k + 1, orig.len() as int));
        }
    }
    assert(orig.take(orig.len() as int) =~= orig);
    r
}

/// The native queries of `nqs` that stand for collections, by name.
pub open spec fn collection_query_names(nqs: Seq<(String, NativeQuery)>) -> Seq<Seq<char>>
    decreases nqs.len(),
{
    if nqs.len() == 0 {
        Seq::empty()
    } else {
        collection_query_names(nqs.drop_last()) + if nqs.last().1.representation
            == NativeQueryRepresentation::Collection {
            seq![nqs.last().0@]
        } else {
            Seq::empty()
        }
    }
}

/// The names of the catalog's collections: the schema's, then the native
/// queries that stand for collections.
pub open spec fn collection_names(
    schema_collections: Seq<(String, Collection)>,
    nqs: Seq<(String, NativeQuery)>,
) -> Seq<Seq<char>> {
    entry_names(schema_collections) + collection_query_names(nqs)
}

/// The entries of `cs` describe, in order, the native queries of `nqs` that
/// stand for collections.
pub open spec fn describes_query_collections(
    cs: Seq<(String, CollectionInfo)>,
    object_types: Seq<(String, ObjectType)>,
    nqs: Seq<(String, NativeQuery)>,
) -> bool
    decreases nqs.len(),
{
    if nqs.len() == 0 {
        cs.len() == 0
    } else {
        let q = nqs.last();
        if q.1.representation == NativeQueryRepresentation::Collection {
            &&& cs.len() > 0
            &&& describes_query_collections(cs.drop_last(), object_types, nqs.drop_last())
            &&& cs.last().0@ == q.0@
            &&& is_collection_info(
                cs.last().1,
                object_types,
                q.0@,
                q.1.result_document_type@,
                q.1.description,
                q.1.arguments@,
            )
        } else {
            describes_query_collections(cs, object_types, nqs.drop_last())
        }
    }
}

fn collect_collections(
    object_types: &Vec<(String, ObjectType)>,
    schema_collections: Vec<(String, Collection)>,
    native_queries: &Vec<(String, NativeQuery)>,
) -> (r: Vec<(String, CollectionInfo)>)
    ensures
        entry_names(r@) == collection_names(schema_collections@, native_queries@),
        forall|i: int| 0 <= i < schema_collections@.len() ==> is_collection_info(
            #[trigger] r@[i].1,
            object_types@,
            schema_collections@[i].0@,
            schema_collections@[i].1.collection_type@,
            schema_collections@[i].1.description,
            Seq::empty(),
        ),
        describes_query_collections(
            r@.subrange(schema_collections@.len() as int, r@.len() as int),
            object_types@,
            native_queries@,
        ),
{
    let ghost orig = schema_collections@;
    let mut rest = schema_collections;
    let mut r: Vec<(String, CollectionInfo)> = Vec::new();
    while rest.len() > 0
        invariant
            orig.len() == r@.len() + rest@.len(),
            rest@ == orig.subrange(r@.len() as int, orig.len() as int),
            forall|i: int| 0 <= i < r@.len() ==> (#[trigger] r@[i]).0@ == orig[i].0@
                && is_collection_info(r@[i].1, object_types@, orig[i].0@, orig[i].1.collection_type@, orig[i].1.description, Seq::empty()),
        decreases rest.len(),
    {
        let ghost k = r@.len() as int;
        let (name, collection) = rest.remove(0);
        let key = name.clone();
        let info = collection_to_collection_info(object_types, name, collection);
        r.push((key, info));
        assert(rest@ =~= orig.subrange(k + 1, orig.len() as int));
    }
    let ghost n = r@.len() as int;
    assert(entry_names(r@) =~= entry_names(orig));
    assert(r@.subrange(n, r@.len() as int) =~= Seq::<(String, CollectionInfo)>::empty());
    assert(native_queries@.take(0) =~= Seq::<(String, NativeQuery)>::empty());
    let mut i: usize = 0;
    while i < native_queries.len()
        invariant
            i <= native_queries@.len(),
            n == orig.len(),
            r@.len() >= n,
            entry_names(r@) == entry_names(orig) + collection_query_names(native_queries@.take(i as int)),
            describes_query_collections(r@.subrange(n, r@.len() as int), object_types@, native_queries@.take(i as int)),
            forall|j: int| 0 <= j < n ==> (#[trigger] r@[j]).0@ == orig[j].0@
                && is_collection_info(r@[j].1, object_types@, orig[j].0@, orig[j].1.collection_type@, orig[j].1.description, Seq::empty()),
        decreases native_queries.len() - i,
    {
        let (name, native_query) = (&native_queries[i].0, &native_queries[i].1);
        let ghost before = r@;
        if native_query.representation == NativeQueryRepresentation::Collection {
            let info = native_query_to_collection_info(object_types, name, native_query);
            r.push((name.clone(), info));
            assert(entry_names(r@) =~= entry_names(before) + seq![name@]);
            assert(forall|j: int| 0 <= j < n ==> r@[j] == before[j]);
            assert(r@.subrange(n, r@.len() as int).drop_last() =~= before.subrange(n, before.len() as int));
        }
        assert(native_queries@.take(i + 1).drop_last() =~= native_queries@.take(i as int));
        i = i + 1;
        assert(entry_names(r@) =~= entry_names(orig) + collection_query_names(native_queries@.take(i as int)));
    }
    assert(native_queries@.take(i as int) =~= native_queries@);
    r
}

/// The errors of the native queries that stand for functions, in order.
pub open spec fn function_errors(
    object_types: Seq<(String, ObjectType)>,
    nqs: Seq<(String, NativeQuery)>,
) -> Seq<ConfigurationErrorView>
    decreases nqs.len(),
{
    if nqs.len() == 0 {
        Seq::empty()
    } else {
        let q = nqs.last();
        let e = function_result_error(object_types, q.0@, q.1.result_document_type@);
        function_errors(object_types, nqs.drop_last()) + if q.1.representation
            == NativeQueryRepresentation::Function && e is Some {
            seq![e->Some_0]
        } else {
            Seq::empty()
        }
    }
}

/// The names of the functions of the catalog: the native queries that stand
/// for functions and have a valid result type.
pub open spec fn function_names(
    object_types: Seq<(String, ObjectType)>,
    nqs: Seq<(String, NativeQuery)>,
) -> Seq<Seq<char>>
    decreases nqs.len(),
{
    if nqs.len() == 0 {
        Seq::empty()
    } else {
        let q = nqs.last();
        let e = function_result_error(object_types, q.0@, q.1.result_document_type@);
        function_names(object_types, nqs.drop_last()) + if q.1.representation
            == NativeQueryRepresentation::Function && e is None {
            seq![q.0@]
        } else {
            Seq::empty()
        }
    }
}

pub open spec fn error_views(errors: Seq<ConfigurationError>) -> Seq<ConfigurationErrorView> {
    errors.map_values(|e: ConfigurationError| e@)
}

pub open spec fn function_entry_names(fs: Seq<(String, FunctionInfo, CollectionInfo)>) -> Seq<Seq<char>> {
    fs.map_values(|f: (String, FunctionInfo, CollectionInfo)| f.0@)
}

/// `f` is the catalog entry of the function `name` that `q` stands for: its
/// result type is that of the `__value` field of `q`'s result object type.
pub open spec fn is_function_info(
    f: FunctionInfo,
    object_types: Seq<(String, ObjectType)>,
    name: Seq<char>,
    q: NativeQuery,
) -> bool {
    &&& f.name@ == name
    &&& f.description == q.description
    &&& publishes_arguments(f.arguments@, q.arguments@)
    &&& exists|i: int, k: int| first_match(object_types, q.result_document_type@, i)
        && first_match(object_types[i].1.fields@, "__value"@, k)
        && publishes_type(f.result_type, object_types[i].1.fields@[k].1.field_type)
}

/// The entries of `fs` describe, in order, the native queries of `nqs` that
/// stand for functions with a valid result type: each as a function and as a
/// collection.
pub open spec fn describes_functions(
    fs: Seq<(String, FunctionInfo, CollectionInfo)>,
    object_types: Seq<(String, ObjectType)>,
    nqs: Seq<(String, NativeQuery)>,
) -> bool
    decreases nqs.len(),
{
    if nqs.len() == 0 {
        fs.len() == 0
    } else {
        let q = nqs.last();
        if q.1.representation == NativeQueryRepresentation::Function
            && function_result_error(object_types, q.0@, q.1.result_document_type@) is None {
            &&& fs.len() > 0
            &&& describes_functions(fs.drop_last(), object_types, nqs.drop_last())
            &&& fs.last().0@ == q.0@
            &&& is_function_info(fs.last().1, object_types, q.0@, q.1)
            &&& is_collection_info(
                fs.last().2,
                object_types,
                q.0@,
                q.1.result_document_type@,
                q.1.description,
                q.1.arguments@,
            )
        } else {
            describes_functions(fs, object_types, nqs.drop_last())
        }
    }
}

fn native_query_to_function_info(
    object_types: &Vec<(String, ObjectType)>,
    name: &String,
    native_query: &NativeQuery,
) -> (r: Result<FunctionInfo, ConfigurationError>)
    ensures
        match r {
            Ok(f) => function_result_error(object_types@, name@, native_query.result_document_type@) is None
                && is_function_info(f, object_types@, name@, *native_query),
            Err(e) => function_result_error(object_types@, name@, native_query.result_document_type@) == Some(e@),
        },
{
    let result_type = function_result_type(object_types, name, &native_query.result_document_type);
    match result_type {
        Ok(t) => Ok(FunctionInfo {
            name: name.clone(),
            description: clone_opt_string(&native_query.description),
            arguments: arguments_to_ndc_arguments(&native_query.arguments),
            result_type: t,
        }),
        Err(e) => Err(e),
    }
}

fn collect_functions(
    object_types: &Vec<(String, ObjectType)>,
    native_queries: &Vec<(String, NativeQuery)>,
) -> (r: (Vec<(String, FunctionInfo, CollectionInfo)>, Vec<ConfigurationError>))
    ensures
        function_entry_names(r.0@) == function_names(object_types@, native_queries@),
        describes_functions(r.0@, object_types@, native_queries@),
        error_views(r.1@) == function_errors(object_types@, native_queries@),
{
    let mut functions: Vec<(String, FunctionInfo, CollectionInfo)> = Vec::new();
    let mut errors: Vec<ConfigurationError> = Vec::new();
    let mut i: usize = 0;
    while i < native_queries.len()
        invariant
            i <= native_queries@.len(),
            function_entry_names(functions@) == function_names(object_types@, native_queries@.take(i as int)),
            describes_functions(functions@, object_types@, native_queries@.take(i as int)),
            error_views(errors@) == function_errors(object_types@, native_queries@.take(i as int)),
        decreases native_queries.len() - i,
    {
        let (name, native_query) = (&native_queries[i].0, &native_queries[i].1);
        let ghost fs = functions@;
        let ghost es = errors@;
        if native_query.representation == NativeQueryRepresentation::Function {
            match native_query_to_function_info(object_types, name, native_query) {
                Ok(info) => {
                    let collection_info = native_query_to_collection_info(object_types, name, native_query);
                    functions.push((name.clone(), info, collection_info));
                    assert(function_entry_names(functions@) =~= function_entry_names(fs) + seq![name@]);
                    assert(functions@.drop_last() =~= fs);
                    assert(errors@ == es);
                },
                Err(e) => {
                    errors.push(e);
                    assert(error_views(errors@) =~= error_views(es) + seq![e@]);
                },
            }
        }
        assert(native_queries@.take(i + 1).drop_last() =~= native_queries@.take(i as int));
        i = i + 1;
        assert(function_entry_names(functions@) =~= function_names(object_types@, native_queries@.take(i as int)));
        assert(error_views(errors@) =~= function_errors(object_types@, native_queries@.take(i as int)));
    }
    assert(native_queries@.take(i as int) =~= native_queries@);
    (functions, errors)
}

/// `p` is the catalog entry of the native mutation `name`.
pub open spec fn is_procedure_info(p: ProcedureInfo, name: Seq<char>, m: NativeMutation) -> bool {
    &&& p.name@ == name
    &&& p.description == m.description
    &&& publishes_arguments(p.arguments@, m.arguments@)
    &&& publishes_type(p.result_type, m.result_type)
}

fn native_mutation_to_mutation_info(name: &String, mutation: &NativeMutation) -> (r: ProcedureInfo)
    ensures
        is_procedure_info(r, name@, *mutation),
{
    ProcedureInfo {
        name: name.clone(),
        description: clone_opt_string(&mutation.description),
        arguments: arguments_to_ndc_arguments(&mutation.arguments),
        result_type: to_ndc_type(&mutation.result_type),
    }
}

fn collect_mutations(native_mutations: &Vec<(String, NativeMutation)>) -> (r: Vec<(String, ProcedureInfo)>)
    ensures
        r@.len() == native_mutations@.len(),
        forall|i: int| 0 <= i < r@.len() ==> #[trigger] r@[i].0@ == native_mutations@[i].0@
            && is_procedure_info(r@[i].1, native_mutations@[i].0@, native_mutations@[i].1),
{
    let mut r: Vec<(String, ProcedureInfo)> = Vec::new();
    let mut i: usize = 0;
    while i < native_mutations.len()
        invariant
            i <= native_mutations@.len(),
            r@.len() == i,
            forall|j: int| 0 <= j < i ==> #[trigger] r@[j].0@ == native_mutations@[j].0@
                && is_procedure_info(r@[j].1, native_mutations@[j].0@, native_mutations@[j].1),
        decreases native_mutations.len() - i,
    {
        let (name, mutation) = (&native_mutations[i].0, &native_mutations[i].1);
        r.push((name.clone(), native_mutation_to_mutation_info(name, mutation)));
        i = i + 1;
    }
    r
}

/// One of `errors` reports `x` as a duplicate object type name.
pub open spec fn names_duplicate_object_type(errors: Seq<ConfigurationErrorView>, x: Seq<char>) -> bool {
    exists|i: int| 0 <= i < errors.len() && (#[trigger] errors[i]) is DuplicateObjectTypes
        && errors[i]->DuplicateObjectTypes_0.contains(x)
}

/// One of `errors` reports `x` as a duplicate collection name.
pub open spec fn names_duplicate_collection(errors: Seq<ConfigurationErrorView>, x: Seq<char>) -> bool {
    exists|i: int| 0 <= i < errors.len() && (#[trigger] errors[i]) is DuplicateCollections
        && errors[i]->DuplicateCollections_0.contains(x)
}

/// Gathers the object types of the schema, of the native mutations and of
/// the native queries, in that order, and leaves the mutations and queries
/// without them.
fn merge_object_types(
    schema_object_types: Vec<(String, ObjectType)>,
    native_mutations: Vec<(String, SerializedNativeMutation)>,
    native_queries: Vec<(String, SerializedNativeQuery)>,
) -> (r: (Vec<(String, ObjectType)>, Vec<(String, NativeMutation)>, Vec<(String, NativeQuery)>))
    ensures
        r.0@ == merged_object_types(schema_object_types@, native_mutations@, native_queries@),
        internal_mutations(r.1@, native_mutations@),
        internal_queries(r.2@, native_queries@),
{
    let mut object_types = schema_object_types;
    let mutations = take_mutation_object_types(&mut object_types, native_mutations);
    let queries = take_query_object_types(&mut object_types, native_queries);
    (object_types, mutations, queries)
}

/// The validated catalog.
#[derive(Debug, PartialEq)]
pub struct Configuration {
    /// Real collections, then the native queries that stand for collections.
    pub collections: Vec<(String, CollectionInfo)>,
    /// The native queries that stand for functions, each with its entry as a
    /// collection for query processing.
    pub functions: Vec<(String, FunctionInfo, CollectionInfo)>,
    /// The native mutations, as procedures.
    pub mutations: Vec<(String, ProcedureInfo)>,
    pub native_mutations: Vec<(String, NativeMutation)>,
    pub native_queries: Vec<(String, NativeQuery)>,
    /// The object types of the schema, of the native mutations and of the
    /// native queries, in that order.
    pub object_types: Vec<(String, ObjectType)>,
    pub options: ConfigurationOptions,
}

/// The object types of a configuration, in the order the catalog merges them.
pub open spec fn merged_object_types(
    schema_object_types: Seq<(String, ObjectType)>,
    nms: Seq<(String, SerializedNativeMutation)>,
    nqs: Seq<(String, SerializedNativeQuery)>,
) -> Seq<(String, ObjectType)> {
    schema_object_types + mutation_object_types(nms) + query_object_types(nqs)
}

pub open spec fn internal_query_seq(nqs: Seq<(String, SerializedNativeQuery)>) -> Seq<(String, NativeQuery)> {
    nqs.map_values(|e: (String, SerializedNativeQuery)| (e.0, internal_query(e.1)))
}

/// The object type that a configured type refers to, through arrays and
/// nullables.
pub open spec fn referenced_object(t: SchemaType) -> Option<Seq<char>>
    decreases t,
{
    match t {
        SchemaType::Object(name) => Some(name@),
        SchemaType::ArrayOf(e) => referenced_object(*e),
        SchemaType::Nullable(e) => referenced_object(*e),
        _ => None,
    }
}

/// The fields of the object type `object_type` that refer to an object type
/// not in `defined`, each as an error.
pub open spec fn field_reference_errors(
    defined: Seq<(String, ObjectType)>,
    object_type: Seq<char>,
    fields: Seq<(String, ObjectField)>,
) -> Seq<ConfigurationErrorView>
    decreases fields.len(),
{
    if fields.len() == 0 {
        Seq::empty()
    } else {
        let f = fields.last();
        field_reference_errors(defined, object_type, fields.drop_last()) + match referenced_object(f.1.field_type) {
            Some(n) => if no_match(defined, n) {
                seq![ConfigurationErrorView::UndefinedFieldType { object_type, field_name: f.0@, referenced: n }]
            } else {
                Seq::empty()
            },
            None => Seq::empty(),
        }
    }
}

/// Every field of `types` that refers to an object type not in `defined`.
pub open spec fn reference_errors(
    defined: Seq<(String, ObjectType)>,
    types: Seq<(String, ObjectType)>,
) -> Seq<ConfigurationErrorView>
    decreases types.len(),
{
    if types.len() == 0 {
        Seq::empty()
    } else {
        reference_errors(defined, types.drop_last()) + field_reference_errors(
            defined,
            types.last().0@,
            types.last().1.fields@,
        )
    }
}

fn find_referenced_object(t: &SchemaType) -> (r: Option<&String>)
    ensures
        match r {
            Some(n) => referenced_object(*t) == Some(n@),
            None => referenced_object(*t) is None,
        },
    decreases t,
{
    match t {
        SchemaType::Object(name) => Some(name),
        SchemaType::ArrayOf(e) => find_referenced_object(e),
        SchemaType::Nullable(e) => find_referenced_object(e),
        _ => None,
    }
}

fn collect_reference_errors(defined: &Vec<(String, ObjectType)>) -> (r: Vec<ConfigurationError>)
    ensures
        error_views(r@) == reference_errors(defined@, defined@),
{
    let mut r: Vec<ConfigurationError> = Vec::new();
    let mut i: usize = 0;
    while i < defined.len()
        invariant
            i <= defined@.len(),
            error_views(r@) == reference_errors(defined@, defined@.take(i as int)),
        decreases defined.len() - i,
    {
        let object_type = &defined[i].0;
        let fields = &defined[i].1.fields;
        let ghost outer = error_views(r@);
        let mut j: usize = 0;
        assert(fields@.take(0) =~= Seq::<(String, ObjectField)>::empty());
        assert(error_views(r@) =~= outer + field_reference_errors(defined@, object_type@, fields@.take(0)));
        while j < fields.len()
            invariant
                j <= fields@.len(),
                i < defined@.len(),
                outer == reference_errors(defined@, defined@.take(i as int)),
                error_views(r@) == outer + field_reference_errors(defined@, object_type@, fields@.take(j as int)),
            decreases fields.len() - j,
        {
            let ghost before = error_views(r@);
            assert(fields@.take(j + 1).drop_last() =~= fields@.take(j as int));
            assert(fields@.take(j + 1).last() == fields@[j as int]);
            if let Some(n) = find_referenced_object(&fields[j].1.field_type) {
                let found = find_entry(defined, n.as_str());
                if found.is_none() {
                    let e = ConfigurationError::UndefinedFieldType {
                        object_type: object_type.clone(),
                        field_name: fields[j].0.clone(),
                        referenced: n.clone(),
                    };
                    r.push(e);
                    assert(error_views(r@) =~= before.push(e@));
                } else {
                    assert(!no_match(defined@, n@)) by {
                        let k = found.unwrap() as int;
                        assert(defined@[k].0@ == n@);
                    }
                }
            }
            j = j + 1;
            assert(error_views(r@) =~= outer + field_reference_errors(defined@, object_type@, fields@.take(j as int)));
        }
        assert(fields@.take(j as int) =~= fields@);
        assert(defined@.take(i + 1).drop_last() =~= defined@.take(i as int));
        i = i + 1;
        assert(error_views(r@) =~= reference_errors(defined@, defined@.take(i as int)));
    }
    assert(defined@.take(i as int) =~= defined@);
    r
}

/// Every defect of a configuration whose merged object types are
/// `object_types`, whose collection names are `collections` and whose native
/// queries are `nqs`: duplicate object type names, duplicate collection names,
/// fields that refer to undefined object types, then the errors of the
/// functions.
pub open spec fn configuration_errors(
    object_types: Seq<(String, ObjectType)>,
    collections: Seq<Seq<char>>,
    nqs: Seq<(String, NativeQuery)>,
) -> Seq<ConfigurationErrorView> {
    let dup_types = duplicates_of(entry_names(object_types));
    let dup_collections = duplicates_of(collections);
    (if dup_types.len() > 0 {
        seq![ConfigurationErrorView::DuplicateObjectTypes(dup_types)]
    } else {
        Seq::empty()
    }) + (if dup_collections.len() > 0 {
        seq![ConfigurationErrorView::DuplicateCollections(dup_collections)]
    } else {
        Seq::empty()
    }) + reference_errors(object_types, object_types) + function_errors(object_types, nqs)
}

/// The defects of the configuration made of these parts.
pub open spec fn validation_errors(
    schema: Schema,
    nms: Seq<(String, SerializedNativeMutation)>,
    nqs: Seq<(String, SerializedNativeQuery)>,
) -> Seq<ConfigurationErrorView> {
    let object_types = merged_object_types(schema.object_types@, nms, nqs);
    configuration_errors(
        object_types,
        collection_names(schema.collections@, internal_query_seq(nqs)),
        internal_query_seq(nqs),
    )
}

impl Configuration {
    /// The catalog of a schema alone, with default options.
    pub fn from_schema(schema: Schema) -> (r: Result<Configuration, Vec<ConfigurationError>>)
        ensures
            r is Err <==> validation_errors(schema, Seq::empty(), Seq::empty()).len() > 0,
            r is Err ==> error_views(r->Err_0@) == validation_errors(schema, Seq::empty(), Seq::empty()),
            r is Ok ==> r->Ok_0.object_types@ == schema.object_types@
                && entry_names(r->Ok_0.collections@) == entry_names(schema.collections@)
                && r->Ok_0.functions@.len() == 0 && r->Ok_0.mutations@.len() == 0,
    {
        let ghost s = schema;
        let native_mutations: Vec<(String, SerializedNativeMutation)> = Vec::new();
        let native_queries: Vec<(String, SerializedNativeQuery)> = Vec::new();
        assert(native_mutations@ =~= Seq::empty());
        assert(native_queries@ =~= Seq::empty());
        let r = Configuration::validate(schema, native_mutations, native_queries, ConfigurationOptions::default());
        proof {
            assert(mutation_object_types(Seq::empty()) =~= Seq::empty());
            assert(query_object_types(Seq::empty()) =~= Seq::empty());
            assert(merged_object_types(s.object_types@, Seq::empty(), Seq::empty()) =~= s.object_types@);
            let nqs = internal_query_seq(Seq::<(String, SerializedNativeQuery)>::empty());
            assert(nqs =~= Seq::empty());
            assert(collection_query_names(nqs) =~= Seq::empty());
            assert(collection_names(s.collections@, nqs) =~= entry_names(s.collections@));
            assert(function_names(merged_object_types(s.object_types@, Seq::empty(), Seq::empty()), nqs) =~= Seq::empty());
            if r is Ok {
                assert(function_entry_names(r->Ok_0.functions@).len() == r->Ok_0.functions@.len());
            }
        }
        r
    }

    /// Merges the parts of a configuration into a catalog, or reports every
    /// defect found.
    pub fn validate(
        schema: Schema,
        native_mutations: Vec<(String, SerializedNativeMutation)>,
        native_queries: Vec<(String, SerializedNativeQuery)>,
        options: ConfigurationOptions,
    ) -> (r: Result<Configuration, Vec<ConfigurationError>>)
        ensures
            r is Err <==> validation_errors(schema, native_mutations@, native_queries@).len() > 0,
            r is Err ==> error_views(r->Err_0@) == validation_errors(schema, native_mutations@, native_queries@),
            r is Ok ==> {
                let c = r->Ok_0;
                let object_types = merged_object_types(schema.object_types@, native_mutations@, native_queries@);
                let nqs = internal_query_seq(native_queries@);
                &&& c.object_types@ == object_types
                &&& internal_mutations(c.native_mutations@, native_mutations@)
                &&& c.native_queries@ == nqs
                &&& entry_names(c.collections@) == collection_names(schema.collections@, nqs)
                &&& forall|i: int| 0 <= i < schema.collections@.len() ==> is_collection_info(
                    #[trigger] c.collections@[i].1,
                    object_types,
                    schema.collections@[i].0@,
                    schema.collections@[i].1.collection_type@,
                    schema.collections@[i].1.description,
                    Seq::empty(),
                )
                &&& describes_query_collections(
                    c.collections@.subrange(schema.collections@.len() as int, c.collections@.len() as int),
                    object_types,
                    nqs,
                )
                &&& function_entry_names(c.functions@) == function_names(object_types, nqs)
                &&& describes_functions(c.functions@, object_types, nqs)
                &&& c.mutations@.len() == native_mutations@.len()
                &&& forall|i: int| 0 <= i < c.mutations@.len() ==> #[trigger] c.mutations@[i].0@ == native_mutations@[i].0@
                    && is_procedure_info(c.mutations@[i].1, native_mutations@[i].0@, internal_mutation(native_mutations@[i].1))
                &&& c.options == options
            },
            forall|x: Seq<char>|
                occurs_twice(entry_names(merged_object_types(schema.object_types@, native_mutations@, native_queries@)), x)
                    ==> r is Err && names_duplicate_object_type(error_views(r->Err_0@), x),
            forall|x: Seq<char>|
                occurs_twice(collection_names(schema.collections@, internal_query_seq(native_queries@)), x)
                    ==> r is Err && names_duplicate_collection(error_views(r->Err_0@), x),
    {
        let ghost schema_view = schema;
        let ghost nms = native_mutations@;
        let ghost nqs = native_queries@;
        let Schema { collections: schema_collections, object_types: schema_object_types } = schema;
        let (object_types, internal_native_mutations, internal_native_queries) =
            merge_object_types(schema_object_types, native_mutations, native_queries);
        assert(internal_native_queries@ =~= internal_query_seq(nqs));

        let type_names = names_of(&object_types);
        let duplicate_types = duplicate_names(&type_names);
        let collections = collect_collections(&object_types, schema_collections, &internal_native_queries);
        let collection_names = names_of(&collections);
        let duplicate_collections = duplicate_names(&collection_names);
        let (functions, invalid_functions) = collect_functions(&object_types, &internal_native_queries);
        let mutations = collect_mutations(&internal_native_mutations);

        let ghost dt = duplicate_types@;
        let ghost dc = duplicate_collections@;
        let mut errors: Vec<ConfigurationError> = Vec::new();
        if duplicate_types.len() > 0 {
            errors.push(ConfigurationError::DuplicateObjectTypes(duplicate_types));
        }
        if duplicate_collections.len() > 0 {
            errors.push(ConfigurationError::DuplicateCollections(duplicate_collections));
        }
        let ghost before = errors@;
        let mut undefined_references = collect_reference_errors(&object_types);
        errors.append(&mut undefined_references);
        let ghost with_references = errors@;
        assert(error_views(errors@) =~= error_views(before) + reference_errors(object_types@, object_types@));
        let mut invalid_functions = invalid_functions;
        errors.append(&mut invalid_functions);
        assert(error_views(errors@) =~= error_views(with_references) + function_errors(object_types@, internal_native_queries@));
        assert(error_views(errors@) =~= validation_errors(schema_view, nms, nqs));
        proof {
            assert forall|x: Seq<char>| occurs_twice(entry_names(object_types@), x) implies
                names_duplicate_object_type(error_views(errors@), x) by {
                assert(string_views(dt).contains(x));
                assert(error_views(errors@)[0] == ConfigurationErrorView::DuplicateObjectTypes(string_views(dt)));
            }
            assert forall|x: Seq<char>| occurs_twice(entry_names(collections@), x) implies
                names_duplicate_collection(error_views(errors@), x) by {
                assert(string_views(dc).contains(x));
                let k: int = if dt.len() > 0 { 1 } else { 0 };
                assert(error_views(errors@)[k] == ConfigurationErrorView::DuplicateCollections(string_views(dc)));
            }
        }
        if errors.len() > 0 {
            return Err(errors);
        }
        Ok(Configuration {
            collections,
            functions,
            mutations,
            native_mutations: internal_native_mutations,
            native_queries: internal_native_queries,
            object_types,
            options,
        })
    }
}

/// `names` separated by `sep`.
pub open spec fn joined(names: Seq<Seq<char>>, sep: Seq<char>) -> Seq<char>
    decreases names.len(),
{
    if names.len() == 0 {
        Seq::empty()
    } else if names.len() == 1 {
        names[0]
    } else {
        joined(names.drop_last(), sep) + sep + names.last()
    }
}

pub(crate) fn join_names(names: &Vec<String>, sep: &str) -> (r: String)
    ensures
        r@ == joined(string_views(names@), sep@),
{
    let mut r = String::new();
    let mut i: usize = 0;
    while i < names.len()
        invariant
            i <= names@.len(),
            r@ == joined(string_views(names@.take(i as int)), sep@),
        decreases names.len() - i,
    {
        assert(string_views(names@.take(i + 1)).drop_last() =~= string_views(names@.take(i as int)));
        if i > 0 {
            r.append(sep);
        }
        r.append(names[i].as_str());
        i = i + 1;
        assert(r@ =~= joined(string_views(names@.take(i as int)), sep@));
    }
    assert(names@.take(i as int) =~= names@);
    r
}

/// The text of one configuration error.
pub open spec fn error_text(e: ConfigurationErrorView) -> Seq<char> {
    match e {
        ConfigurationErrorView::DuplicateObjectTypes(names) =>
            "configuration contains multiple definitions for these object type names: "@ + joined(names, ", "@),
        ConfigurationErrorView::DuplicateCollections(names) =>
            "configuration contains multiple definitions for these collection names: "@ + joined(names, ", "@),
        ConfigurationErrorView::UndefinedObjectType { function_name, object_type } =>
            "configuration references an object type named "@ + object_type + ", but it is not defined"@,
        ConfigurationErrorView::UndefinedFieldType { object_type, field_name, referenced } =>
            "the field "@ + field_name + " of object type "@ + object_type + " references an object type named "@
                + referenced + ", but it is not defined"@,
        ConfigurationErrorView::MissingValueField { function_name } =>
            "the type of the native query, "@ + function_name
                + ", is not valid: the type of a native query that is represented as a function must be an object type with a single field named \"__value\""@,
    }
}

/// The items of a bulleted list of the errors.
pub open spec fn error_items(errors: Seq<ConfigurationErrorView>) -> Seq<char>
    decreases errors.len(),
{
    if errors.len() == 0 {
        Seq::empty()
    } else {
        error_items(errors.drop_last()) + "\n  - "@ + error_text(errors.last())
    }
}

/// The report of a configuration's errors: a heading, then one bullet per error.
pub open spec fn errors_message(errors: Seq<ConfigurationErrorView>) -> Seq<char> {
    "connector configuration has errors:"@ + error_items(errors)
}

impl ConfigurationError {
    /// The text of this error.
    pub fn message(&self) -> (r: String)
        ensures
            r@ == error_text(self@),
    {
        match self {
            ConfigurationError::DuplicateObjectTypes(names) => {
                let r = String::from_str("configuration contains multiple definitions for these object type names: ");
                r.concat(join_names(names, ", ").as_str())
            },
            ConfigurationError::DuplicateCollections(names) => {
                let r = String::from_str("configuration contains multiple definitions for these collection names: ");
                r.concat(join_names(names, ", ").as_str())
            },
            ConfigurationError::UndefinedObjectType { function_name, object_type } => {
                let r = String::from_str("configuration references an object type named ");
                r.concat(object_type.as_str()).concat(", but it is not defined")
            },
            ConfigurationError::UndefinedFieldType { object_type, field_name, referenced } => {
                let r = String::from_str("the field ").concat(field_name.as_str()).concat(" of object type ");
                r.concat(object_type.as_str()).concat(" references an object type named ").concat(referenced.as_str()).concat(
                    ", but it is not defined",
                )
            },
            ConfigurationError::MissingValueField { function_name } => {
                let r = String::from_str("the type of the native query, ");
                r.concat(function_name.as_str()).concat(
                    ", is not valid: the type of a native query that is represented as a function must be an object type with a single field named \"__value\"",
                )
            },
        }
    }
}

/// The report of every error found in a configuration.
pub fn errors_to_string(errors: &Vec<ConfigurationError>) -> (r: String)
    ensures
        r@ == errors_message(error_views(errors@)),
{
    let mut r = String::from_str("connector configuration has errors:");
    let mut i: usize = 0;
    while i < errors.len()
        invariant
            i <= errors@.len(),
            r@ == "connector configuration has errors:"@ + error_items(error_views(errors@.take(i as int))),
        decreases errors.len() - i,
    {
        assert(error_views(errors@.take(i + 1)).drop_last() =~= error_views(errors@.take(i as int)));
        r.append("\n  - ");
        let text = errors[i].message();
        r.append(text.as_str());
        i = i + 1;
        assert(r@ =~= "connector configuration has errors:"@ + error_items(error_views(errors@.take(i as int))));
    }
    assert(errors@.take(i as int) =~= errors@);
    r
}

/// `needle` occurs in `hay` as a contiguous run.
pub open spec fn contains_text(hay: Seq<char>, needle: Seq<char>) -> bool {
    exists|i: int| 0 <= i && i + needle.len() <= hay.len() && #[trigger] hay.subrange(i, i + needle.len()) == needle
}

proof fn lemma_text_in_concat(a: Seq<char>, b: Seq<char>, x: Seq<char>)
    requires
        contains_text(a, x) || contains_text(b, x),
    ensures
        contains_text(a + b, x),
{
    if contains_text(a, x) {
        let i = choose|i: int| 0 <= i && i + x.len() <= a.len() && #[trigger] a.subrange(i, i + x.len()) == x;
        assert((a + b).subrange(i, i + x.len()) =~= a.subrange(i, i + x.len()));
    } else {
        let i = choose|i: int| 0 <= i && i + x.len() <= b.len() && #[trigger] b.subrange(i, i + x.len()) == x;
        assert((a + b).subrange(a.len() + i, a.len() + i + x.len()) =~= b.subrange(i, i + x.len()));
    }
}

proof fn lemma_text_in_itself(x: Seq<char>)
    ensures
        contains_text(x, x),
{
    let i: int = 0;
    assert(x.subrange(i, i + x.len()) =~= x);
}

proof fn lemma_joined_contains(names: Seq<Seq<char>>, sep: Seq<char>, x: Seq<char>)
    requires
        names.contains(x),
    ensures
        contains_text(joined(names, sep), x),
    decreases names.len(),
{
    lemma_text_in_itself(x);
    if names.len() == 1 {
        assert(names[0] == x);
    } else if names.last() == x {
        lemma_text_in_concat(joined(names.drop_last(), sep) + sep, x, x);
    } else {
        let j = choose|j: int| 0 <= j < names.len() && names[j] == x;
        assert(names.drop_last()[j] == x);
        lemma_joined_contains(names.drop_last(), sep, x);
        lemma_text_in_concat(joined(names.drop_last(), sep), sep, x);
        lemma_text_in_concat(joined(names.drop_last(), sep) + sep, names.last(), x);
    }
}

proof fn lemma_items_contain(errors: Seq<ConfigurationErrorView>, i: int, x: Seq<char>)
    requires
        0 <= i < errors.len(),
        contains_text(error_text(errors[i]), x),
    ensures
        contains_text(error_items(errors), x),
    decreases errors.len(),
{
    if i == errors.len() - 1 {
        lemma_text_in_concat(error_items(errors.drop_last()) + "\n  - "@, error_text(errors.last()), x);
    } else {
        assert(errors.drop_last()[i] == errors[i]);
        lemma_items_contain(errors.drop_last(), i, x);
        lemma_text_in_concat(error_items(errors.drop_last()), "\n  - "@, x);
        lemma_text_in_concat(error_items(errors.drop_last()) + "\n  - "@, error_text(errors.last()), x);
    }
}

/// A report of errors that include a duplicate object type name or a
/// duplicate collection name names it.
pub proof fn lemma_report_names_duplicates(errors: Seq<ConfigurationErrorView>, x: Seq<char>)
    requires
        names_duplicate_object_type(errors, x) || names_duplicate_collection(errors, x),
    ensures
        contains_text(errors_message(errors), x),
{
    let i = if names_duplicate_object_type(errors, x) {
        choose|i: int| 0 <= i < errors.len() && (#[trigger] errors[i]) is DuplicateObjectTypes
            && errors[i]->DuplicateObjectTypes_0.contains(x)
    } else {
        choose|i: int| 0 <= i < errors.len() && (#[trigger] errors[i]) is DuplicateCollections
            && errors[i]->DuplicateCollections_0.contains(x)
    };
    let names = if errors[i] is DuplicateObjectTypes {
        errors[i]->DuplicateObjectTypes_0
    } else {
        errors[i]->DuplicateCollections_0
    };
    lemma_joined_contains(names, ", "@, x);
    if errors[i] is DuplicateObjectTypes {
        lemma_text_in_concat("configuration contains multiple definitions for these object type names: "@, joined(names, ", "@), x);
    } else {
        lemma_text_in_concat("configuration contains multiple definitions for these collection names: "@, joined(names, ", "@), x);
    }
    lemma_items_contain(errors, i, x);
    lemma_text_in_concat("connector configuration has errors:"@, error_items(errors), x);
}

} // verus!
