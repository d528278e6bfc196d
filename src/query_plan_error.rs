//! Errors of query planning.
use vstd::prelude::*;
use crate::configuration::{joined, string_views};

verus! {

/// Why a request could not be planned.
#[derive(Debug, PartialEq)]
pub enum QueryPlanError {
    ExpectedArray { path: Vec<String> },
    ExpectedObject { path: Vec<String> },
    NotImplemented(String),
    RelationshipUnification(String),
    RootTypeIsNotObject(String),
    TypeMismatch(String),
    UnknownComparisonOperator(String),
    UnknownScalarType(String),
    UnknownObjectType(String),
    UnknownObjectTypeField { object_type: Option<String>, field_name: String, path: Vec<String> },
    UnknownCollection(String),
    UnknownRelationship { relationship_name: String, path: Vec<String> },
    UnknownAggregateFunction { aggregate_function: String },
    UnspecifiedFunction(String),
    UnspecifiedRelation(String),
    ExpectedObjectTypeAtField { parent_type: Option<String>, field_name: String, got: String },
}

/// ` at path a.b.c`, or nothing for the empty path.
pub open spec fn spec_at_path(path: Seq<Seq<char>>) -> Seq<char> {
    if path.len() == 0 {
        Seq::empty()
    } else {
        " at path "@ + joined(path, "."@)
    }
}

/// ` in object type "name"`, or nothing without a name.
pub open spec fn spec_in_object_type(object_type: Option<Seq<char>>) -> Seq<char> {
    match object_type {
        Some(name) => " in object type \""@ + name + "\""@,
        None => Seq::empty(),
    }
}

/// The text that places an error at a path.
pub fn at_path(path: &Vec<String>) -> (r: String)
    ensures
        r@ == spec_at_path(string_views(path@)),
{
    if path.len() == 0 {
        String::new()
    } else {
        String::from_str(" at path ").concat(crate::configuration::join_names(path, ".").as_str())
    }
}

/// The text that names the object type of an error.
pub fn in_object_type(object_type: Option<&String>) -> (r: String)
    ensures
        r@ == spec_in_object_type(match object_type {
            Some(n) => Some(n@),
            None => None,
        }),
{
    match object_type {
        Some(name) => String::from_str(" in object type \"").concat(name.as_str()).concat("\""),
        None => String::new(),
    }
}

impl QueryPlanError {
    /// The message of an unknown field: its name, its object type where known,
    /// and its path where not empty.
    pub fn unknown_field_message(&self) -> (r: Option<String>)
        ensures
            match self {
                QueryPlanError::UnknownObjectTypeField { object_type, field_name, path } => r is Some
                    && r->Some_0@ == "Unknown field \""@ + field_name@ + "\""@
                        + spec_in_object_type(match object_type {
                            Some(n) => Some(n@),
                            None => None,
                        }) + spec_at_path(string_views(path@)),
                _ => r is None,
            },
    {
        match self {
            QueryPlanError::UnknownObjectTypeField { object_type, field_name, path } => {
                let r = String::from_str("Unknown field \"").concat(field_name.as_str()).concat("\"");
                let r = r.concat(in_object_type(object_type.as_ref()).as_str());
                Some(r.concat(at_path(path).as_str()))
            },
            _ => None,
        }
    }
}

} // verus!
