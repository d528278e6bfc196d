//! The query-translation core of a MongoDB data connector.
//!
//! - `scalar_types`, `types`: the BSON scalar types with their capabilities,
//!   and the type model that the other parts share.
//! - `configuration`: validation of a configuration into a catalog.
//! - `bson`, `serialization`: BSON and JSON values, and the type-directed
//!   conversions between them.
//! - `query_plan`, `query_plan_error`: the resolved query plan.
//! - `comparison_function`, `pipeline`, `foreach`, `variables`, `arguments`:
//!   the lowering of a plan to an aggregation pipeline.
//! - `response`: the typed response built from the documents a pipeline
//!   returned.
pub mod arguments;
pub mod bson;
pub mod comparison_function;
pub mod configuration;
pub mod foreach;
pub mod pipeline;
pub mod query_plan;
pub mod query_plan_error;
pub mod response;
pub mod scalar_types;
pub mod serialization;
pub mod types;
pub mod variables;
