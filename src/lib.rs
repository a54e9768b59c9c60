//! Adapter between a loosely-typed host and a schema-driven full-text index:
//! the field catalogue, document marshalling, query construction, result
//! projection and the writer's lifecycle, each with a verified contract.

pub mod catalogue;
pub mod document;
pub mod query;
pub mod project;
pub mod writer;
