#![verifier::loop_isolation(false)]

//! A fragment of a table-oriented storage engine for real-time ingestion
//! and analytics.
//!
//! Writes arrive as row-oriented batches; the engine converts them into an
//! immutable columnar representation under strict schema-conformance
//! checking. The crate covers the logical-to-physical schema mapping, the
//! row-to-columnar accumulator, introspection views derived from a schema,
//! the partition-addressing adapter, and the in-memory state of the meta
//! service.

pub mod columnar;
pub mod error;
pub mod filesystem;
pub mod introspect;
pub mod meta_server;
pub mod partition;
pub mod row_codec;
pub mod schema;
