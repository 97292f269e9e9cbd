//! Schema-driven synthesis of data-access operations.
//!
//! Given a description of a record type — its fields, which field is the
//! primary key, and which database table it maps to — this crate validates
//! the description into a [`descriptor::SchemaDescriptor`] and synthesizes
//! the SQL text for create, read-by-key, read-all, update and delete
//! operations, together with the parameter bind order and result shape of
//! each operation.  The synthesized text is proved byte-stable and proved
//! to follow the declared field order, with the id column excluded from
//! column and placeholder lists and the id parameter of an update bound
//! last.
//!
//! The crate also carries an in-memory substitute store against which the
//! run-time semantics of the operations — in particular the outcome of a
//! read of one record by key, and the create/read round trip — are stated
//! and proved.  Talking to a real database is left to unverified callers,
//! which execute the synthesized statements and hand rows and failures
//! back as plain values.

pub mod binder;
pub mod builder;
pub mod descriptor;
pub mod error;
pub mod store;
pub mod synth;
