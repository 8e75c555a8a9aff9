//! Execution core for SQL row insertion: resolving value-list expressions
//! into scalars, mapping target columns, materializing full-width rows,
//! validating cells against column constraints, and packing validated rows
//! into the storage backend's binary record format — with all-or-nothing
//! batch semantics and SQL-style positional diagnostics.

pub mod codec;
pub mod diag;
pub mod expr;
pub mod laws;
pub mod plan;
pub mod resolve;
pub mod types;
pub mod values;
