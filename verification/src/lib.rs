//! A verified core for a small item service: a document collection holding
//! records of `id`, `name` and `description`, with create, read-all, update
//! and delete operations, and a parse/format pair for the wire form of
//! record identifiers.

pub mod errors;
pub mod ids;
pub mod items;
pub mod laws;
pub mod store;
