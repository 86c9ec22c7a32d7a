//! A keyed store of command snippets: the record type, the operations that
//! add, look up, search and delete records in an ordered collection, and the
//! policy that turns what was found on disk into a collection.

pub mod snippet;
pub mod text;
pub mod vault;
pub mod store;
pub mod laws;
