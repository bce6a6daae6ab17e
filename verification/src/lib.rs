//! Core logic of a small log ingestion and search service: the index schema,
//! how an incoming log record becomes an index document, how request
//! parameters become field queries, and how stored hits are flattened.

pub mod hits;
pub mod ingest;
pub mod query;
pub mod schema;
pub mod search;
pub mod setup;


use vstd::prelude::*;

verus! {

/// Folder that holds the service's data (index and user database).
pub const INDEX_FOLDER: &'static str = "data";

/// Sub-folder of `INDEX_FOLDER` that holds the search index.
pub const INDEX_PATH: &'static str = "indexData";

/// Memory budget, in bytes, handed to the index writer.
pub const INDEX_HEAP_SIZE: usize = 50_000_000;

} // verus!
