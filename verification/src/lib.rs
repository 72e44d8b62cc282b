//! A search filter service core: it turns a keyword search request into a
//! SPARQL query against a public knowledge graph, and materializes the
//! upstream answer into a list of `(url, resume)` records under a
//! wall-clock budget.
//!
//! The modules hold the verified logic; network and HTTP hosting live in
//! the surrounding application.

pub mod collect;
pub mod num_text;
pub mod pairs;
pub mod query;
pub mod request;
pub mod sparql;
