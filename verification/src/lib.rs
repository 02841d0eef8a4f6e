//! Extraction of a crate's public API description into RDF triples.
//!
//! The pipeline has three stages: parsing a versioned, schema-evolving JSON
//! document into an in-memory item tree (`model`, `parse`), walking that tree
//! while minting deterministic identifiers (`iri`) for every declaration
//! (`extractor`), and serializing the resulting statements in one of two RDF
//! textual formats (`ntriples`, `turtle`).

pub mod emitter;
pub mod escape;
pub mod extractor;
pub mod iri;
pub mod loader;
pub mod model;
pub mod ntriples;
pub mod ontology;
pub mod order;
pub mod parse;
pub mod text;
pub mod turtle;
