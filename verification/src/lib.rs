//! A local memory layer for short text snippets: storage framing, vector and
//! keyword retrieval, rank fusion and recency weighting.
//!
//! Floating-point quantities (vector components, scores, weights) are carried
//! as IEEE-754 bit patterns, so that every rule about them is a statement on
//! integers. Arithmetic on them, the embedding of text and the reading and
//! writing of records are the caller's part.

pub mod config;
pub mod embedding;
pub mod errors;
pub mod float_bits;
pub mod import;
pub mod memory;
pub mod memory_types;
pub mod output;
pub mod project;
pub mod ranking;
pub mod rrf;
pub mod sqlite;
pub mod temporal;
pub mod text;

pub use embedding::EMBEDDING_DIMS;
pub use errors::Error;
pub use memory::store::MAX_INPUT_LENGTH;
pub use memory::store::MAX_SEARCH_LIMIT;
pub use memory_types::AddResult;
pub use memory_types::ConflictMemory;
pub use sqlite::Memory;
