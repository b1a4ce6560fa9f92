//! The record layer: what a stored memory is, what can go wrong with one,
//! and the rules that frame, scan and index the records.

pub mod embedding;
pub mod fts;
pub mod search;

use vstd::prelude::*;
use vstd::string::*;
use crate::text::decimal;
use crate::text::decimal_digits;
use self::embedding::encode;
use self::embedding::vec_to_blob;
use self::embedding::EMBEDDING_DIMS;

verus! {

/// A single memory record with an optional score.
///
/// `similarity` is the bit pattern of a binary64 value: cosine similarity
/// after a vector search, the lexical score after a keyword search, the
/// accumulated reciprocal-rank score after fusion, absent on plain retrieval.
pub struct Memory {
    pub id: String,
    pub project_id: String,
    pub content: String,
    pub metadata: Option<String>,
    pub similarity: Option<u64>,
    pub created_at: String,
    pub updated_at: String,
}

/// A memory as its contracts speak of it: text as sequences of characters.
pub ghost struct MemoryView {
    pub id: Seq<char>,
    pub project_id: Seq<char>,
    pub content: Seq<char>,
    pub metadata: Option<Seq<char>>,
    pub similarity: Option<u64>,
    pub created_at: Seq<char>,
    pub updated_at: Seq<char>,
}

impl View for Memory {
    type V = MemoryView;

    open spec fn view(&self) -> MemoryView {
        MemoryView {
            id: self.id@,
            project_id: self.project_id@,
            content: self.content@,
            metadata: match self.metadata {
                Some(m) => Some(m@),
                None => None,
            },
            similarity: self.similarity,
            created_at: self.created_at@,
            updated_at: self.updated_at@,
        }
    }
}

impl MemoryView {
    /// The score of this record as a number: zero where it has none.
    pub open spec fn score(self) -> u64 {
        match self.similarity {
            Some(s) => s,
            None => 0,
        }
    }

    /// This record with `score` in place of its score.
    pub open spec fn with_score(self, score: Option<u64>) -> MemoryView {
        MemoryView { similarity: score, ..self }
    }
}

impl Clone for Memory {
    /// A copy of this record.
    fn clone(&self) -> (r: Memory)
        ensures
            r@ == self@,
    {
        let metadata = match &self.metadata {
            Some(m) => Some(m.clone()),
            None => None,
        };
        Memory {
            id: self.id.clone(),
            project_id: self.project_id.clone(),
            content: self.content.clone(),
            metadata,
            similarity: self.similarity,
            created_at: self.created_at.clone(),
            updated_at: self.updated_at.clone(),
        }
    }
}

impl Memory {
    /// The score of this record, zero where it has none.
    pub fn score(&self) -> (r: u64)
        ensures
            r == self@.score(),
    {
        match self.similarity {
            Some(s) => s,
            None => 0,
        }
    }

    /// A copy of this record that carries `score`.
    pub fn scored(&self, score: Option<u64>) -> (r: Memory)
        ensures
            r@ == self@.with_score(score),
    {
        let mut m = self.clone();
        m.similarity = score;
        m
    }
}

/// The views of a list of records.
pub open spec fn views(s: Seq<Memory>) -> Seq<MemoryView> {
    s.map_values(|m: Memory| m@)
}

/// A row of the record table: the record and its vector blob.
pub struct StoredRow {
    pub memory: Memory,
    pub embedding: Vec<u8>,
}

/// What an update writes into a row: the new content, the blob of its
/// vector and the time of the update. Id, project and creation time are
/// not among them, so an update cannot change them.
pub struct RowUpdate {
    pub content: String,
    pub embedding: Vec<u8>,
    pub updated_at: String,
}

/// What the record layer rejects.
#[derive(Debug)]
pub enum Error {
    /// The storage engine failed; the text says how.
    Sqlite(String),
    /// A stored vector blob does not have the one accepted size.
    InvalidBlobSize { expected: usize, actual: usize },
    /// A vector does not have the expected number of components.
    MismatchedDimensions { expected: usize, actual: usize },
    /// Similarity asked of a vector without components.
    EmptyVector,
    /// A vector holds a component that is NaN or infinite.
    InvalidEmbedding(String),
    /// A result limit outside the accepted range.
    InvalidLimit(String),
}

impl Error {
    /// The text of this error.
    pub open spec fn message_spec(&self) -> Seq<char> {
        match self {
            Error::Sqlite(msg) => "Database error: "@ + msg@,
            Error::InvalidBlobSize { expected, actual } => "Invalid BLOB size: expected "@
                + decimal_digits(*expected as nat) + " bytes, got "@ + decimal_digits(
                *actual as nat,
            ) + " bytes"@,
            Error::MismatchedDimensions { expected, actual } => "Mismatched dimensions: expected "@
                + decimal_digits(*expected as nat) + " dimensions, got "@ + decimal_digits(
                *actual as nat,
            ) + " dimensions"@,
            Error::EmptyVector => "Cannot compute similarity with empty vector"@,
            Error::InvalidEmbedding(msg) => "Invalid embedding: "@ + msg@,
            Error::InvalidLimit(msg) => "Invalid limit: "@ + msg@,
        }
    }

    /// The text of this error, for display.
    pub fn message(&self) -> (r: String)
        ensures
            r@ == self.message_spec(),
    {
        match self {
            Error::Sqlite(msg) => String::from_str("Database error: ").concat(msg.as_str()),
            Error::InvalidBlobSize { expected, actual } => {
                let mut m = String::from_str("Invalid BLOB size: expected ");
                m.append(decimal(*expected).as_str());
                m.append(" bytes, got ");
                m.append(decimal(*actual).as_str());
                m.append(" bytes");
                m
            },
            Error::MismatchedDimensions { expected, actual } => {
                let mut m = String::from_str("Mismatched dimensions: expected ");
                m.append(decimal(*expected).as_str());
                m.append(" dimensions, got ");
                m.append(decimal(*actual).as_str());
                m.append(" dimensions");
                m
            },
            Error::EmptyVector => String::from_str("Cannot compute similarity with empty vector"),
            Error::InvalidEmbedding(msg) => String::from_str("Invalid embedding: ").concat(
                msg.as_str(),
            ),
            Error::InvalidLimit(msg) => String::from_str("Invalid limit: ").concat(msg.as_str()),
        }
    }
}

/// `e` rejects a vector of `len` components as one to be stored.
pub open spec fn is_dimension_error(len: nat, e: Error) -> bool {
    e matches Error::MismatchedDimensions { expected, actual } && expected == EMBEDDING_DIMS
        && actual == len
}

/// The row of a new memory under the id `id`, with the given times of
/// creation and of the last update.
///
/// The row has no score. Fails with `MismatchedDimensions` when the vector
/// does not have 384 components.
pub fn new_record(
    id: &str,
    project_id: &str,
    content: &str,
    embedding: &[u32],
    metadata: Option<&str>,
    created_at: &str,
    updated_at: &str,
) -> (r: Result<StoredRow, Error>)
    ensures
        embedding@.len() == EMBEDDING_DIMS <==> r is Ok,
        r matches Ok(row) ==> {
            &&& row.embedding@ == encode(embedding@)
            &&& row.memory@ == MemoryView {
                id: id@,
                project_id: project_id@,
                content: content@,
                metadata: match metadata {
                    Some(m) => Some(m@),
                    None => None,
                },
                similarity: None,
                created_at: created_at@,
                updated_at: updated_at@,
            }
        },
        r matches Err(e) ==> is_dimension_error(embedding@.len(), e),
{
    let blob = match vec_to_blob(embedding) {
        Ok(b) => b,
        Err(e) => {
            return Err(e);
        },
    };
    let metadata = match metadata {
        Some(m) => Some(String::from_str(m)),
        None => None,
    };
    Ok(
        StoredRow {
            memory: Memory {
                id: String::from_str(id),
                project_id: String::from_str(project_id),
                content: String::from_str(content),
                metadata,
                similarity: None,
                created_at: String::from_str(created_at),
                updated_at: String::from_str(updated_at),
            },
            embedding: blob,
        },
    )
}

/// A new identifier, drawn at random.
///
/// Trusted: the body is uuid's `Uuid::new_v4`, which draws a version 4
/// identifier from the random source of the operating system, written out by
/// its `Display`. The result differs from call to call; nothing is claimed of it.
#[verifier::external_body]
fn fresh_id() -> (r: String) {
    uuid::Uuid::new_v4().to_string()
}

/// The present time in UTC, as text.
///
/// Trusted: the body is chrono's `Utc::now`, which reads the system clock,
/// written out by `DateTime::to_rfc3339`. The result differs from call to
/// call; nothing is claimed of it.
#[verifier::external_body]
fn current_time() -> (r: String) {
    chrono::Utc::now().to_rfc3339()
}

/// The row of a new memory, created now under a new identifier.
///
/// Whatever identifier and time are drawn, creation and update time are the
/// same, the row has no score, and the blob is that of the vector. Fails
/// with `MismatchedDimensions` when the vector does not have 384 components.
pub fn prepare_insert(
    project_id: &str,
    content: &str,
    embedding: &[u32],
    metadata: Option<&str>,
) -> (r: Result<StoredRow, Error>)
    ensures
        embedding@.len() == EMBEDDING_DIMS <==> r is Ok,
        r matches Ok(row) ==> {
            &&& row.embedding@ == encode(embedding@)
            &&& row.memory@.project_id == project_id@
            &&& row.memory@.content == content@
            &&& row.memory@.metadata == match metadata {
                Some(m) => Some(m@),
                None => None,
            }
            &&& row.memory@.similarity is None
            &&& row.memory@.created_at == row.memory@.updated_at
        },
        r matches Err(e) ==> is_dimension_error(embedding@.len(), e),
{
    let id = fresh_id();
    let now = current_time();
    new_record(id.as_str(), project_id, content, embedding, metadata, now.as_str(), now.as_str())
}

/// The row of a memory that is taken over from elsewhere: stored under a
/// new identifier, with the times of creation and update that it had.
///
/// Fails with `MismatchedDimensions` when the vector does not have 384 components.
pub fn prepare_insert_with_time(
    project_id: &str,
    content: &str,
    embedding: &[u32],
    metadata: Option<&str>,
    created_at: &str,
    updated_at: &str,
) -> (r: Result<StoredRow, Error>)
    ensures
        embedding@.len() == EMBEDDING_DIMS <==> r is Ok,
        r matches Ok(row) ==> {
            &&& row.embedding@ == encode(embedding@)
            &&& row.memory@.project_id == project_id@
            &&& row.memory@.content == content@
            &&& row.memory@.metadata == match metadata {
                Some(m) => Some(m@),
                None => None,
            }
            &&& row.memory@.similarity is None
            &&& row.memory@.created_at == created_at@
            &&& row.memory@.updated_at == updated_at@
        },
        r matches Err(e) ==> is_dimension_error(embedding@.len(), e),
{
    let id = fresh_id();
    new_record(id.as_str(), project_id, content, embedding, metadata, created_at, updated_at)
}

/// What an update made now writes: the new content, the blob of the new
/// vector, and the present time as the time of the update.
///
/// Fails with `MismatchedDimensions` when the vector does not have 384 components.
pub fn prepare_update(content: &str, embedding: &[u32]) -> (r: Result<RowUpdate, Error>)
    ensures
        embedding@.len() == EMBEDDING_DIMS <==> r is Ok,
        r matches Ok(update) ==> update.content@ == content@ && update.embedding@ == encode(
            embedding@,
        ),
        r matches Err(e) ==> is_dimension_error(embedding@.len(), e),
{
    let now = current_time();
    new_update(content, embedding, now.as_str())
}

/// What an update at `now` writes: the new content, the blob of the new
/// vector, and `now` as the time of the update.
///
/// Fails with `MismatchedDimensions` when the vector does not have 384 components.
pub fn new_update(content: &str, embedding: &[u32], now: &str) -> (r: Result<RowUpdate, Error>)
    ensures
        embedding@.len() == EMBEDDING_DIMS <==> r is Ok,
        r matches Ok(update) ==> {
            &&& update.content@ == content@
            &&& update.embedding@ == encode(embedding@)
            &&& update.updated_at@ == now@
        },
        r matches Err(e) ==> is_dimension_error(embedding@.len(), e),
{
    let blob = match vec_to_blob(embedding) {
        Ok(b) => b,
        Err(e) => {
            return Err(e);
        },
    };
    Ok(
        RowUpdate {
            content: String::from_str(content),
            embedding: blob,
            updated_at: String::from_str(now),
        },
    )
}

/// The text that reports an update of a memory that does not exist.
pub open spec fn missing_memory_text(id: Seq<char>) -> Seq<char> {
    "No memory found with id: "@ + id
}

/// Judges an update by the number of rows it changed: an update that
/// changed no row was aimed at a memory that does not exist.
pub fn check_updated(rows_changed: usize, id: &str) -> (r: Result<(), Error>)
    ensures
        rows_changed != 0 <==> r is Ok,
        r matches Err(e) ==> (e matches Error::Sqlite(msg) && msg@ == missing_memory_text(id@)),
{
    if rows_changed == 0 {
        return Err(Error::Sqlite(String::from_str("No memory found with id: ").concat(id)));
    }
    Ok(())
}

/// Whether a deletion that removed `rows_removed` rows removed a memory.
pub fn was_deleted(rows_removed: usize) -> (r: bool)
    ensures
        r == (rows_removed > 0),
{
    rows_removed > 0
}

} // verus!
