//! Memory store data types.

use vstd::prelude::*;

verus! {

/// Details about a stored memory that is close to a proposed addition.
#[derive(Debug)]
pub struct ConflictMemory {
    /// Unique identifier of the conflicting memory.
    pub id: String,
    /// Content of the conflicting memory.
    pub content: String,
    /// Cosine similarity to the proposed content, as a binary64 bit pattern.
    pub similarity: u64,
}

/// A conflict as the contracts speak of it.
pub ghost struct ConflictView {
    pub id: Seq<char>,
    pub content: Seq<char>,
    pub similarity: u64,
}

impl View for ConflictMemory {
    type V = ConflictView;

    open spec fn view(&self) -> ConflictView {
        ConflictView { id: self.id@, content: self.content@, similarity: self.similarity }
    }
}

/// Result of a conflict-aware addition.
#[derive(Debug)]
pub enum AddResult {
    /// The memory was stored under `id`.
    Added { id: String },
    /// Nothing was stored: the proposed content is close to the listed memories.
    Conflicts { proposed: String, conflicts: Vec<ConflictMemory> },
}

} // verus!
