//! Response values: what each operation reports to its caller.

use vstd::prelude::*;
use vstd::string::*;
use crate::memory_types::ConflictMemory;
use crate::sqlite::Memory;

verus! {

/// Response for a successful addition.
pub struct AddResponse {
    /// Operation status ("added").
    pub status: String,
    /// Unique identifier of the added memory.
    pub id: String,
}

/// Response for search results.
pub struct SearchResponse {
    /// Search results, best first.
    pub results: Vec<SearchResultItem>,
}

/// Individual search result.
pub struct SearchResultItem {
    /// Unique identifier of the memory.
    pub id: String,
    /// Memory content.
    pub content: String,
    /// Relevance score as a binary64 bit pattern; zero where the memory has none.
    pub similarity: u64,
    /// Creation timestamp.
    pub created_at: String,
}

/// Response for retrieving one memory.
pub struct GetResponse {
    /// Unique identifier of the memory.
    pub id: String,
    /// Memory content.
    pub content: String,
    /// Project of the memory.
    pub project_id: String,
    /// Metadata given with the memory.
    pub metadata: Option<String>,
    /// Creation timestamp.
    pub created_at: String,
    /// Timestamp of the last update.
    pub updated_at: String,
}

/// Response for listing memories.
pub struct ListResponse {
    /// Memories, newest first.
    pub memories: Vec<ListItem>,
}

/// Individual list item.
pub struct ListItem {
    /// Unique identifier of the memory.
    pub id: String,
    /// Memory content.
    pub content: String,
    /// Creation timestamp.
    pub created_at: String,
}

/// Response for a successful deletion.
pub struct DeleteResponse {
    /// Operation status ("deleted").
    pub status: String,
    /// Unique identifier of the deleted memory.
    pub id: String,
}

/// Response for a successful update.
pub struct UpdateResponse {
    /// Operation status ("updated").
    pub status: String,
    /// Unique identifier of the updated memory.
    pub id: String,
}

/// Response for a failure.
pub struct ErrorResponse {
    /// What went wrong.
    pub error: String,
}

/// Response for an addition that met conflicts.
pub struct ConflictsResponse {
    /// Operation status ("conflicts").
    pub status: String,
    /// The proposed content.
    pub proposed: String,
    /// The memories that stand against it.
    pub conflicts: Vec<ConflictMemoryResponse>,
}

/// Individual conflicting memory.
pub struct ConflictMemoryResponse {
    /// Unique identifier of the conflicting memory.
    pub id: String,
    /// Memory content.
    pub content: String,
    /// Similarity to the proposed content, as a binary64 bit pattern.
    pub similarity: u64,
}

impl AddResponse {
    /// Reports that the memory `id` was added.
    pub fn added(id: &str) -> (r: Self)
        ensures
            r.status@ == "added"@,
            r.id@ == id@,
    {
        AddResponse { status: String::from_str("added"), id: String::from_str(id) }
    }
}

impl DeleteResponse {
    /// Reports that the memory `id` was deleted.
    pub fn deleted(id: &str) -> (r: Self)
        ensures
            r.status@ == "deleted"@,
            r.id@ == id@,
    {
        DeleteResponse { status: String::from_str("deleted"), id: String::from_str(id) }
    }
}

impl UpdateResponse {
    /// Reports that the memory `id` was updated.
    pub fn updated(id: &str) -> (r: Self)
        ensures
            r.status@ == "updated"@,
            r.id@ == id@,
    {
        UpdateResponse { status: String::from_str("updated"), id: String::from_str(id) }
    }
}

impl ErrorResponse {
    /// Reports a failure by its text.
    pub fn of(message: &str) -> (r: Self)
        ensures
            r.error@ == message@,
    {
        ErrorResponse { error: String::from_str(message) }
    }
}

impl GetResponse {
    /// Reports a memory in full, without its score.
    pub fn of(m: &Memory) -> (r: Self)
        ensures
            r.id@ == m@.id,
            r.content@ == m@.content,
            r.project_id@ == m@.project_id,
            r.created_at@ == m@.created_at,
            r.updated_at@ == m@.updated_at,
            match (r.metadata, m@.metadata) {
                (Some(a), Some(b)) => a@ == b,
                (None, None) => true,
                _ => false,
            },
    {
        let metadata = match &m.metadata {
            Some(text) => Some(text.clone()),
            None => None,
        };
        GetResponse {
            id: m.id.clone(),
            content: m.content.clone(),
            project_id: m.project_id.clone(),
            metadata,
            created_at: m.created_at.clone(),
            updated_at: m.updated_at.clone(),
        }
    }
}

impl ListResponse {
    /// Reports each memory by id, content and creation time, in the order given.
    pub fn of(memories: &Vec<Memory>) -> (r: Self)
        ensures
            r.memories@.len() == memories@.len(),
            forall|i: int|
                0 <= i < memories@.len() ==> {
                    &&& (#[trigger] r.memories@[i]).id@ == memories@[i]@.id
                    &&& r.memories@[i].content@ == memories@[i]@.content
                    &&& r.memories@[i].created_at@ == memories@[i]@.created_at
                },
    {
        let mut items: Vec<ListItem> = Vec::new();
        let mut i: usize = 0;
        while i < memories.len()
            invariant
                i <= memories@.len(),
                items@.len() == i,
                forall|j: int|
                    0 <= j < i ==> {
                        &&& (#[trigger] items@[j]).id@ == memories@[j]@.id
                        &&& items@[j].content@ == memories@[j]@.content
                        &&& items@[j].created_at@ == memories@[j]@.created_at
                    },
            decreases memories.len() - i,
        {
            let m = &memories[i];
            items.push(
                ListItem {
                    id: m.id.clone(),
                    content: m.content.clone(),
                    created_at: m.created_at.clone(),
                },
            );
            i += 1;
        }
        ListResponse { memories: items }
    }
}

impl SearchResponse {
    /// Reports each result by id, content, score and creation time, in the
    /// order given. A result without a score is reported with score zero.
    pub fn of(memories: &Vec<Memory>) -> (r: Self)
        ensures
            r.results@.len() == memories@.len(),
            forall|i: int|
                0 <= i < memories@.len() ==> {
                    &&& (#[trigger] r.results@[i]).id@ == memories@[i]@.id
                    &&& r.results@[i].content@ == memories@[i]@.content
                    &&& r.results@[i].similarity == memories@[i]@.score()
                    &&& r.results@[i].created_at@ == memories@[i]@.created_at
                },
    {
        let mut items: Vec<SearchResultItem> = Vec::new();
        let mut i: usize = 0;
        while i < memories.len()
            invariant
                i <= memories@.len(),
                items@.len() == i,
                forall|j: int|
                    0 <= j < i ==> {
                        &&& (#[trigger] items@[j]).id@ == memories@[j]@.id
                        &&& items@[j].content@ == memories@[j]@.content
                        &&& items@[j].similarity == memories@[j]@.score()
                        &&& items@[j].created_at@ == memories@[j]@.created_at
                    },
            decreases memories.len() - i,
        {
            let m = &memories[i];
            items.push(
                SearchResultItem {
                    id: m.id.clone(),
                    content: m.content.clone(),
                    similarity: m.score(),
                    created_at: m.created_at.clone(),
                },
            );
            i += 1;
        }
        SearchResponse { results: items }
    }
}

impl ConflictsResponse {
    /// Reports the proposed content and every conflict, in the order given.
    pub fn of(proposed: &str, conflicts: &Vec<ConflictMemory>) -> (r: Self)
        ensures
            r.status@ == "conflicts"@,
            r.proposed@ == proposed@,
            r.conflicts@.len() == conflicts@.len(),
            forall|i: int|
                0 <= i < conflicts@.len() ==> {
                    &&& (#[trigger] r.conflicts@[i]).id@ == conflicts@[i]@.id
                    &&& r.conflicts@[i].content@ == conflicts@[i]@.content
                    &&& r.conflicts@[i].similarity == conflicts@[i]@.similarity
                },
    {
        let mut items: Vec<ConflictMemoryResponse> = Vec::new();
        let mut i: usize = 0;
        while i < conflicts.len()
            invariant
                i <= conflicts@.len(),
                items@.len() == i,
                forall|j: int|
                    0 <= j < i ==> {
                        &&& (#[trigger] items@[j]).id@ == conflicts@[j]@.id
                        &&& items@[j].content@ == conflicts@[j]@.content
                        &&& items@[j].similarity == conflicts@[j]@.similarity
                    },
            decreases conflicts.len() - i,
        {
            let c = &conflicts[i];
            items.push(
                ConflictMemoryResponse {
                    id: c.id.clone(),
                    content: c.content.clone(),
                    similarity: c.similarity,
                },
            );
            i += 1;
        }
        ConflictsResponse {
            status: String::from_str("conflicts"),
            proposed: String::from_str(proposed),
            conflicts: items,
        }
    }
}

} // verus!
