//! The shape of an embedding.

use vstd::prelude::*;

verus! {

/// Number of components of an embedding.
pub const EMBEDDING_DIMS: usize = 384;

} // verus!
