//! The memory store's rules: what input is accepted, how an addition is
//! gated by conflicts, and how a search is planned and finished.
//!
//! Embedding a text and reading or writing records are the caller's part;
//! every decision between those steps is made here.

pub mod crud;
pub mod search;
pub mod store;
