//! Indexing and in-memory path search for a media-aware file manager.

pub mod api;
pub mod config;
pub mod filesystem;
pub mod indexer;
pub mod metadata;
pub mod query;
pub mod search_index;
pub mod text;
