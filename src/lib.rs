//! Ingests chat messages into a full-text search engine: message documents,
//! the room-to-index mapping, room lifecycle and search queries.
pub mod config;
pub mod document;
pub mod ids;
pub mod lifecycle;
pub mod query;
pub mod text;
pub mod store;
