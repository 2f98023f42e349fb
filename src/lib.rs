//! Extraction of ARL tokens from a markdown document, their cache and their lookup.
pub mod date;
pub mod node;
pub mod record;
pub mod extract;
pub mod directory;
pub mod cache;
pub mod config;
