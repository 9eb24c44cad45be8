//! Storage in an SQLite database.
pub mod repository;
