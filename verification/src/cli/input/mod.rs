//! Plain-text questions.
pub mod group;
