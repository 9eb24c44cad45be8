//! The answers collected by the interactive shell's questions.
pub mod prompt;
