//! The command-line front end: menu entries, their labels, and the answers
//! collected from the user.
pub mod input;
pub mod menu;
pub mod parser;
pub mod prompt;
