//! Menus and questions of the interactive mode.
pub mod credentials;
pub mod group;
pub mod server;
