//! Verified core of an SSH connections manager: the rules by which groups,
//! servers and credentials are named, stored, decoded and presented.
pub mod ids;
pub mod text;
pub mod error;
pub mod path;
pub mod ssh;
pub mod config;
pub mod cli;
pub mod interactive;
