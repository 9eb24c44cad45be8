//! Subcommands given on the command line.
pub mod group;
