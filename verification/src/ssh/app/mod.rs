//! The application's decisions: what to store when a group, server or
//! credentials are created, and how the SSH tools are invoked and answered.
pub mod credentials;
pub mod group;
pub mod server;
