//! Questions about credentials and servers.
pub mod credentials;
pub mod server;
