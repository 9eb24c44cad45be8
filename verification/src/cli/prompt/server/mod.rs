//! The server menu, and the answers that describe a new server.
pub mod options;
pub mod transform;

use vstd::prelude::*;

verus! {

/// A new server as the user describes it.
pub struct ServerPrompt {
    pub name: String,
    pub host: String,
    pub port: u32,
}

} // verus!
