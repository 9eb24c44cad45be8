//! The answers that describe new credentials.
use vstd::prelude::*;

verus! {

/// New credentials as the user describes them; a key is absent when its file
/// was not given or could not be read.
pub struct CredentialsPrompt {
    pub name: String,
    pub user: String,
    pub private_key: Option<String>,
    pub public_key: Option<String>,
}

} // verus!
