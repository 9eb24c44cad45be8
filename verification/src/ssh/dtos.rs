//! What the application hands the repository to create or change records.
use vstd::prelude::*;

verus! {

/// A credentials record to store, linked to a server.
pub struct CreateCredentialsDto {
    pub id: u128,
    pub name: String,
    pub server_id: u128,
    pub user: String,
    pub public: String,
    pub private: String,
}

/// A server record to store.
pub struct CreateServerDto {
    pub id: u128,
    pub group_id: u128,
    pub name: String,
    pub host: String,
    pub port: u32,
}

/// New values for a stored server.
pub struct UpdateServerDto {
    pub group_id: u128,
    pub name: String,
    pub host: String,
    pub port: u32,
}

/// A group record to store.
pub struct CreateGroupDto {
    pub id: u128,
    pub parent_id: Option<u128>,
    pub name: String,
}

/// New values for a stored group.
pub struct UpdateGroupDto {
    pub parent_id: u128,
    pub name: String,
}

} // verus!
