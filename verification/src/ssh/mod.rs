//! Groups, servers and credentials: the stored records, how they are decoded
//! from database rows, and the decisions taken around the SSH tools.
pub mod domain;
pub mod dtos;
pub mod app;
pub mod infra;
