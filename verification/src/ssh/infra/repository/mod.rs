//! The SQLite repository: naming the database, the outcome of creating it,
//! and the decoding of the rows that its queries return.
pub mod credentials;
pub mod group;
pub mod server;

use vstd::prelude::*;
use crate::error::Error;
use crate::path::{path_text, FsPath};
use vstd::utf8::valid_utf8;

verus! {

/// Whether opening the store found its database or had to create it.
pub enum DBCreateResutl {
    Existed,
    Created,
}

/// The connection text for a database file: `sqlite://` then the path.
pub open spec fn db_url(p: Seq<u8>) -> Seq<char> {
    "sqlite://"@ + path_text(p)
}

/// The connection text for a database file; an internal error when the path
/// is not valid UTF-8.
pub fn get_db_name(db_path: &FsPath) -> (res: Result<String, Error>)
    ensures
        match res {
            Ok(s) => valid_utf8(db_path@) && s@ == db_url(db_path@),
            Err(e) => !valid_utf8(db_path@) && (e matches Error::Internal(m) && m@ == "error trying to get name"@),
        },
{
    match db_path.to_text() {
        Some(p) => Ok(String::from_str("sqlite://").concat(p.as_str())),
        None => Err(Error::Internal(String::from_str("error trying to get name"))),
    }
}

/// Whether the database must be created, given what checking for it found
/// (`None` when the check itself failed, which counts as absent).
pub fn needs_creation(exists: Option<bool>) -> (res: bool)
    ensures
        res == !(exists == Some(true)),
{
    match exists {
        Some(true) => false,
        _ => true,
    }
}

/// The outcome of opening the store: `None` when no creation was attempted,
/// otherwise the creation's result (with the database's message on failure).
pub fn creation_result(attempt: Option<Result<(), String>>) -> (res: Result<DBCreateResutl, Error>)
    ensures
        match attempt {
            None => res matches Ok(DBCreateResutl::Existed),
            Some(Ok(())) => res matches Ok(DBCreateResutl::Created),
            Some(Err(m)) => res matches Err(Error::DB(d)) && d@ == m@,
        },
{
    match attempt {
        None => Ok(DBCreateResutl::Existed),
        Some(Ok(())) => Ok(DBCreateResutl::Created),
        Some(Err(m)) => Err(Error::DB(m)),
    }
}

} // verus!
