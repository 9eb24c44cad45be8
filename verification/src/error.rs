//! The library's error kinds.
use vstd::prelude::*;

verus! {

/// What went wrong, with a human-readable detail.
#[derive(Debug)]
pub enum Error {
    /// Reading the user's answer failed.
    InputCli(String),
    /// The database refused an operation.
    DB(String),
    /// An internal step failed.
    Internal(String),
    /// A file-system operation failed.
    FsError(String),
    /// Stored data does not hang together (for example, a missing group).
    Integrity(String),
    /// An external program exited with failure.
    Command { bin: String, message: String },
}

/// The text that describes an error: a bracketed kind, then the detail.
pub open spec fn error_text(e: Error) -> Seq<char> {
    match e {
        Error::InputCli(m) => "[input-cli] "@ + m@,
        Error::DB(m) => "[database] "@ + m@,
        Error::Internal(m) => "[internal] "@ + m@,
        Error::FsError(m) => "[file-system] "@ + m@,
        Error::Integrity(m) => "[integrity] "@ + m@,
        Error::Command { bin, message } => "[command error] "@ + bin@ + ": "@ + message@,
    }
}

impl Error {
    /// The text that describes this error.
    pub fn describe(&self) -> (res: String)
        ensures
            res@ == error_text(*self),
    {
        match self {
            Error::InputCli(m) => String::from_str("[input-cli] ").concat(m.as_str()),
            Error::DB(m) => String::from_str("[database] ").concat(m.as_str()),
            Error::Internal(m) => String::from_str("[internal] ").concat(m.as_str()),
            Error::FsError(m) => String::from_str("[file-system] ").concat(m.as_str()),
            Error::Integrity(m) => String::from_str("[integrity] ").concat(m.as_str()),
            Error::Command { bin, message } => {
                String::from_str("[command error] ").concat(bin.as_str()).concat(": ").concat(
                    message.as_str(),
                )
            },
        }
    }
}

} // verus!
