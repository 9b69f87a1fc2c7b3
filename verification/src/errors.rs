//! The typed errors of the file and share domain. Authentication has its own
//! error type in the auth module.

use vstd::prelude::*;

verus! {

/// Errors of the file, folder and share operations. Every failure of the core
/// is one of these local, typed results; the surrounding program maps them to
/// transport-level responses.
#[derive(Clone, Copy, Debug, PartialEq, Eq, Structural)]
pub enum FileError {
    /// A wrapped filesystem failure, reported by the filesystem driver.
    IoError,
    /// An invalid path, a traversal attempt, or a path that names nothing.
    PathError,
    /// A failure while receiving an uploaded body.
    UploadError,
    /// A malformed request body, or a password mismatch on share access.
    ContentError,
    /// A storage failure.
    DatabaseError,
    /// Resource exhaustion, such as running out of share-token retries.
    ServerError,
}

impl FileError {
    /// A short description, for the structured error body of a response.
    pub fn message(&self) -> (r: &'static str)
        ensures
            r@ == self.spec_message(),
    {
        match self {
            FileError::IoError => "Io Error",
            FileError::PathError => "Path Error",
            FileError::UploadError => "Upload Error",
            FileError::ContentError => "Content error",
            FileError::DatabaseError => "Database error",
            FileError::ServerError => "Server error",
        }
    }

    /// The description `message` returns.
    pub open spec fn spec_message(&self) -> Seq<char> {
        match self {
            FileError::IoError => "Io Error"@,
            FileError::PathError => "Path Error"@,
            FileError::UploadError => "Upload Error"@,
            FileError::ContentError => "Content error"@,
            FileError::DatabaseError => "Database error"@,
            FileError::ServerError => "Server error"@,
        }
    }
}

} // verus!
