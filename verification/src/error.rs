use vstd::prelude::*;

verus! {

/// `std::io::Error`, the error that a system gives where it fails. Nothing is
/// known of what such a value holds: it is only carried from the call that
/// failed to the handler of non-fatal errors.
#[verifier::external_type_specification]
#[verifier::external_body]
pub struct ExIoError(std::io::Error);

/// What a query gives: what was asked for, or the error that ended it.
pub type Result<T> = std::result::Result<T, Error>;

/// What ends a query.
#[derive(Copy, Clone, Eq, PartialEq, Debug, Structural)]
pub enum Error {
    BadAbsolutePath,
    BadRelativePath,
    CannotFindBinaryPath,
    CannotGetCurrentDir,
    CannotGetCurrentDirAndPathListEmpty,
    CannotCanonicalize,
}

impl Error {
    /// The text that describes the error.
    pub fn message(&self) -> (text: &'static str)
        ensures
            text@ == self.message_spec(),
    {
        match self {
            Error::BadAbsolutePath => "bad absolute path",
            Error::BadRelativePath => "bad relative path",
            Error::CannotFindBinaryPath => "cannot find binary path",
            Error::CannotGetCurrentDir => "cannot get current directory",
            Error::CannotGetCurrentDirAndPathListEmpty => "no path to search and provided name had no directory separator",
            Error::CannotCanonicalize => "cannot canonicalize path",
        }
    }

    pub open spec fn message_spec(&self) -> Seq<char> {
        match self {
            Error::BadAbsolutePath => "bad absolute path"@,
            Error::BadRelativePath => "bad relative path"@,
            Error::CannotFindBinaryPath => "cannot find binary path"@,
            Error::CannotGetCurrentDir => "cannot get current directory"@,
            Error::CannotGetCurrentDirAndPathListEmpty => "no path to search and provided name had no directory separator"@,
            Error::CannotCanonicalize => "cannot canonicalize path"@,
        }
    }
}

/// A failure that removes one candidate, or one directory, from a search
/// without ending it.
#[derive(Debug)]
#[non_exhaustive]
pub enum NonFatalError {
    Io(std::io::Error),
}

/// The text that the `Display` of `std::io::Error` writes for an error, had
/// through `format!`. Nothing is claimed of that text.
#[verifier::external_body]
fn io_error_text(e: &std::io::Error) -> String {
    format!("{}", e)
}

impl NonFatalError {
    /// The text that describes the error: that of the system's own error.
    pub fn message(&self) -> String {
        match self {
            NonFatalError::Io(e) => io_error_text(e),
        }
    }
}

} // verus!
