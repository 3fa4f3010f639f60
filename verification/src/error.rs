//! The error type shared by the whole library, and its numeric codes.

use vstd::prelude::*;

verus! {

/// A failure of no more particular kind.
pub const GENERAL_ERROR: i32 = 1;

/// A file could not be read, written, copied or deleted.
pub const FILESYSTEM_ERROR: i32 = 2;

/// The container runtime failed.
pub const DOCKER_ERROR: i32 = 3;

/// A configuration does not match its schema.
pub const CFG_SPEC_VIOLATION: i32 = 4;

/// A configuration breaks one of its rules.
pub const CFG_RULES_VIOLATION: i32 = 5;

/// What was asked for is not there: an application is not installed.
pub const NOT_FOUND: i32 = 6;

/// The password of a backup is wrong.
pub const INVALID_BACKUP_PASSWORD: i32 = 7;

/// A package needs another version of the application manager.
pub const VERSION_INCOMPATIBLE: i32 = 8;

/// The network failed.
pub const NETWORK_ERROR: i32 = 9;

/// The registry of applications failed.
pub const REGISTRY_ERROR: i32 = 10;

/// A value could not be written or read in its serial form.
pub const SERDE_ERROR: i32 = 11;

/// The command line names no command.
pub const UNRECOGNIZED_COMMAND: i32 = 12;

/// The HTTP status that answers an error of the given code.
pub open spec fn spec_code_to_status(code: int) -> int {
    if code == CFG_SPEC_VIOLATION || code == CFG_RULES_VIOLATION || code
        == INVALID_BACKUP_PASSWORD {
        403
    } else if code == NOT_FOUND {
        404
    } else if code == VERSION_INCOMPATIBLE {
        409
    } else {
        500
    }
}

/// The HTTP status that answers an error of the given code: violations of a
/// schema or a rule and a wrong backup password are forbidden (403), a missing
/// application is not found (404), an incompatible version is a conflict (409),
/// and everything else is an internal error (500).
pub fn code_to_status(code: i32) -> (status: u16)
    ensures
        status == spec_code_to_status(code as int),
{
    if code == CFG_SPEC_VIOLATION || code == CFG_RULES_VIOLATION || code
        == INVALID_BACKUP_PASSWORD {
        403
    } else if code == NOT_FOUND {
        404
    } else if code == VERSION_INCOMPATIBLE {
        409
    } else {
        500
    }
}

/// A failure with a message for people and a code for programs.
#[derive(Debug, PartialEq, Eq)]
pub struct Error {
    pub message: String,
    pub code: i32,
}

/// Mathematical model of an [`Error`].
pub struct ErrorView {
    pub message: Seq<char>,
    pub code: int,
}

impl View for Error {
    type V = ErrorView;

    open spec fn view(&self) -> ErrorView {
        ErrorView { message: self.message@, code: self.code as int }
    }
}

impl Clone for Error {
    fn clone(&self) -> (res: Error)
        ensures
            res@ == self@,
    {
        Error { message: self.message.clone(), code: self.code }
    }
}

impl Error {
    /// An error with the given message and code.
    pub fn new(message: String, code: i32) -> (res: Error)
        ensures
            res.message == message,
            res.code == code,
    {
        Error { message, code }
    }

    /// The HTTP status that answers this error.
    pub fn status(&self) -> (status: u16)
        ensures
            status == spec_code_to_status(self.code as int),
    {
        code_to_status(self.code)
    }
}

/// The message of an error that arrived in serialised form.
#[derive(Debug, PartialEq, Eq)]
pub struct DeserializedError(pub String);

impl DeserializedError {
    /// The error of code `code` that carries this message.
    pub fn into_error(self, code: i32) -> (res: Error)
        ensures
            res.message == self.0,
            res.code == code,
    {
        Error { message: self.0, code }
    }
}

/// Turns the failure of a `Result` into an [`Error`] with a code.
pub trait ResultExt<T>: Sized {
    /// The message that the failure carries, if this is a failure.
    spec fn failure(&self) -> Option<Seq<char>>;

    /// Keeps a success; a failure becomes an [`Error`] with the same message
    /// and the code `code`.
    fn with_code(self, code: i32) -> (res: Result<T, Error>)
        requires
            code != 0,
        ensures
            res.is_ok() == self.failure().is_none(),
            res matches Err(e) ==> Some(e.message@) == self.failure() && e.code == code,
    ;

    /// Keeps a success; a failure becomes an [`Error`] whose message is
    /// `context` and whose code is `code`.
    fn with_ctx(self, code: i32, context: &str) -> (res: Result<T, Error>)
        ensures
            res.is_ok() == self.failure().is_none(),
            res matches Err(e) ==> e.message@ == context@ && e.code == code,
    ;

    /// Keeps a success; a failure becomes an [`Error`] with the same message
    /// and the general code.
    fn no_code(self) -> (res: Result<T, Error>)
        ensures
            res.is_ok() == self.failure().is_none(),
            res matches Err(e) ==> Some(e.message@) == self.failure() && e.code == GENERAL_ERROR,
    ;
}

impl<T> ResultExt<T> for Result<T, String> {
    open spec fn failure(&self) -> Option<Seq<char>> {
        match self {
            Ok(_) => None,
            Err(m) => Some(m@),
        }
    }

    fn with_code(self, code: i32) -> (res: Result<T, Error>)
        ensures
            self matches Ok(v) ==> res == Ok::<T, Error>(v),
    {
        match self {
            Ok(v) => Ok(v),
            Err(message) => Err(Error { message, code }),
        }
    }

    fn with_ctx(self, code: i32, context: &str) -> (res: Result<T, Error>)
        ensures
            self matches Ok(v) ==> res == Ok::<T, Error>(v),
    {
        match self {
            Ok(v) => Ok(v),
            Err(_) => Err(Error { message: context.to_owned(), code }),
        }
    }

    fn no_code(self) -> (res: Result<T, Error>)
        ensures
            self matches Ok(v) ==> res == Ok::<T, Error>(v),
    {
        match self {
            Ok(v) => Ok(v),
            Err(message) => Err(Error { message, code: GENERAL_ERROR }),
        }
    }
}

} // verus!
