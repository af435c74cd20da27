//! The two kinds of failure that the store reports.

use vstd::prelude::*;

verus! {

/// `std::io::Error`, carried through unread: the store never looks inside one.
#[verifier::external_type_specification]
#[verifier::external_body]
pub struct ExIoError(std::io::Error);

/// The coarse class of a failure. It can always be had from an [`Error`],
/// whatever the detailed cause.
#[derive(Debug, Clone, Copy, PartialEq, Eq, Structural)]
pub enum ErrorType {
    /// The file system refused a read, a write or a rename.
    Io,
    /// A value or a snapshot could not be encoded or decoded.
    Serialization,
}

/// The detailed cause of a failure.
#[derive(Debug)]
pub enum ErrorCode {
    /// The operating system's error, as it was returned.
    Io(std::io::Error),
    /// The codec's diagnostic message.
    Serialization(String),
}

/// A failure of a store operation.
#[derive(Debug)]
pub struct Error {
    err_code: ErrorCode,
}

/// A store result: a value, or an [`Error`].
pub type Result<T> = std::result::Result<T, Error>;

/// `std::io::Error`'s `to_string`: the text depends on the platform, so
/// nothing is claimed of it.
#[verifier::external_body]
fn io_error_text(err: &std::io::Error) -> String {
    err.to_string()
}

impl Error {
    /// The cause this error was built from.
    pub closed spec fn code(&self) -> ErrorCode {
        self.err_code
    }

    /// The class of this error.
    pub open spec fn kind(&self) -> ErrorType {
        match self.code() {
            ErrorCode::Io(_) => ErrorType::Io,
            ErrorCode::Serialization(_) => ErrorType::Serialization,
        }
    }

    /// The diagnostic message of a serialization failure; empty for an I/O
    /// failure, whose text belongs to the operating system.
    pub open spec fn detail(&self) -> Seq<char> {
        match self.code() {
            ErrorCode::Io(_) => Seq::empty(),
            ErrorCode::Serialization(msg) => msg@,
        }
    }

    /// Wraps a cause.
    pub fn new(err_code: ErrorCode) -> (e: Error)
        ensures
            e.code() == err_code,
    {
        Error { err_code }
    }

    /// A serialization failure with the given diagnostic message.
    pub fn serialization(msg: String) -> (e: Error)
        ensures
            e.code() == ErrorCode::Serialization(msg),
            e.kind() == ErrorType::Serialization,
            e.detail() == msg@,
    {
        Error { err_code: ErrorCode::Serialization(msg) }
    }

    /// An I/O failure that carries the operating system's error.
    pub fn io(err: std::io::Error) -> (e: Error)
        ensures
            e.code() == ErrorCode::Io(err),
            e.kind() == ErrorType::Io,
    {
        Error { err_code: ErrorCode::Io(err) }
    }

    /// Classifies the error as an I/O or a serialization failure.
    pub fn get_type(&self) -> (t: ErrorType)
        ensures
            t == self.kind(),
    {
        match self.err_code {
            ErrorCode::Io(_) => ErrorType::Io,
            ErrorCode::Serialization(_) => ErrorType::Serialization,
        }
    }

    /// The text of the error: the codec's message for a serialization
    /// failure, the operating system's description for an I/O failure.
    pub fn message(&self) -> (text: String)
        ensures
            self.kind() == ErrorType::Serialization ==> text@ == self.detail(),
    {
        match &self.err_code {
            ErrorCode::Io(err) => io_error_text(err),
            ErrorCode::Serialization(msg) => msg.clone(),
        }
    }

    /// Gives the cause back.
    pub fn into_code(self) -> (code: ErrorCode)
        ensures
            code == self.code(),
    {
        self.err_code
    }
}

} // verus!
