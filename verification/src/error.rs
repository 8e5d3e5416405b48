//! The errors of this crate.

use vstd::prelude::*;
use vstd::string::StringExecFns;
use vstd::std_specs::convert::FromSpecImpl;

verus! {

/// The specific kind of error that can occur.
#[derive(Clone, Debug)]
pub enum ErrorKind {
    /// An error that occurred while loading a data source from texture asset.
    LoadTexture(String),
    /// An error that occurred while saving texture to specific image format.
    SaveTexture(String),
    /// An error that occurred while working with a file path.
    Path(String),
    /// Generally, these errors correspond to bugs in this library or to a
    /// caller that broke the contract of an operation.
    Bug(String),
    /// An unexpected I/O error occurred.
    Io,
}

/// The error type throughout this crate.
#[derive(Clone, Debug)]
pub struct Error {
    kind: ErrorKind,
}

/// The text of an error kind.
pub open spec fn spec_message(kind: ErrorKind) -> Seq<char> {
    match kind {
        ErrorKind::LoadTexture(msg) => "Load texture error: "@ + msg@,
        ErrorKind::SaveTexture(msg) => "Save texture error: "@ + msg@,
        ErrorKind::Path(path) => path@,
        ErrorKind::Bug(msg) => "Bug: "@ + msg@ + "\n"@
            + "Please report this bug with a backtrace for this repository"@,
        ErrorKind::Io => "I/O error"@,
    }
}

impl ErrorKind {
    /// A convenience routine for creating an error associated with a path.
    pub fn path(path: &str) -> (kind: ErrorKind)
        ensures
            kind matches ErrorKind::Path(p) && p@ == path@,
    {
        ErrorKind::Path(String::from_str(path))
    }

    /// The text that describes the error.
    pub fn message(&self) -> (text: String)
        ensures
            text@ == spec_message(*self),
    {
        match self {
            ErrorKind::LoadTexture(msg) => {
                String::from_str("Load texture error: ").concat(msg.as_str())
            },
            ErrorKind::SaveTexture(msg) => {
                String::from_str("Save texture error: ").concat(msg.as_str())
            },
            ErrorKind::Path(path) => path.clone(),
            ErrorKind::Bug(msg) => {
                let report = "Please report this bug with a backtrace for this repository";
                String::from_str("Bug: ").concat(msg.as_str()).concat("\n").concat(report)
            },
            ErrorKind::Io => String::from_str("I/O error"),
        }
    }
}

impl Error {
    /// The kind that the error was made from.
    pub closed spec fn spec_kind(self) -> ErrorKind {
        self.kind
    }

    /// Return the kind of this error.
    pub fn kind(&self) -> (kind: &ErrorKind)
        ensures
            *kind == self.spec_kind(),
    {
        &self.kind
    }

    pub fn load_texture(msg: &str) -> (e: Error)
        ensures
            e.spec_kind() matches ErrorKind::LoadTexture(m) && m@ == msg@,
    {
        Error { kind: ErrorKind::LoadTexture(String::from_str(msg)) }
    }

    pub fn save_texture(msg: &str) -> (e: Error)
        ensures
            e.spec_kind() matches ErrorKind::SaveTexture(m) && m@ == msg@,
    {
        Error { kind: ErrorKind::SaveTexture(String::from_str(msg)) }
    }

    pub fn bug(msg: &str) -> (e: Error)
        ensures
            e.spec_kind() matches ErrorKind::Bug(m) && m@ == msg@,
    {
        Error { kind: ErrorKind::Bug(String::from_str(msg)) }
    }

    /// Whether the error reports a broken contract.
    pub open spec fn spec_is_bug(self) -> bool {
        self.spec_kind() is Bug
    }

    /// The text that describes the error.
    pub fn message(&self) -> (text: String)
        ensures
            text@ == spec_message(self.spec_kind()),
    {
        self.kind.message()
    }
}

impl From<ErrorKind> for Error {
    fn from(kind: ErrorKind) -> (e: Error)
        ensures
            e.spec_kind() == kind,
    {
        Error { kind }
    }
}

impl FromSpecImpl<ErrorKind> for Error {
    open spec fn obeys_from_spec() -> bool {
        true
    }

    closed spec fn from_spec(kind: ErrorKind) -> Error {
        Error { kind }
    }
}

} // verus!
