//! Failures of the adapter's operations.

use vstd::prelude::*;
use vstd::string::StringExecFns;

verus! {

/// What went wrong. Every failure of this crate falls under exactly one kind.
#[derive(Clone, Copy, Debug, PartialEq, Eq, Structural)]
pub enum ErrorKind {
    /// A document identifier does not denote a path on the file system.
    NotAFilePath,
    /// An absolute path does not lie under the root directory.
    NotUnderRoot,
    /// The daemon's output is not valid UTF-8 text.
    Encoding,
    /// The configured daemon command is empty.
    NoCommand,
    /// The daemon process could not be launched.
    Spawn,
    /// The diagnostic line pattern was rejected by the pattern engine.
    Pattern,
    /// The daemon's answer to an inspect request is not a JSON document.
    Payload,
    /// A failure described by its message alone.
    Other,
}

/// A failure: its kind and a message for the log.
#[derive(Debug)]
pub struct Error {
    pub kind: ErrorKind,
    pub message: String,
}

/// Text that `Context::context` puts between the context and the earlier message.
pub open spec fn context_separator() -> Seq<char> {
    ": "@
}

/// Text that the conversion from plain text puts before the message.
pub open spec fn plain_prefix() -> Seq<char> {
    "error: "@
}

impl Error {
    /// A failure of kind `Other` with the given message.
    pub fn new(message: String) -> (error: Error)
        ensures
            error.kind == ErrorKind::Other,
            error.message@ == message@,
    {
        Error { kind: ErrorKind::Other, message }
    }

    /// A failure of the given kind with the given message.
    pub fn with_kind(kind: ErrorKind, message: &str) -> (error: Error)
        ensures
            error.kind == kind,
            error.message@ == message@,
    {
        Error { kind, message: message.to_owned() }
    }

    /// The failure raised when no daemon command is configured.
    pub fn no_command() -> (error: Error)
        ensures
            error.kind == ErrorKind::NoCommand,
            error.message@ == "No dmypy command found"@,
    {
        Error::with_kind(ErrorKind::NoCommand, "No dmypy command found")
    }

    /// The kind of this failure.
    pub fn kind(&self) -> (kind: ErrorKind)
        ensures
            kind == self.kind,
    {
        self.kind
    }

    /// The message of this failure.
    pub fn message(&self) -> (message: &str)
        ensures
            message@ == self.message@,
    {
        self.message.as_str()
    }

    /// The same failure with `context` and a separator put before its message.
    pub fn in_context(self, context: &str) -> (error: Error)
        ensures
            error.kind == self.kind,
            error.message@ == context@ + context_separator() + self.message@,
    {
        let message = context.to_owned().concat(": ").concat(self.message.as_str());
        Error { kind: self.kind, message }
    }
}

/// The specification of `from` is its `ensures`: the message is put together
/// at run time, so no spec-level term stands for the resulting value.
impl vstd::std_specs::convert::FromSpecImpl<String> for Error {
    open spec fn obeys_from_spec() -> bool {
        false
    }

    open spec fn from_spec(message: String) -> Error {
        Error { kind: ErrorKind::Other, message }
    }
}

impl From<String> for Error {
    /// A failure of kind `Other` whose message is `message` behind `"error: "`.
    fn from(message: String) -> (error: Error)
        ensures
            error.kind == ErrorKind::Other,
            error.message@ == plain_prefix() + message@,
    {
        let message = String::from_str("error: ").concat(message.as_str());
        Error { kind: ErrorKind::Other, message }
    }
}

/// As for `String`: the specification of `from` is its `ensures`.
impl<'a> vstd::std_specs::convert::FromSpecImpl<&'a str> for Error {
    open spec fn obeys_from_spec() -> bool {
        false
    }

    open spec fn from_spec(message: &'a str) -> Error {
        arbitrary()
    }
}

impl<'a> From<&'a str> for Error {
    /// A failure of kind `Other` whose message is `message` behind `"error: "`.
    fn from(message: &'a str) -> (error: Error)
        ensures
            error.kind == ErrorKind::Other,
            error.message@ == plain_prefix() + message@,
    {
        Error { kind: ErrorKind::Other, message: String::from_str("error: ").concat(message) }
    }
}

/// Attaches a description of the attempted operation to a failure.
pub trait Context<T>: Sized {
    /// The value this result carries, if it is a success.
    spec fn success(&self) -> Option<T>;

    /// The failure this result carries, if it is one.
    spec fn failure(&self) -> Option<Error>;

    /// Keeps a success as it is; puts `context` and `": "` before the message
    /// of a failure, whose kind stays.
    fn context(self, context: &str) -> (result: Result<T, Error>)
        ensures
            self.success() is Some ==> result == Ok::<T, Error>(self.success().unwrap()),
            self.success() is None ==> {
                &&& self.failure() is Some
                &&& result is Err
                &&& result->Err_0.kind == self.failure().unwrap().kind
                &&& result->Err_0.message@ == context@ + context_separator()
                    + self.failure().unwrap().message@
            },
    ;

    /// The value of a success; a failure is dropped, and the caller that wants
    /// it reported calls `context` and reports the error itself.
    fn ok_or_log(self, context: &str) -> (value: Option<T>)
        ensures
            value == self.success(),
    {
        match self.context(context) {
            Ok(value) => Some(value),
            Err(_) => None,
        }
    }
}

impl<T> Context<T> for Result<T, Error> {
    open spec fn success(&self) -> Option<T> {
        match *self {
            Ok(value) => Some(value),
            Err(_) => None,
        }
    }

    open spec fn failure(&self) -> Option<Error> {
        match *self {
            Ok(_) => None,
            Err(error) => Some(error),
        }
    }

    fn context(self, context: &str) -> (result: Result<T, Error>) {
        match self {
            Ok(value) => Ok(value),
            Err(error) => {
                assert(self.failure() == Some(error));
                Err(error.in_context(context))
            },
        }
    }
}

} // verus!
