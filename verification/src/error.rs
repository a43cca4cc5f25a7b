//! The session's error type: guess-validation and command failures are
//! recoverable; an input/output failure is fatal.

use vstd::prelude::*;
use vstd::string::StringExecFns;

verus! {

/// The kind of a session error.
#[derive(PartialEq, Eq, Debug)]
pub enum ErrorKind {
    /// The guess has fewer characters than the secret word's five.
    GuessTooShort,
    /// The guess has more characters than the secret word's five.
    GuessTooLong,
    /// An unrecognized `/`-prefixed command.
    InvalidCommand,
    /// A terminal read or write failed; the payload carries the
    /// rendered failure text from the shell.
    IoError(String),
}

/// A session error, wrapping its kind.
#[derive(PartialEq, Eq, Debug)]
pub struct Error {
    pub kind: ErrorKind,
}

impl Error {
    /// Wrap a kind into an error.
    pub fn from(kind: ErrorKind) -> (r: Error)
        ensures
            r.kind == kind,
    {
        Error { kind }
    }

    /// Whether the session loop may continue after reporting this
    /// error: true for every kind except an input/output failure.
    pub fn retryable(self) -> (r: bool)
        ensures
            r == !(self.kind is IoError),
    {
        match self.kind {
            ErrorKind::GuessTooShort => true,
            ErrorKind::GuessTooLong => true,
            ErrorKind::InvalidCommand => true,
            ErrorKind::IoError(_) => false,
        }
    }

    /// The one-line human-readable report for this error.
    pub fn message(&self) -> (r: String)
        ensures
            self.kind is GuessTooShort ==> r@ == "guess too short, guesses must be 5 letters."@,
            self.kind is GuessTooLong ==> r@ == "guess too long, guesses must be 5 letters."@,
            self.kind is InvalidCommand ==> r@
                == "unknown command. use /help to list all available commands"@,
            self.kind matches ErrorKind::IoError(m) ==> r@ == "io error: "@ + m@,
    {
        match &self.kind {
            ErrorKind::GuessTooShort => {
                String::from_str("guess too short, guesses must be 5 letters.")
            },
            ErrorKind::GuessTooLong => {
                String::from_str("guess too long, guesses must be 5 letters.")
            },
            ErrorKind::InvalidCommand => {
                String::from_str("unknown command. use /help to list all available commands")
            },
            ErrorKind::IoError(m) => String::from_str("io error: ").concat(m.as_str()),
        }
    }
}

} // verus!
