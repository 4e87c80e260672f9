//! What can go wrong, and what the user is told about it.

use crate::id::{format_uuid, uuid_text};
use vstd::prelude::*;
use vstd::string::StringExecFns;

verus! {

/// The ways in which an operation of this crate fails.
#[derive(Debug, PartialEq, Eq)]
pub enum Error {
    /// No ancestor of the working directory holds a `.git` entry.
    NotInRepository,
    /// A configuration file or a ticket directory that should exist does not.
    NotInitialized,
    /// No ticket carries this identifier.
    NoSuchTicket(u128),
    /// The file at this path does not hold a ticket of the current schema;
    /// the second text is the decoder's reason.
    CorruptTicket(String, String),
    /// A ticket needs a title.
    EmptyTitle,
    /// The file system refused what was asked of the path; the second text
    /// is its reason.
    IOError(String, String),
    /// The editor could not be started or waited for.
    EditorFailure(String),
    /// The clock is before 1970, or so far after it that no version-1
    /// identifier can hold the time.
    ClockOutOfRange(i64),
}

/// An [`Error`] with its texts as sequences of characters.
pub ghost enum ErrorView {
    NotInRepository,
    NotInitialized,
    NoSuchTicket(u128),
    CorruptTicket(Seq<char>, Seq<char>),
    EmptyTitle,
    IOError(Seq<char>, Seq<char>),
    EditorFailure(Seq<char>),
    ClockOutOfRange(i64),
}

impl View for Error {
    type V = ErrorView;

    open spec fn view(&self) -> ErrorView {
        match *self {
            Error::NotInRepository => ErrorView::NotInRepository,
            Error::NotInitialized => ErrorView::NotInitialized,
            Error::NoSuchTicket(id) => ErrorView::NoSuchTicket(id),
            Error::CorruptTicket(path, reason) => ErrorView::CorruptTicket(path@, reason@),
            Error::EmptyTitle => ErrorView::EmptyTitle,
            Error::IOError(path, cause) => ErrorView::IOError(path@, cause@),
            Error::EditorFailure(cause) => ErrorView::EditorFailure(cause@),
            Error::ClockOutOfRange(seconds) => ErrorView::ClockOutOfRange(seconds),
        }
    }
}

impl ErrorView {
    /// The line printed on the diagnostic stream for this error.
    pub open spec fn message(self) -> Seq<char> {
        match self {
            ErrorView::NotInRepository => "Unable to find a valid git repo"@,
            ErrorView::NotInitialized => "Not initialized. Did you run 'ds init'?"@,
            ErrorView::NoSuchTicket(id) => "No ticket with id "@ + uuid_text(id) + " exists."@,
            ErrorView::CorruptTicket(path, reason) => "Failed to parse ticket "@ + path
                + ". Is the file an old ticket format? You might need to run `ticket migrate`. Underlying error was "@
                + reason,
            ErrorView::EmptyTitle => "Title may not be empty"@,
            ErrorView::IOError(path, cause) => path + ": "@ + cause,
            ErrorView::EditorFailure(cause) => "Editor failed: "@ + cause,
            ErrorView::ClockOutOfRange(_) => "The system clock is out of range"@,
        }
    }
}

/// What is said of an identifier, written as `id`, that no ticket has.
pub fn no_such_ticket(id: &str) -> (text: String)
    ensures
        text@ == "No ticket with id "@ + id@ + " exists."@,
{
    String::from_str("No ticket with id ").concat(id).concat(" exists.")
}

impl Error {
    /// The line printed on the diagnostic stream for this error.
    pub fn message(&self) -> (text: String)
        ensures
            text@ == self@.message(),
    {
        match self {
            Error::NotInRepository => String::from_str("Unable to find a valid git repo"),
            Error::NotInitialized => String::from_str("Not initialized. Did you run 'ds init'?"),
            Error::NoSuchTicket(id) => no_such_ticket(format_uuid(*id).as_str()),
            Error::CorruptTicket(path, reason) => {
                String::from_str("Failed to parse ticket ").concat(path.as_str()).concat(
                    ". Is the file an old ticket format? You might need to run `ticket migrate`. Underlying error was ",
                ).concat(reason.as_str())
            },
            Error::EmptyTitle => String::from_str("Title may not be empty"),
            Error::IOError(path, cause) => {
                String::from_str(path.as_str()).concat(": ").concat(cause.as_str())
            },
            Error::EditorFailure(cause) => String::from_str("Editor failed: ").concat(
                cause.as_str(),
            ),
            Error::ClockOutOfRange(_) => String::from_str("The system clock is out of range"),
        }
    }
}

/// Whether something went well, or what went wrong, as contracts see it.
pub open spec fn outcome_view(r: Result<(), Error>) -> Result<(), ErrorView> {
    match r {
        Ok(_) => Ok(()),
        Err(e) => Err(e@),
    }
}

/// The process exit code for the outcome of a command: 0 when it succeeded,
/// 1 for every error.
pub open spec fn exit_code_of<T>(outcome: Result<T, Error>) -> int {
    if outcome is Ok { 0 } else { 1 }
}

/// The process exit code for the outcome of a command.
pub fn exit_code<T>(outcome: &Result<T, Error>) -> (code: i32)
    ensures
        code == exit_code_of(*outcome),
{
    match outcome {
        Ok(_) => 0,
        Err(_) => 1,
    }
}

} // verus!
