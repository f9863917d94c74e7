//! What a command can fail with, and the one line of text that each failure
//! becomes where a command answers the user interface.

use crate::path::{quote, quoted};
use vstd::prelude::*;
use vstd::string::*;

verus! {

/// The step of an append at which it failed.
#[derive(Clone, Copy, Debug, PartialEq, Eq, Structural)]
pub enum ImportFailure {
    /// The file name has no key.
    KeyCodec,
    /// The document could not say whether the key is taken.
    Lookup,
    /// The engine refused to begin ingesting the file.
    Ingest,
    /// The engine aborted the ingestion before the entry was committed.
    Aborted,
    /// A reply arrived that the append was not waiting for.
    OutOfTurn,
}

/// The step of a removal at which it failed.
#[derive(Clone, Copy, Debug, PartialEq, Eq, Structural)]
pub enum RemovalFailure {
    /// The file name has no key.
    KeyCodec,
    /// The engine failed to delete the entries.
    Delete,
}

/// A failed command.
#[derive(Clone, Debug, PartialEq, Eq)]
pub enum Error {
    /// The session could not be set up; no command is usable.
    Initialization { cause: String },
    /// A command arrived before the session was published.
    StateNotReady,
    /// The path names no file.
    InvalidPath,
    /// The ticket text is malformed.
    InvalidTicket { cause: String },
    /// The document already holds a live entry of this name.
    DuplicateEntry { name: String },
    /// An append failed; `path` is the file it was asked to append.
    Import { failure: ImportFailure, path: String, cause: String },
    /// A receive failed as a whole.
    Export { cause: String },
    /// A removal failed; `path` is the file it was asked to remove.
    Removal { fault: RemovalFailure, path: String, cause: String },
    /// The engine could not make a ticket of the document.
    TicketCreation { cause: String },
}

/// An [`Error`] with its texts as sequences of characters.
pub enum ErrorView {
    Initialization { cause: Seq<char> },
    StateNotReady,
    InvalidPath,
    InvalidTicket { cause: Seq<char> },
    DuplicateEntry { name: Seq<char> },
    Import { failure: ImportFailure, path: Seq<char>, cause: Seq<char> },
    Export { cause: Seq<char> },
    Removal { fault: RemovalFailure, path: Seq<char>, cause: Seq<char> },
    TicketCreation { cause: Seq<char> },
}

impl View for Error {
    type V = ErrorView;

    open spec fn view(&self) -> ErrorView {
        match self {
            Error::Initialization { cause } => ErrorView::Initialization { cause: cause@ },
            Error::StateNotReady => ErrorView::StateNotReady,
            Error::InvalidPath => ErrorView::InvalidPath,
            Error::InvalidTicket { cause } => ErrorView::InvalidTicket { cause: cause@ },
            Error::DuplicateEntry { name } => ErrorView::DuplicateEntry { name: name@ },
            Error::Import { failure, path, cause } => ErrorView::Import {
                failure: *failure,
                path: path@,
                cause: cause@,
            },
            Error::Export { cause } => ErrorView::Export { cause: cause@ },
            Error::Removal { fault, path, cause } => ErrorView::Removal {
                fault: *fault,
                path: path@,
                cause: cause@,
            },
            Error::TicketCreation { cause } => ErrorView::TicketCreation { cause: cause@ },
        }
    }
}

/// The text of a failed append.
pub open spec fn import_message(failure: ImportFailure, path: Seq<char>, cause: Seq<char>) -> Seq<
    char,
> {
    match failure {
        ImportFailure::KeyCodec => "Error when converting path to key: "@ + cause,
        ImportFailure::Lookup => "Error when verifing if key is already taken. "@ + cause,
        ImportFailure::Ingest => "Got an error when importing the file \""@ + quoted(path)
            + "\". \""@ + cause + "\""@,
        ImportFailure::Aborted => "Operation aborted. Error: "@ + cause,
        ImportFailure::OutOfTurn => "Unexpected reply when importing the file "@ + quoted(path),
    }
}

/// The text of a failed removal.
pub open spec fn removal_message(fault: RemovalFailure, cause: Seq<char>) -> Seq<char> {
    match fault {
        RemovalFailure::KeyCodec => "Error when converting path to key: "@ + cause,
        RemovalFailure::Delete => "Error deleting the file from iroh. "@ + cause,
    }
}

impl ErrorView {
    /// The single line that the user interface is given for this failure.
    pub open spec fn message(self) -> Seq<char> {
        match self {
            ErrorView::Initialization { cause } => cause,
            ErrorView::StateNotReady => "The session is not ready"@,
            ErrorView::InvalidPath => "File does not have a name"@,
            ErrorView::InvalidTicket { cause } => cause,
            ErrorView::DuplicateEntry { name } => "Duplicated file name '"@ + name
                + "' is not allowed"@,
            ErrorView::Import { failure, path, cause } => import_message(failure, path, cause),
            ErrorView::Export { cause } => cause,
            ErrorView::Removal { fault, path, cause } => removal_message(fault, cause),
            ErrorView::TicketCreation { cause } => "Error when creating the ticket. "@ + cause,
        }
    }
}

/// A literal followed by a text.
fn prefixed(prefix: &str, text: &str) -> (line: String)
    ensures
        line@ == prefix@ + text@,
{
    let mut line = String::from_str(prefix);
    line.append(text);
    line
}

fn import_text(failure: ImportFailure, path: &str, cause: &str) -> (text: String)
    ensures
        text@ == import_message(failure, path@, cause@),
{
    match failure {
        ImportFailure::KeyCodec => prefixed("Error when converting path to key: ", cause),
        ImportFailure::Lookup => prefixed("Error when verifing if key is already taken. ", cause),
        ImportFailure::Ingest => {
            let shown = quote(path);
            let mut text = prefixed("Got an error when importing the file \"", shown.as_str());
            text.append("\". \"");
            text.append(cause);
            text.append("\"");
            text
        },
        ImportFailure::Aborted => prefixed("Operation aborted. Error: ", cause),
        ImportFailure::OutOfTurn => {
            let shown = quote(path);
            prefixed("Unexpected reply when importing the file ", shown.as_str())
        },
    }
}

impl Error {
    /// The single line of text that a command answers with when it fails.
    pub fn message(&self) -> (text: String)
        ensures
            text@ == self@.message(),
    {
        match self {
            Error::Initialization { cause } => cause.clone(),
            Error::StateNotReady => String::from_str("The session is not ready"),
            Error::InvalidPath => String::from_str("File does not have a name"),
            Error::InvalidTicket { cause } => cause.clone(),
            Error::DuplicateEntry { name } => {
                let mut text = prefixed("Duplicated file name '", name.as_str());
                text.append("' is not allowed");
                text
            },
            Error::Import { failure, path, cause } => import_text(
                *failure,
                path.as_str(),
                cause.as_str(),
            ),
            Error::Export { cause } => cause.clone(),
            Error::Removal { fault, path, cause } => match fault {
                RemovalFailure::KeyCodec => prefixed(
                    "Error when converting path to key: ",
                    cause.as_str(),
                ),
                RemovalFailure::Delete => prefixed(
                    "Error deleting the file from iroh. ",
                    cause.as_str(),
                ),
            },
            Error::TicketCreation { cause } => prefixed(
                "Error when creating the ticket. ",
                cause.as_str(),
            ),
        }
    }
}

} // verus!
