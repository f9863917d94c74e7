//! The removal operation: deleting the entries of one file name from the
//! document.
//!
//! The key is derived from the path exactly as an append derives it. The
//! caller deletes all entries under that key for the current write identity
//! and reports how many there were; that there were none is no failure.

use crate::error::{Error, ErrorView, RemovalFailure};
use crate::event::text_view;
use crate::key::{describe_fault, encodable, fault_text, key_of, to_key};
use crate::path::{file_name, file_name_of};
use vstd::prelude::*;
use vstd::string::*;
use vstd::utf8::*;

verus! {

/// The key whose entries a removal deletes, given the final component of
/// its path; or why there is none.
pub open spec fn removal_key(path: Seq<char>, name: Option<Seq<char>>) -> Result<
    Seq<u8>,
    ErrorView,
> {
    match name {
        None => Err(ErrorView::InvalidPath),
        Some(name) => if encodable(encode_utf8(name)) {
            Ok(key_of(name))
        } else {
            Err(
                ErrorView::Removal {
                    fault: RemovalFailure::KeyCodec,
                    path,
                    cause: fault_text(name),
                },
            )
        },
    }
}

/// What a removal answers, given what the engine reported of the deletion:
/// a count, whatever it is, is success.
pub open spec fn removal_result(path: Seq<char>, deleted: Result<usize, Seq<char>>) -> Result<
    (),
    ErrorView,
> {
    match deleted {
        Ok(_) => Ok(()),
        Err(cause) => Err(
            ErrorView::Removal { fault: RemovalFailure::Delete, path, cause },
        ),
    }
}

/// The view of a key that may be an error instead.
pub open spec fn key_view(key: Result<Vec<u8>, Error>) -> Result<Seq<u8>, ErrorView> {
    match key {
        Ok(key) => Ok(key@),
        Err(error) => Err(error@),
    }
}

/// The view of a result without a value.
pub open spec fn unit_view(result: Result<(), Error>) -> Result<(), ErrorView> {
    match result {
        Ok(()) => Ok(()),
        Err(error) => Err(error@),
    }
}

/// The view of the engine's report of a deletion.
pub open spec fn deleted_view(deleted: Result<usize, String>) -> Result<usize, Seq<char>> {
    match deleted {
        Ok(count) => Ok(count),
        Err(cause) => Err(cause@),
    }
}

/// The key to delete for the file at `path`, given the final component of
/// the path.
pub fn plan_named(path: &str, name: Option<String>) -> (key: Result<Vec<u8>, Error>)
    ensures
        key_view(key) == removal_key(path@, text_view(name)),
{
    match name {
        None => Err(Error::InvalidPath),
        Some(name) => match to_key(name.as_str()) {
            Ok(key) => Ok(key),
            Err(_) => Err(
                Error::Removal {
                    fault: RemovalFailure::KeyCodec,
                    path: String::from_str(path),
                    cause: describe_fault(name.as_str()),
                },
            ),
        },
    }
}

/// The key to delete for the file at `path`.
///
/// The name of the file is the final component of the path as std reads it;
/// what follows is [`plan_named`].
pub fn plan(path: &str) -> (key: Result<Vec<u8>, Error>)
    ensures
        key_view(key) == removal_key(path@, file_name_of(path@)),
{
    let name = file_name(path);
    plan_named(path, name)
}

/// What the removal of the file at `path` answers, once the engine has
/// reported the number of entries that it deleted, or its failure.
pub fn conclude(path: &str, deleted: Result<usize, String>) -> (result: Result<(), Error>)
    ensures
        unit_view(result) == removal_result(path@, deleted_view(deleted)),
{
    match deleted {
        Ok(_) => Ok(()),
        Err(cause) => Err(
            Error::Removal {
                fault: RemovalFailure::Delete,
                path: String::from_str(path),
                cause,
            },
        ),
    }
}

} // verus!
