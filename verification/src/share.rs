//! The share-code issuer: the ticket that lets a remote peer find and sync
//! the document.

use crate::error::{Error, ErrorView};
use vstd::prelude::*;
use vstd::string::*;

verus! {

/// What the holder of a ticket may do with the document.
#[derive(Clone, Copy, Debug, PartialEq, Eq, Structural)]
pub enum Access {
    /// Read the entries and sync them.
    Read,
    /// Read, and write entries of its own.
    Write,
}

/// Which hints on how to reach this node a ticket carries.
#[derive(Clone, Copy, Debug, PartialEq, Eq, Structural)]
pub enum AddressHints {
    /// What the engine includes when it is not told otherwise.
    Default,
    /// The relay of the node and its direct addresses.
    RelayAndAddresses,
}

/// What is asked of the engine when a share code is issued.
#[derive(Clone, Copy, Debug, PartialEq, Eq, Structural)]
pub struct ShareRequest {
    pub access: Access,
    pub hints: AddressHints,
}

/// The answer of the share-code command.
#[derive(Debug, PartialEq, Eq)]
pub struct ShareCode {
    pub doc_ticket: String,
}

/// What the share-code command answers, given the ticket text that the
/// engine made or the cause of its failure.
pub open spec fn share_result(ticket: Result<Seq<char>, Seq<char>>) -> Result<
    Seq<char>,
    ErrorView,
> {
    match ticket {
        Ok(text) => Ok(text),
        Err(cause) => Err(ErrorView::TicketCreation { cause }),
    }
}

/// The view of what the engine answered.
pub open spec fn ticket_view(ticket: Result<String, String>) -> Result<Seq<char>, Seq<char>> {
    match ticket {
        Ok(text) => Ok(text@),
        Err(cause) => Err(cause@),
    }
}

/// The view of what the command answers.
pub open spec fn code_view(code: Result<ShareCode, Error>) -> Result<Seq<char>, ErrorView> {
    match code {
        Ok(code) => Ok(code.doc_ticket@),
        Err(error) => Err(error@),
    }
}

/// The request that every share code is issued with: the ticket grants
/// reading only, and carries the engine's default address hints.
pub fn request() -> (request: ShareRequest)
    ensures
        request == (ShareRequest { access: Access::Read, hints: AddressHints::Default }),
{
    ShareRequest { access: Access::Read, hints: AddressHints::Default }
}

/// What the share-code command answers, once the engine has made the ticket
/// or failed to.
pub fn conclude(ticket: Result<String, String>) -> (code: Result<ShareCode, Error>)
    ensures
        code_view(code) == share_result(ticket_view(ticket)),
{
    match ticket {
        Ok(doc_ticket) => Ok(ShareCode { doc_ticket }),
        Err(cause) => Err(Error::TicketCreation { cause }),
    }
}

} // verus!
