//! Transfer orchestration for a peer-to-peer file-sharing desktop application.
//!
//! The crate holds the decisions of the application and none of its I/O: how a
//! file name becomes a document key and back, when an append is refused as a
//! duplicate, which notification of the storage engine becomes which event for
//! the user interface, and what each command answers. The storage engine, the
//! window shell and the file system stay with the caller, who performs the
//! action that a state machine of this crate asks for and hands back the reply.

pub mod key;
pub mod path;
pub mod error;
pub mod event;
pub mod transfer;
pub mod append;
pub mod receive;
pub mod remove;
pub mod share;
pub mod session;
pub mod document;
