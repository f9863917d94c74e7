//! The session: where the engine keeps its data, and whether commands may
//! run yet.
//!
//! A session is set up once, after the window is ready. Until the setup has
//! succeeded no command may run; a setup that failed leaves the session
//! unusable for good.

use crate::error::{Error, ErrorView};
use crate::event::text_view;
use crate::path::{join, joined};
use crate::remove::unit_view;
use vstd::prelude::*;
use vstd::string::*;

verus! {

/// How far the setup of the session has come.
#[derive(Clone, Copy, Debug, PartialEq, Eq, Structural)]
pub enum Lifecycle {
    /// The setup has not ended yet.
    Starting,
    /// The setup succeeded and the state is published.
    Ready,
    /// The setup failed.
    Broken,
}

/// Whether commands may run: every command asks the session first.
#[derive(Clone, Copy, Debug, PartialEq, Eq, Structural)]
pub struct Session {
    pub lifecycle: Lifecycle,
}

/// The folder, under the application's data directory, that holds the
/// engine's data.
pub open spec fn data_folder() -> Seq<char> {
    "iroh_data"@
}

/// Where the engine keeps its data, given the application's data directory;
/// without such a directory there is no session.
pub open spec fn data_root_of(app_data_dir: Option<Seq<char>>) -> Result<Seq<char>, ErrorView> {
    match app_data_dir {
        Some(directory) => Ok(joined(directory, data_folder())),
        None => Err(ErrorView::Initialization { cause: "can't get application data directory"@ }),
    }
}

/// The lifecycle after a setup has ended: the first end decides, later ones
/// change nothing.
pub open spec fn settled(lifecycle: Lifecycle, succeeded: bool) -> Lifecycle {
    match lifecycle {
        Lifecycle::Starting => if succeeded {
            Lifecycle::Ready
        } else {
            Lifecycle::Broken
        },
        _ => lifecycle,
    }
}

/// The view of a text that may be an error instead.
pub open spec fn root_view(root: Result<String, Error>) -> Result<Seq<char>, ErrorView> {
    match root {
        Ok(root) => Ok(root@),
        Err(error) => Err(error@),
    }
}

/// The directory of the engine's data, under the application's data
/// directory as the platform resolved it.
pub fn data_root(app_data_dir: Option<String>) -> (root: Result<String, Error>)
    ensures
        root_view(root) == data_root_of(text_view(app_data_dir)),
{
    match app_data_dir {
        Some(directory) => Ok(join(directory.as_str(), "iroh_data")),
        None => Err(
            Error::Initialization {
                cause: String::from_str("can't get application data directory"),
            },
        ),
    }
}

/// The failure of a setup in which the engine could not open or create its
/// state.
pub fn engine_failed(cause: String) -> (error: Error)
    ensures
        error@ == (ErrorView::Initialization { cause: cause@ }),
{
    Error::Initialization { cause }
}

impl Session {
    /// A session whose setup has not ended.
    pub fn new() -> (session: Session)
        ensures
            session.lifecycle == Lifecycle::Starting,
    {
        Session { lifecycle: Lifecycle::Starting }
    }

    /// Records how the setup ended. Only the first call decides; the result
    /// says whether this one did.
    pub fn settle(&mut self, succeeded: bool) -> (decided: bool)
        ensures
            final(self).lifecycle == settled(old(self).lifecycle, succeeded),
            decided == (old(self).lifecycle == Lifecycle::Starting),
    {
        match self.lifecycle {
            Lifecycle::Starting => {
                self.lifecycle =
                if succeeded {
                    Lifecycle::Ready
                } else {
                    Lifecycle::Broken
                };
                true
            },
            _ => false,
        }
    }

    /// Lets a command pass if the session is ready, and refuses it otherwise.
    pub fn require_ready(&self) -> (passed: Result<(), Error>)
        ensures
            unit_view(passed) == if self.lifecycle == Lifecycle::Ready {
                Ok::<(), ErrorView>(())
            } else {
                Err::<(), ErrorView>(ErrorView::StateNotReady)
            },
    {
        match self.lifecycle {
            Lifecycle::Ready => Ok(()),
            _ => Err(Error::StateNotReady),
        }
    }
}

/// A session that is ready stays ready, and one that is broken stays
/// broken, however often a setup ends after that.
pub proof fn lemma_settled_once(lifecycle: Lifecycle, first: bool, second: bool)
    ensures
        settled(settled(lifecycle, first), second) == settled(lifecycle, first),
{
}

} // verus!
