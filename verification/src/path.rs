//! Paths as text: the final component of a path, a path joined to a
//! directory, and a path quoted for a message.
//!
//! The three are computed by std, which reads a path by the rules of the
//! platform that the crate is built for. Each result has a name here, so that
//! contracts elsewhere can say which path they mean.

use vstd::prelude::*;

verus! {

/// The final component of a path as `Path::file_name` of std gives it, or
/// `None` where the path has none: it is empty, a root, or ends in `..`.
pub uninterp spec fn file_name_of(path: Seq<char>) -> Option<Seq<char>>;

/// The path that `Path::join` of std makes of a directory and a name.
pub uninterp spec fn joined(base: Seq<char>, name: Seq<char>) -> Seq<char>;

/// A path as std's `Debug` prints it: in double quotes, with escapes.
pub uninterp spec fn quoted(path: Seq<char>) -> Seq<char>;

/// Calls `Path::file_name` of std on the path and owns the component that it
/// returns. The contract only names the result; nothing is claimed of it
/// beyond its being a function of the path.
#[verifier::external_body]
pub(crate) fn file_name(path: &str) -> (name: Option<String>)
    ensures
        match name {
            Some(name) => file_name_of(path@) == Some(name@),
            None => file_name_of(path@).is_none(),
        },
{
    match std::path::Path::new(path).file_name() {
        Some(name) => Some(name.to_string_lossy().into_owned()),
        None => None,
    }
}

/// Calls `Path::join` of std. The contract only names the result.
#[verifier::external_body]
pub(crate) fn join(base: &str, name: &str) -> (path: String)
    ensures
        path@ == joined(base@, name@),
{
    std::path::Path::new(base).join(name).to_string_lossy().into_owned()
}

/// Formats the path with the `Debug` impl that std gives `Path`. The contract
/// only names the result.
#[verifier::external_body]
pub(crate) fn quote(path: &str) -> (text: String)
    ensures
        text@ == quoted(path@),
{
    format!("{:?}", std::path::Path::new(path))
}

} // verus!
