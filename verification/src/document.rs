//! The document as the commands see it, and what the commands do to it.
//!
//! The document itself lives in the storage engine. What is written down
//! here is the little that the commands rely on: a document holds at most
//! one live entry under a key, a lookup answers whether it holds one, an
//! ingestion that runs to its end commits the entry, and a deletion removes
//! it. Over this, the theorems of this module say what an append, a removal
//! and a receive amount to.

use crate::append::{AppendActionView, AppendReplyView, AppendView};
use crate::error::ErrorView;
use crate::key::{encodable, key_of, lemma_key_round_trip, lemma_keys_distinct, name_of};
use crate::receive::{ReceiveActionView, ReceiveView};
use crate::remove::{removal_key, removal_result};
use vstd::prelude::*;
use vstd::utf8::*;

verus! {

/// The live entries of a document under the current write identity: the
/// content that each key stands for.
pub struct Document {
    pub entries: Map<Seq<u8>, Seq<u8>>,
}

impl Document {
    /// True when the document holds a live entry under the key.
    pub open spec fn holds(self, key: Seq<u8>) -> bool {
        self.entries.contains_key(key)
    }

    /// What the engine answers when an append looks the key up.
    pub open spec fn lookup(self, key: Seq<u8>) -> AppendReplyView {
        if self.holds(key) {
            AppendReplyView::Present
        } else {
            AppendReplyView::Absent
        }
    }

    /// The document once an ingestion under the key has run to its end.
    pub open spec fn committed(self, key: Seq<u8>, content: Seq<u8>) -> Document {
        Document { entries: self.entries.insert(key, content) }
    }

    /// The document once the entries under the key are deleted.
    pub open spec fn without(self, key: Seq<u8>) -> Document {
        Document { entries: self.entries.remove(key) }
    }

    /// The number of entries that a deletion under the key deletes.
    pub open spec fn count(self, key: Seq<u8>) -> usize {
        if self.holds(key) {
            1
        } else {
            0
        }
    }

    /// True when every key of the document is the key of the name that it
    /// is read as: the document was filled through the key codec.
    pub open spec fn canonical(self) -> bool {
        forall|key: Seq<u8>| #[trigger] self.holds(key) ==> key_of(name_of(key)) == key
    }

    /// True when a receive of the document shows a file of this name.
    pub open spec fn surfaces(self, name: Seq<char>) -> bool {
        exists|key: Seq<u8>| #[trigger] self.holds(key) && name_of(key) == name
    }
}

/// What an append does to a document, and what it answers.
///
/// The append starts from the final component of its path, has its key
/// looked up in the document, and goes by what the machine asks next: if it
/// asks for the ingestion, the entry is committed with the content of the
/// file; if it ends, the document stays as it was.
pub open spec fn appended(
    document: Document,
    path: Seq<char>,
    name: Option<Seq<char>>,
    content: Seq<u8>,
) -> (Document, Result<(), ErrorView>) {
    let (start, first) = AppendView::begun(path, name);
    match first.action {
        AppendActionView::Lookup { key } => {
            let (_, second) = start.next(document.lookup(key));
            match second.action {
                AppendActionView::Ingest { key, .. } => (document.committed(key, content), Ok(())),
                AppendActionView::Finish(result) => (document, result),
                _ => (document, Ok(())),
            }
        },
        AppendActionView::Finish(result) => (document, result),
        _ => (document, Ok(())),
    }
}

/// What a removal does to a document, and what it answers.
pub open spec fn removed(document: Document, path: Seq<char>, name: Option<Seq<char>>) -> (
    Document,
    Result<(), ErrorView>,
) {
    match removal_key(path, name) {
        Ok(key) => (document.without(key), removal_result(path, Ok(document.count(key)))),
        Err(error) => (document, Err(error)),
    }
}

/// An append of a name that the document does not hold commits the entry
/// under the key of the name and succeeds.
pub proof fn lemma_append_commits(
    document: Document,
    path: Seq<char>,
    name: Seq<char>,
    content: Seq<u8>,
)
    requires
        encodable(encode_utf8(name)),
        !document.holds(key_of(name)),
    ensures
        appended(document, path, Some(name), content) == (
            document.committed(key_of(name), content),
            Ok::<(), ErrorView>(()),
        ),
{
}

/// Two files with different names, neither of them in the document yet, are
/// both appended, and the document then holds two different entries for
/// them beside what it held before.
pub proof fn lemma_distinct_names_both_appended(
    document: Document,
    first_path: Seq<char>,
    first: Seq<char>,
    first_content: Seq<u8>,
    second_path: Seq<char>,
    second: Seq<char>,
    second_content: Seq<u8>,
)
    requires
        first != second,
        encodable(encode_utf8(first)),
        encodable(encode_utf8(second)),
        !document.holds(key_of(first)),
        !document.holds(key_of(second)),
    ensures
        ({
            let (one, first_result) = appended(document, first_path, Some(first), first_content);
            let (two, second_result) = appended(one, second_path, Some(second), second_content);
            &&& first_result is Ok
            &&& second_result is Ok
            &&& key_of(first) != key_of(second)
            &&& two.entries.dom() == document.entries.dom().insert(key_of(first)).insert(
                key_of(second),
            )
            &&& two.entries[key_of(first)] == first_content
            &&& two.entries[key_of(second)] == second_content
            &&& forall|key: Seq<u8>| #[trigger]
                document.holds(key) ==> two.entries[key] == document.entries[key]
            &&& document.entries.dom().finite() ==> two.entries.dom().len()
                == document.entries.dom().len() + 2
        }),
{
    lemma_keys_distinct(first, second);
    lemma_append_commits(document, first_path, first, first_content);
    let one = document.committed(key_of(first), first_content);
    lemma_append_commits(one, second_path, second, second_content);
    let two = one.committed(key_of(second), second_content);
    assert(two.entries.dom() =~= document.entries.dom().insert(key_of(first)).insert(
        key_of(second),
    ));
}

/// An append of a name that the document holds already is refused, as a
/// duplicate where the name has a key at all, and the document stays
/// exactly as it was: the same entries, each with the content it had.
pub proof fn lemma_duplicate_leaves_document(
    document: Document,
    path: Seq<char>,
    name: Seq<char>,
    content: Seq<u8>,
)
    requires
        document.holds(key_of(name)),
    ensures
        appended(document, path, Some(name), content).0 == document,
        appended(document, path, Some(name), content).1 is Err,
        encodable(encode_utf8(name)) ==> appended(document, path, Some(name), content).1 == Err::<
            (),
            ErrorView,
        >(ErrorView::DuplicateEntry { name }),
{
}

/// An append that fails has changed nothing in the document.
pub proof fn lemma_failed_append_leaves_document(
    document: Document,
    path: Seq<char>,
    name: Option<Seq<char>>,
    content: Seq<u8>,
)
    requires
        appended(document, path, name, content).1 is Err,
    ensures
        appended(document, path, name, content).0 == document,
{
}

/// Whatever an append answers, a document that was filled through the key
/// codec is so afterwards.
pub proof fn lemma_append_keeps_canonical(
    document: Document,
    path: Seq<char>,
    name: Option<Seq<char>>,
    content: Seq<u8>,
)
    requires
        document.canonical(),
    ensures
        appended(document, path, name, content).0.canonical(),
{
    let after = appended(document, path, name, content).0;
    if after != document {
        let name = name->0;
        lemma_key_round_trip(name);
        assert(after == document.committed(key_of(name), content));
        assert forall|key: Seq<u8>| #[trigger] after.holds(key) implies key_of(name_of(key))
            == key by {
            if key != key_of(name) {
                assert(document.holds(key));
            }
        }
    }
}

/// The removal of a name that the document does not hold succeeds, deletes
/// nothing, and leaves the document exactly as it was.
pub proof fn lemma_remove_absent_changes_nothing(
    document: Document,
    path: Seq<char>,
    name: Seq<char>,
)
    requires
        encodable(encode_utf8(name)),
        !document.holds(key_of(name)),
    ensures
        removed(document, path, Some(name)) == (document, Ok::<(), ErrorView>(())),
        document.count(key_of(name)) == 0,
{
    assert(document.entries.remove(key_of(name)) =~= document.entries);
}

/// After the removal of a name, a receive of the document shows no file of
/// that name; every other file is shown as before.
pub proof fn lemma_removed_not_surfaced(document: Document, path: Seq<char>, name: Seq<char>)
    requires
        document.canonical(),
        encodable(encode_utf8(name)),
    ensures
        removed(document, path, Some(name)).1 is Ok,
        !removed(document, path, Some(name)).0.surfaces(name),
        removed(document, path, Some(name)).0.canonical(),
        forall|other: Seq<char>|
            other != name ==> (#[trigger] removed(document, path, Some(name)).0.surfaces(other)
                <==> document.surfaces(other)),
{
    let after = removed(document, path, Some(name)).0;
    assert(after == document.without(key_of(name)));
    lemma_key_round_trip(name);
    assert forall|key: Seq<u8>| #[trigger] after.holds(key) implies name_of(key) != name by {
        assert(document.holds(key));
    }
    assert forall|key: Seq<u8>| #[trigger] after.holds(key) implies key_of(name_of(key))
        == key by {
        assert(document.holds(key));
    }
    assert forall|other: Seq<char>| other != name implies (#[trigger] after.surfaces(other)
        <==> document.surfaces(other)) by {
        if after.surfaces(other) {
            let key = choose|key: Seq<u8>| #[trigger] after.holds(key) && name_of(key) == other;
            assert(document.holds(key));
        }
        if document.surfaces(other) {
            let key = choose|key: Seq<u8>| #[trigger]
                document.holds(key) && name_of(key) == other;
            assert(after.holds(key));
        }
    }
}

/// A file that was appended is received under its own name: the entry
/// holds its content, and a receive that comes to the entry asks for the
/// export to the file of that name in the output directory.
pub proof fn lemma_appended_file_received(
    document: Document,
    path: Seq<char>,
    name: Seq<char>,
    content: Seq<u8>,
    receive: ReceiveView,
)
    requires
        encodable(encode_utf8(name)),
        !document.holds(key_of(name)),
    ensures
        appended(document, path, Some(name), content).0.entries[key_of(name)] == content,
        appended(document, path, Some(name), content).0.surfaces(name),
        receive.entered(key_of(name)).1.action == (ReceiveActionView::Export {
            dest: crate::path::joined(receive.output, name),
        }),
{
    lemma_key_round_trip(name);
    let after = appended(document, path, Some(name), content).0;
    assert(after.holds(key_of(name)));
}

} // verus!
