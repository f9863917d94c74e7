//! The key codec: the mapping between a display name and the key under which
//! a document stores the file.
//!
//! A key is the UTF-8 encoding of the name followed by one terminator byte.
//! Whoever turns a key back into a name strips exactly that one byte.

use crate::path::{quote, quoted};
use vstd::prelude::*;
use vstd::slice::*;
use vstd::string::*;
use vstd::utf8::*;

verus! {

/// The byte that ends every key.
pub const TERMINATOR: u8 = 0;

/// Why a display name has no key.
#[derive(Clone, Copy, Debug, PartialEq, Eq, Structural)]
pub enum KeyError {
    /// The name holds a path separator, `/` or `\`.
    Separator,
    /// The name is `.` or `..`, which names a directory and no file.
    Relative,
}

/// `/` and `\`, each of which would split the name into several components.
pub open spec fn is_separator(byte: u8) -> bool {
    byte == 0x2f || byte == 0x5c
}

/// True when some byte of the name is a path separator.
pub open spec fn has_separator(name: Seq<u8>) -> bool {
    exists|i: int| 0 <= i < name.len() && is_separator(#[trigger] name[i])
}

/// True for the UTF-8 bytes of `.` and of `..`.
pub open spec fn is_relative(name: Seq<u8>) -> bool {
    name == seq![0x2e_u8] || name == seq![0x2e_u8, 0x2e_u8]
}

/// The names that have a key, given by their UTF-8 bytes: a single path
/// component that is neither `.` nor `..`.
pub open spec fn encodable(name: Seq<u8>) -> bool {
    !has_separator(name) && !is_relative(name)
}

/// The fault reported for a name that is not [`encodable`].
pub open spec fn key_fault(name: Seq<u8>) -> KeyError {
    if has_separator(name) {
        KeyError::Separator
    } else {
        KeyError::Relative
    }
}

/// The key of a display name: its UTF-8 bytes, then the terminator.
pub open spec fn key_of(name: Seq<char>) -> Seq<u8> {
    encode_utf8(name).push(TERMINATOR)
}

/// The text that `String::from_utf8_lossy` makes of bytes that are not valid
/// UTF-8, each invalid sequence replaced by U+FFFD.
pub uninterp spec fn lossy_text(bytes: Seq<u8>) -> Seq<char>;

/// The text that bytes stand for: what they decode to where they are valid
/// UTF-8, and the lossy reading otherwise.
pub open spec fn text_of(bytes: Seq<u8>) -> Seq<char> {
    if valid_utf8(bytes) {
        decode_utf8(bytes)
    } else {
        lossy_text(bytes)
    }
}

/// A key without its last byte; the empty key has none to lose.
pub open spec fn stem(key: Seq<u8>) -> Seq<u8> {
    if key.len() > 0 {
        key.drop_last()
    } else {
        key
    }
}

/// The display name that a key stands for.
pub open spec fn name_of(key: Seq<u8>) -> Seq<char> {
    text_of(stem(key))
}

/// Calls `String::from_utf8_lossy` of std and owns the result. The contract
/// claims what the documentation of that function says: valid UTF-8 comes back
/// as the string it encodes; for other input the result is named, not stated.
#[verifier::external_body]
fn lossy(bytes: &[u8]) -> (text: String)
    ensures
        text@ == text_of(bytes@),
        !valid_utf8(bytes@) ==> text@ == lossy_text(bytes@),
{
    String::from_utf8_lossy(bytes).into_owned()
}

/// Encodes a display name as a document key.
///
/// Succeeds exactly on the [`encodable`] names, with the key [`key_of`] the
/// name, which [`display_name`] reads back as the name; every other name is
/// refused with the fault that [`key_fault`] gives.
pub fn to_key(name: &str) -> (result: Result<Vec<u8>, KeyError>)
    ensures
        match result {
            Ok(key) => encodable(name.spec_bytes()) && key@ == key_of(name@) && name_of(key@)
                == name@,
            Err(fault) => !encodable(name.spec_bytes()) && fault == key_fault(name.spec_bytes()),
        },
{
    proof {
        lemma_key_round_trip(name@);
    }
    let bytes = name.as_bytes();
    let len = bytes.len();
    let mut i: usize = 0;
    while i < len
        invariant
            bytes@ == name.spec_bytes(),
            len == bytes@.len(),
            i <= len,
            forall|j: int| 0 <= j < i ==> !is_separator(#[trigger] bytes@[j]),
        decreases len - i,
    {
        let byte = bytes[i];
        if byte == 0x2f || byte == 0x5c {
            assert(is_separator(bytes@[i as int]));
            return Err(KeyError::Separator);
        }
        i += 1;
    }
    let one_dot = len == 1 && bytes[0] == 0x2e;
    let two_dots = len == 2 && bytes[0] == 0x2e && bytes[1] == 0x2e;
    if one_dot || two_dots {
        assert(one_dot ==> bytes@ =~= seq![0x2e_u8]);
        assert(two_dots ==> bytes@ =~= seq![0x2e_u8, 0x2e_u8]);
        return Err(KeyError::Relative);
    }
    let mut key = name.as_bytes_vec();
    key.push(TERMINATOR);
    Ok(key)
}

/// The words that say why a name has no key.
pub open spec fn fault_text(name: Seq<char>) -> Seq<char> {
    "invalid path component "@ + quoted(name)
}

/// Says in words why `name` has no key.
pub fn describe_fault(name: &str) -> (text: String)
    ensures
        text@ == fault_text(name@),
{
    let shown = quote(name);
    let mut text = String::from_str("invalid path component ");
    text.append(shown.as_str());
    text
}

/// A copy of a key.
pub(crate) fn copy_key(key: &Vec<u8>) -> (copy: Vec<u8>)
    ensures
        copy@ == key@,
{
    let copy = key.clone();
    assert(copy@ =~= key@);
    copy
}

/// Recovers the display name from a key: one trailing byte is stripped and
/// the rest is read as text.
pub fn display_name(key: &[u8]) -> (name: String)
    ensures
        name@ == name_of(key@),
{
    let len = key.len();
    if len > 0 {
        let body = slice_subrange(key, 0, len - 1);
        assert(body@ =~= stem(key@));
        lossy(body)
    } else {
        lossy(key)
    }
}

/// Decoding undoes encoding: the name of the key of a name is that name.
pub proof fn lemma_key_round_trip(name: Seq<char>)
    ensures
        name_of(key_of(name)) == name,
{
    encode_utf8_valid_utf8(name);
    encode_utf8_decode_utf8(name);
    assert(stem(key_of(name)) =~= encode_utf8(name));
}

/// Two different names never share a key.
pub proof fn lemma_keys_distinct(first: Seq<char>, second: Seq<char>)
    requires
        first != second,
    ensures
        key_of(first) != key_of(second),
{
    lemma_key_round_trip(first);
    lemma_key_round_trip(second);
}

/// Every key ends in the terminator, and is one byte longer than the
/// encoding of its name.
pub proof fn lemma_key_ends_in_terminator(name: Seq<char>)
    ensures
        key_of(name).len() == encode_utf8(name).len() + 1,
        key_of(name).last() == TERMINATOR,
        stem(key_of(name)) == encode_utf8(name),
{
    assert(stem(key_of(name)) =~= encode_utf8(name));
}

} // verus!
