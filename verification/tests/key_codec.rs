use quick_send::key::{describe_fault, display_name, to_key, KeyError, TERMINATOR};

#[test]
fn key_is_name_bytes_and_terminator() {
    assert_eq!(to_key("report.pdf"), Ok(b"report.pdf\0".to_vec()));
    assert_eq!(TERMINATOR, 0);
}

#[test]
fn key_of_non_ascii_name_is_its_utf8_bytes_and_terminator() {
    let key = to_key("caf\u{e9}.txt").unwrap();
    assert_eq!(key, vec![b'c', b'a', b'f', 0xc3, 0xa9, b'.', b't', b'x', b't', 0]);
}

#[test]
fn key_of_empty_name_is_the_terminator_alone() {
    assert_eq!(to_key(""), Ok(vec![0u8]));
    assert_eq!(display_name(&[0u8]), "");
}

#[test]
fn name_with_separator_has_no_key() {
    assert_eq!(to_key("a/b"), Err(KeyError::Separator));
    assert_eq!(to_key("a\\b"), Err(KeyError::Separator));
    assert_eq!(to_key("/"), Err(KeyError::Separator));
    assert_eq!(to_key("../x"), Err(KeyError::Separator));
}

#[test]
fn dot_names_have_no_key() {
    assert_eq!(to_key("."), Err(KeyError::Relative));
    assert_eq!(to_key(".."), Err(KeyError::Relative));
}

#[test]
fn names_that_only_look_like_dots_have_a_key() {
    assert_eq!(to_key("..."), Ok(b"...\0".to_vec()));
    assert_eq!(to_key(".hidden"), Ok(b".hidden\0".to_vec()));
    assert_eq!(to_key("a."), Ok(b"a.\0".to_vec()));
}

#[test]
fn display_name_strips_exactly_one_byte() {
    assert_eq!(display_name(b"report.pdf\0"), "report.pdf");
    assert_eq!(display_name(b"report.pdf\0\0"), "report.pdf\0");
    assert_eq!(display_name(b"report.pdf"), "report.pd");
    assert_eq!(display_name(b"a"), "");
}

#[test]
fn display_name_of_empty_key_is_empty() {
    assert_eq!(display_name(b""), "");
}

#[test]
fn display_name_replaces_invalid_utf8() {
    assert_eq!(display_name(b"caf\xff\0"), "caf\u{fffd}");
    assert_eq!(display_name(&[0xc3, 0xa9, 0]), "\u{e9}");
    assert_eq!(display_name(&[0xc3, 0xa9]), "\u{fffd}");
}

#[test]
fn key_round_trip() {
    for name in ["report.pdf", "a", "", "with space.txt", "caf\u{e9}", "\u{1f600}.png", "nul\0in", "x.tar.gz"] {
        let key = to_key(name).unwrap();
        assert_eq!(key.last(), Some(&0u8));
        assert_eq!(key.len(), name.len() + 1);
        assert_eq!(display_name(&key), name);
    }
}

#[test]
fn distinct_names_have_distinct_keys() {
    let names = ["a", "b", "a.txt", "A", "a ", "ab", "caf\u{e9}", "cafe"];
    for first in names {
        for second in names {
            if first != second {
                assert_ne!(to_key(first).unwrap(), to_key(second).unwrap());
            }
        }
    }
}

#[test]
fn to_key_is_deterministic() {
    assert_eq!(to_key("same.bin"), to_key("same.bin"));
}

#[test]
fn fault_is_described_with_the_quoted_name() {
    assert_eq!(describe_fault("a\\b"), "invalid path component \"a\\\\b\"");
    assert_eq!(describe_fault(".."), "invalid path component \"..\"");
}
