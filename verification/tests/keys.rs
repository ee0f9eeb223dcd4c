use haul_core::constants::{DOC_PREFIX_FILE, DOC_PREFIX_MEMBER};
use haul_core::keys::{file_key, member_key, strip_file_prefix, KeyError};

#[test]
fn file_key_has_correct_prefix() {
    let key = file_key("photos/cat.jpg");
    assert!(key.starts_with(DOC_PREFIX_FILE.as_bytes()));
    assert!(key.ends_with(b"photos/cat.jpg"));
}

#[test]
fn member_key_has_correct_prefix() {
    let key = member_key("abc123");
    assert!(key.starts_with(DOC_PREFIX_MEMBER.as_bytes()));
    assert!(key.ends_with(b"abc123"));
}

#[test]
fn strip_file_prefix_roundtrip() {
    let path = "docs/readme.txt";
    let key = file_key(path);
    assert_eq!(strip_file_prefix(&key).expect("valid UTF-8 key"), path);
}

#[test]
fn strip_file_prefix_no_prefix_returns_full() {
    // key without the file prefix — returns whole string unchanged
    let raw = b"nomatch/something";
    assert_eq!(strip_file_prefix(raw).expect("valid UTF-8 key"), "nomatch/something");
}

#[test]
fn strip_file_prefix_invalid_utf8_errors() {
    let bad = b"\xff\xfe invalid utf8";
    assert!(strip_file_prefix(bad).is_err());
}

#[test]
fn file_key_empty_path() {
    let key = file_key("");
    assert_eq!(key, DOC_PREFIX_FILE.as_bytes());
    assert_eq!(strip_file_prefix(&key).expect("valid UTF-8 key"), "");
}

#[test]
fn file_and_member_keys_dont_collide() {
    // same suffix must not collide between namespaces
    let fk = file_key("node123");
    let mk = member_key("node123");
    assert_ne!(fk, mk);
}

#[test]
fn file_key_exact_bytes() {
    assert_eq!(file_key("a/b"), b"file/a/b".to_vec());
    assert_eq!(member_key("n1"), b"member/n1".to_vec());
}

#[test]
fn file_key_non_ascii_path_roundtrip() {
    let path = "fotos/gr\u{fc}n/\u{732b}.jpg";
    let key = file_key(path);
    assert_eq!(key.len(), 5 + path.len());
    assert_eq!(strip_file_prefix(&key), Ok(path));
}

#[test]
fn strip_file_prefix_only_strips_at_start() {
    assert_eq!(strip_file_prefix(b"x/file/y"), Ok("x/file/y"));
    assert_eq!(strip_file_prefix(b"file"), Ok("file"));
    assert_eq!(strip_file_prefix(b"file/file/z"), Ok("file/z"));
}

#[test]
fn strip_file_prefix_invalid_utf8_after_prefix_errors() {
    assert_eq!(strip_file_prefix(b"file/\xc3"), Err(KeyError::InvalidUtf8));
    assert_eq!(strip_file_prefix(b"file/\xed\xa0\x80"), Err(KeyError::InvalidUtf8));
}

#[test]
fn distinct_paths_distinct_keys() {
    assert_ne!(file_key("a"), file_key("b"));
    assert_ne!(file_key("ab"), file_key("a"));
}
