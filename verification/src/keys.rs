use vstd::prelude::*;
use vstd::string::*;
use vstd::utf8::*;

use crate::bytes::{append_bytes, has_prefix, starts_with};
use crate::constants::{DOC_PREFIX_FILE, DOC_PREFIX_MEMBER};

verus! {

/// The bytes of [`DOC_PREFIX_FILE`]: `file/`.
pub open spec fn file_prefix() -> Seq<u8> {
    seq![0x66u8, 0x69u8, 0x6cu8, 0x65u8, 0x2fu8]
}

/// The bytes of [`DOC_PREFIX_MEMBER`]: `member/`.
pub open spec fn member_prefix() -> Seq<u8> {
    seq![0x6du8, 0x65u8, 0x6du8, 0x62u8, 0x65u8, 0x72u8, 0x2fu8]
}

/// The document key of the file at `path`: the file prefix, then `path` in UTF-8.
pub open spec fn spec_file_key(path: Seq<char>) -> Seq<u8> {
    file_prefix() + encode_utf8(path)
}

/// The document key of the member `node_id`: the member prefix, then `node_id` in UTF-8.
pub open spec fn spec_member_key(node_id: Seq<char>) -> Seq<u8> {
    member_prefix() + encode_utf8(node_id)
}

proof fn lemma_prefix_bytes()
    ensures
        DOC_PREFIX_FILE.spec_bytes() == file_prefix(),
        DOC_PREFIX_MEMBER.spec_bytes() == member_prefix(),
{
    reveal_strlit("file/");
    reveal_strlit("member/");
    broadcast use is_ascii_spec_bytes;
    assert(is_ascii(DOC_PREFIX_FILE));
    assert(is_ascii(DOC_PREFIX_MEMBER));
    assert(DOC_PREFIX_FILE.spec_bytes() =~= file_prefix());
    assert(DOC_PREFIX_MEMBER.spec_bytes() =~= member_prefix());
}

/// The document key under which the entry of the file at `path` is stored.
pub fn file_key(path: &str) -> (key: Vec<u8>)
    ensures
        key@ == spec_file_key(path@),
        key@ == seq![0x66u8, 0x69u8, 0x6cu8, 0x65u8, 0x2fu8] + path.spec_bytes(),
{
    proof { lemma_prefix_bytes(); }
    let mut key: Vec<u8> = Vec::new();
    append_bytes(&mut key, DOC_PREFIX_FILE.as_bytes());
    append_bytes(&mut key, path.as_bytes());
    assert(key@ =~= spec_file_key(path@));
    key
}


/// The document key under which the node `node_id` is recorded as a member.
pub fn member_key(node_id: &str) -> (key: Vec<u8>)
    ensures
        key@ == spec_member_key(node_id@),
        key@ == seq![0x6du8, 0x65u8, 0x6du8, 0x62u8, 0x65u8, 0x72u8, 0x2fu8] + node_id.spec_bytes(),
{
    proof { lemma_prefix_bytes(); }
    let mut key: Vec<u8> = Vec::new();
    append_bytes(&mut key, DOC_PREFIX_MEMBER.as_bytes());
    append_bytes(&mut key, node_id.as_bytes());
    assert(key@ =~= spec_member_key(node_id@));
    key
}

/// Why a document key could not be read back.
#[derive(Debug, PartialEq, Eq, Structural)]
pub enum KeyError {
    /// The key is not valid UTF-8.
    InvalidUtf8,
}

/// The bytes of `key` without the file prefix, or all of `key` where it lacks that prefix.
pub open spec fn spec_strip_file_prefix(key: Seq<u8>) -> Seq<u8> {
    if has_prefix(key, file_prefix()) {
        key.skip(file_prefix().len() as int)
    } else {
        key
    }
}

/// Calls `std::str::from_utf8`, which std documents as succeeding exactly when the
/// bytes are valid UTF-8, and then returning a string slice over those same bytes.
#[verifier::external_body]
fn utf8_str<'a>(bytes: &'a [u8]) -> (r: Option<&'a str>)
    ensures
        r is Some <==> valid_utf8(bytes@),
        r matches Some(s) ==> s.spec_bytes() == bytes@,
{
    std::str::from_utf8(bytes).ok()
}

/// A position after a run of ASCII bytes at the start of valid UTF-8 is a character boundary.
proof fn lemma_ascii_run_is_boundary(bytes: Seq<u8>, n: int)
    requires
        valid_utf8(bytes),
        0 <= n <= bytes.len(),
        forall|i: int| 0 <= i < n ==> bytes[i] < 0x80,
    ensures
        is_char_boundary(bytes, n),
    decreases n,
{
    if n > 0 {
        assert(valid_first_scalar(bytes));
        assert(length_of_first_scalar(bytes) == 1);
        let tail = pop_first_scalar(bytes);
        assert(forall|i: int| 0 <= i < n - 1 ==> tail[i] == bytes[i + 1]);
        lemma_ascii_run_is_boundary(tail, n - 1);
    }
}

/// The path that the document key `key` names: the key without the file prefix.
/// A key without that prefix is returned whole; a key that is not UTF-8 is refused.
pub fn strip_file_prefix(key: &[u8]) -> (r: Result<&str, KeyError>)
    ensures
        r is Ok <==> valid_utf8(key@),
        r matches Ok(s) ==> s.spec_bytes() == spec_strip_file_prefix(key@),
        r matches Ok(s) ==> s@ == decode_utf8(spec_strip_file_prefix(key@)),
        r matches Err(e) ==> e == KeyError::InvalidUtf8,
        r matches Ok(s) ==> (key@.len() >= 5 && key@.take(5) == seq![0x66u8, 0x69u8, 0x6cu8, 0x65u8, 0x2fu8]
            ==> s.spec_bytes() == key@.skip(5)),
        r matches Ok(s) ==> (!(key@.len() >= 5 && key@.take(5) == seq![0x66u8, 0x69u8, 0x6cu8, 0x65u8, 0x2fu8])
            ==> s.spec_bytes() == key@),
{
    proof { lemma_prefix_bytes(); }
    match utf8_str(key) {
        None => Err(KeyError::InvalidUtf8),
        Some(s) => {
            proof {
                broadcast use encode_utf8_decode_utf8;
                assert(decode_utf8(s.spec_bytes()) == s@);
            }
            if starts_with(key, DOC_PREFIX_FILE.as_bytes()) {
                proof {
                    assert forall|i: int| 0 <= i < 5 implies key@[i] < 0x80 by {
                        assert(key@.subrange(0, 5)[i] == file_prefix()[i]);
                    }
                    lemma_ascii_run_is_boundary(key@, 5);
                }
                let (_head, rest) = s.split_at(5);
                proof {
                    broadcast use encode_utf8_decode_utf8;
                    assert(rest.spec_bytes() =~= key@.skip(5));
                    assert(decode_utf8(rest.spec_bytes()) == rest@);
                }
                Ok(rest)
            } else {
                Ok(s)
            }
        }
    }
}

/// Reading back the key of a file gives its path: the key is valid UTF-8 and, with the
/// file prefix stripped, decodes to `path`.
pub proof fn file_key_strips_to_path(path: Seq<char>)
    ensures
        valid_utf8(spec_file_key(path)),
        spec_strip_file_prefix(spec_file_key(path)) == encode_utf8(path),
        decode_utf8(spec_strip_file_prefix(spec_file_key(path))) == path,
{
    broadcast use encode_utf8_valid_utf8, encode_utf8_decode_utf8, valid_utf8_concat;
    let key = spec_file_key(path);
    assert(valid_utf8(file_prefix())) by {
        reveal_with_fuel(valid_utf8, 6);
    }
    assert(key.subrange(0, 5) =~= file_prefix());
    assert(key.skip(5) =~= encode_utf8(path));
}

/// Distinct paths have distinct file keys.
pub proof fn file_key_injective(a: Seq<char>, b: Seq<char>)
    requires
        spec_file_key(a) == spec_file_key(b),
    ensures
        a == b,
{
    file_key_strips_to_path(a);
    file_key_strips_to_path(b);
}

/// A file key never equals a member key, whatever the path and the node id.
pub proof fn file_and_member_keys_differ(path: Seq<char>, node_id: Seq<char>)
    ensures
        spec_file_key(path) != spec_member_key(node_id),
{
    assert(spec_file_key(path)[0] == 0x66u8);
    assert(spec_member_key(node_id)[0] == 0x6du8);
}

/// A file key is the five bytes `file/` followed by the path in UTF-8, whatever the path.
pub proof fn file_key_layout(path: Seq<char>)
    ensures
        spec_file_key(path) == seq![0x66u8, 0x69u8, 0x6cu8, 0x65u8, 0x2fu8] + encode_utf8(path),
        spec_file_key(path).len() == 5 + encode_utf8(path).len(),
        spec_file_key(path).take(5) == seq![0x66u8, 0x69u8, 0x6cu8, 0x65u8, 0x2fu8],
        spec_file_key(path).skip(5) == encode_utf8(path),
{
    let key = spec_file_key(path);
    assert(key.take(5) =~= seq![0x66u8, 0x69u8, 0x6cu8, 0x65u8, 0x2fu8]);
    assert(key.skip(5) =~= encode_utf8(path));
}

/// A member key is the seven bytes `member/` followed by the node id in UTF-8.
pub proof fn member_key_layout(node_id: Seq<char>)
    ensures
        spec_member_key(node_id) == seq![0x6du8, 0x65u8, 0x6du8, 0x62u8, 0x65u8, 0x72u8, 0x2fu8]
            + encode_utf8(node_id),
        spec_member_key(node_id).skip(7) == encode_utf8(node_id),
{
    assert(spec_member_key(node_id).skip(7) =~= encode_utf8(node_id));
}

/// Distinct node ids have distinct member keys.
pub proof fn member_key_injective(a: Seq<char>, b: Seq<char>)
    requires
        spec_member_key(a) == spec_member_key(b),
    ensures
        a == b,
{
    broadcast use encode_utf8_decode_utf8;
    member_key_layout(a);
    member_key_layout(b);
    assert(decode_utf8(encode_utf8(a)) == a);
    assert(decode_utf8(encode_utf8(b)) == b);
}

/// Stripping a key that is `file/` followed by valid UTF-8 removes exactly those five
/// bytes and nothing more.
pub proof fn strip_removes_exactly_the_prefix(rest: Seq<u8>)
    requires
        valid_utf8(rest),
    ensures
        valid_utf8(seq![0x66u8, 0x69u8, 0x6cu8, 0x65u8, 0x2fu8] + rest),
        spec_strip_file_prefix(seq![0x66u8, 0x69u8, 0x6cu8, 0x65u8, 0x2fu8] + rest) == rest,
{
    broadcast use valid_utf8_concat;
    let key = seq![0x66u8, 0x69u8, 0x6cu8, 0x65u8, 0x2fu8] + rest;
    assert(valid_utf8(file_prefix())) by {
        reveal_with_fuel(valid_utf8, 6);
    }
    assert(file_prefix() =~= seq![0x66u8, 0x69u8, 0x6cu8, 0x65u8, 0x2fu8]);
    assert(key.subrange(0, 5) =~= file_prefix());
    assert(key.skip(5) =~= rest);
}

/// A key that does not start with `file/` is left whole.
pub proof fn strip_keeps_unprefixed_keys(key: Seq<u8>)
    requires
        !(key.len() >= 5 && key.take(5) == seq![0x66u8, 0x69u8, 0x6cu8, 0x65u8, 0x2fu8]),
    ensures
        spec_strip_file_prefix(key) == key,
{
    if has_prefix(key, file_prefix()) {
        assert(key.take(5) =~= key.subrange(0, 5));
        assert(file_prefix() =~= seq![0x66u8, 0x69u8, 0x6cu8, 0x65u8, 0x2fu8]);
    }
}

} // verus!
