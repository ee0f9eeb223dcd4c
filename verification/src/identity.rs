use vstd::prelude::*;

verus! {

/// What reading the node's key file gave.
pub enum KeyFileRead {
    /// The file's contents.
    Found(Vec<u8>),
    /// There is no key file yet.
    NotFound,
    /// Reading failed for another reason.
    Failed,
}

/// What to do with the outcome of reading the key file.
#[derive(Debug, PartialEq, Eq)]
pub enum KeyFileDecision {
    /// Use this secret key.
    UseKey([u8; 32]),
    /// Generate a new key and write it to the file.
    CreateKey,
    /// The file does not hold a 32-byte key: refuse it.
    Corrupt,
    /// Pass the read error on.
    PassError,
}

/// The secret key that a key file holds: exactly 32 bytes.
pub fn secret_key_from_file(bytes: &[u8]) -> (key: Option<[u8; 32]>)
    ensures
        key is Some <==> bytes@.len() == 32,
        key matches Some(k) ==> k@ == bytes@,
{
    if bytes.len() != 32 {
        return None;
    }
    let mut key = [0u8; 32];
    let mut i: usize = 0;
    while i < 32
        invariant
            bytes@.len() == 32,
            i <= 32,
            forall|j: int| 0 <= j < i ==> key@[j] == bytes@[j],
        decreases 32 - i,
    {
        key.set(i, bytes[i]);
        i = i + 1;
    }
    assert(key@ =~= bytes@);
    Some(key)
}

/// The decision on the node's key file: an existing file must hold exactly a 32-byte key,
/// a missing one is created, and any other read error is passed on.
pub fn decide_key_file(read: &KeyFileRead) -> (d: KeyFileDecision)
    ensures
        match read {
            KeyFileRead::Found(bytes) => if bytes@.len() == 32 {
                d matches KeyFileDecision::UseKey(k) && k@ == bytes@
            } else {
                d == KeyFileDecision::Corrupt
            },
            KeyFileRead::NotFound => d == KeyFileDecision::CreateKey,
            KeyFileRead::Failed => d == KeyFileDecision::PassError,
        },
{
    match read {
        KeyFileRead::Found(bytes) => match secret_key_from_file(bytes.as_slice()) {
            Some(key) => KeyFileDecision::UseKey(key),
            None => KeyFileDecision::Corrupt,
        },
        KeyFileRead::NotFound => KeyFileDecision::CreateKey,
        KeyFileRead::Failed => KeyFileDecision::PassError,
    }
}

} // verus!
