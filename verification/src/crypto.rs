use vstd::prelude::*;

use chacha20poly1305::aead::{Aead, KeyInit};
use chacha20poly1305::{ChaCha20Poly1305, Key, Nonce};
use rand::RngCore;

verus! {

/// Length in bytes of a room key.
pub const KEY_LEN: usize = 32;

/// Length in bytes of the nonce that leads every encrypted blob.
const NONCE_LEN: usize = 12;

/// The symmetric key that encrypts the files of one room.
pub type RoomKey = [u8; KEY_LEN];

#[verifier::external_type_specification]
#[verifier::external_body]
pub struct ExAeadError(chacha20poly1305::Error);

/// Why a blob could not be encrypted or decrypted.
#[derive(Debug, PartialEq, Eq, Structural)]
pub enum CryptoError {
    /// The cipher refused the plaintext (it is longer than ChaCha20 can count).
    EncryptFailed,
    /// The data is too short to hold a nonce.
    TooShort,
    /// The ciphertext did not authenticate under the key and nonce.
    DecryptFailed,
}

/// The ciphertext (with its 16-byte tag appended) that ChaCha20-Poly1305 computes for
/// `plaintext` under `key` and `nonce`, with no associated data.
pub uninterp spec fn chacha20poly1305_seal(key: Seq<u8>, nonce: Seq<u8>, plaintext: Seq<u8>) -> Seq<u8>;

/// The plaintext that ChaCha20-Poly1305 recovers from `ciphertext` under `key` and
/// `nonce`, with no associated data; `None` where the tag does not authenticate.
pub uninterp spec fn chacha20poly1305_open(key: Seq<u8>, nonce: Seq<u8>, ciphertext: Seq<u8>) -> Option<Seq<u8>>;

/// Whether ChaCha20 can encrypt a message of `len` bytes: its block counter must not overflow.
pub open spec fn within_cipher_limit(len: nat) -> bool {
    len / 64 < 0xffff_ffffnat
}

/// `altered` has the length of `sealed` and the same bytes but in the last 16 (the tag),
/// and differs from it there.
pub open spec fn only_tag_differs(sealed: Seq<u8>, altered: Seq<u8>) -> bool {
    &&& sealed.len() == altered.len()
    &&& sealed.len() >= 16
    &&& sealed.take(sealed.len() - 16) == altered.take(altered.len() - 16)
    &&& sealed != altered
}

/// `data` is a nonce of 12 bytes followed by the sealing of `plaintext` under `key` and that nonce.
pub open spec fn is_sealed_frame(key: Seq<u8>, plaintext: Seq<u8>, data: Seq<u8>) -> bool {
    &&& within_cipher_limit(plaintext.len())
    &&& exists|nonce: Seq<u8>|
        nonce.len() == 12 && data == nonce + #[trigger] chacha20poly1305_seal(key, nonce, plaintext)
}

/// Calls `ChaCha20Poly1305::new` on `key` and then `Aead::encrypt` with `nonce` and no
/// associated data. Per the source of chacha20poly1305 0.10 and aead 0.5, it fails exactly
/// when the plaintext has `u32::MAX` blocks of 64 bytes or more, and otherwise returns the
/// ciphertext with the 16-byte tag appended, 16 bytes longer than the plaintext.
#[verifier::external_body]
fn chacha_seal(key: &[u8; 32], nonce: &[u8; 12], plaintext: &[u8]) -> (r: Result<Vec<u8>, chacha20poly1305::Error>)
    ensures
        r is Ok <==> within_cipher_limit(plaintext@.len()),
        r matches Ok(c) ==> c@ == chacha20poly1305_seal(key@, nonce@, plaintext@),
        r matches Ok(c) ==> c@.len() == plaintext@.len() + 16,
{
    ChaCha20Poly1305::new(Key::from_slice(key)).encrypt(Nonce::from_slice(nonce), plaintext)
}

/// Calls `ChaCha20Poly1305::new` on `key` and then `Aead::decrypt` with `nonce` and no
/// associated data. Stated: input shorter than the 16-byte tag fails; as AEAD
/// correctness gives, the sealing of a plaintext under the same key and nonce opens to
/// that plaintext; and, since the source recomputes the tag over the ciphertext body and
/// compares it with the last 16 bytes, that sealing with only its tag changed fails.
/// What other inputs open to is left to the name `chacha20poly1305_open`.
#[verifier::external_body]
fn chacha_open(key: &[u8; 32], nonce: &[u8], ciphertext: &[u8]) -> (r: Result<Vec<u8>, chacha20poly1305::Error>)
    requires
        nonce@.len() == 12,
    ensures
        r is Ok <==> chacha20poly1305_open(key@, nonce@, ciphertext@) is Some,
        r matches Ok(p) ==> chacha20poly1305_open(key@, nonce@, ciphertext@) == Some(p@),
        ciphertext@.len() < 16 ==> r is Err,
        forall|p: Seq<u8>|
            within_cipher_limit(p.len()) && #[trigger] chacha20poly1305_seal(key@, nonce@, p)
                == ciphertext@ ==> r is Ok && r->Ok_0@ == p,
        forall|p: Seq<u8>|
            within_cipher_limit(p.len()) && only_tag_differs(
                #[trigger] chacha20poly1305_seal(key@, nonce@, p),
                ciphertext@,
            ) ==> r is Err,
{
    ChaCha20Poly1305::new(Key::from_slice(key)).decrypt(Nonce::from_slice(nonce), ciphertext)
}

/// Calls `rand::thread_rng()` and fills `buf` with its `fill_bytes`. Nothing is stated of
/// the bytes: they come from the thread's random generator.
#[verifier::external_body]
fn fill_random<const N: usize>(buf: &mut [u8; N]) {
    rand::thread_rng().fill_bytes(buf)
}

/// A fresh random room key.
pub fn generate_room_key() -> (key: RoomKey) {
    let mut key = [0u8; KEY_LEN];
    fill_random(&mut key);
    key
}

/// Encrypts `plaintext` under `key` with the given nonce: the nonce, then the ciphertext
/// with its tag.
pub fn encrypt_with_nonce(key: &RoomKey, nonce: &[u8; 12], plaintext: &[u8]) -> (r: Result<Vec<u8>, CryptoError>)
    ensures
        r is Ok <==> within_cipher_limit(plaintext@.len()),
        r matches Ok(out) ==> out@ == nonce@ + chacha20poly1305_seal(key@, nonce@, plaintext@),
        r matches Ok(out) ==> out@.len() == plaintext@.len() + 28,
        r matches Err(e) ==> e == CryptoError::EncryptFailed,
{
    match chacha_seal(key, nonce, plaintext) {
        Err(_) => Err(CryptoError::EncryptFailed),
        Ok(ciphertext) => {
            let mut out: Vec<u8> = Vec::new();
            crate::bytes::append_bytes(&mut out, nonce.as_slice());
            crate::bytes::append_bytes(&mut out, ciphertext.as_slice());
            Ok(out)
        }
    }
}

/// Encrypts `plaintext` under `key` with a fresh random nonce, which leads the output.
pub fn encrypt(key: &RoomKey, plaintext: &[u8]) -> (r: Result<Vec<u8>, CryptoError>)
    ensures
        r is Ok <==> within_cipher_limit(plaintext@.len()),
        r matches Ok(out) ==> is_sealed_frame(key@, plaintext@, out@),
        r matches Ok(out) ==> out@.len() == plaintext@.len() + 28,
        r matches Err(e) ==> e == CryptoError::EncryptFailed,
{
    let mut nonce = [0u8; NONCE_LEN];
    fill_random(&mut nonce);
    let r = encrypt_with_nonce(key, &nonce, plaintext);
    proof {
        if r is Ok {
            assert(nonce@.len() == 12);
            assert(r->Ok_0@ == nonce@ + chacha20poly1305_seal(key@, nonce@, plaintext@));
        }
    }
    r
}

/// Decrypts `data`, a nonce of 12 bytes followed by a ciphertext with its tag, under `key`.
/// What [`encrypt`] produced under the same key decrypts to the plaintext it was given.
pub fn decrypt(key: &RoomKey, data: &[u8]) -> (r: Result<Vec<u8>, CryptoError>)
    ensures
        data@.len() < 12 ==> r == Err::<Vec<u8>, CryptoError>(CryptoError::TooShort),
        data@.len() >= 12 ==> match chacha20poly1305_open(key@, data@.take(12), data@.skip(12)) {
            Some(p) => r is Ok && r->Ok_0@ == p,
            None => r == Err::<Vec<u8>, CryptoError>(CryptoError::DecryptFailed),
        },
        data@.len() < 28 ==> r is Err,
        forall|p: Seq<u8>| is_sealed_frame(key@, p, data@) ==> r is Ok && r->Ok_0@ == p,
        forall|p: Seq<u8>, frame: Seq<u8>|
            #[trigger] is_sealed_frame(key@, p, frame) && frame.len() >= 28 && #[trigger] only_tag_differs(
                frame,
                data@,
            ) ==> r is Err,
{
    if data.len() < NONCE_LEN {
        proof {
            assert forall|p: Seq<u8>| !is_sealed_frame(key@, p, data@) by {
                if is_sealed_frame(key@, p, data@) {
                    let n = choose|n: Seq<u8>| n.len() == 12 && data@ == n + #[trigger] chacha20poly1305_seal(key@, n, p);
                    assert(data@.len() >= 12);
                }
            }
        }
        return Err(CryptoError::TooShort);
    }
    let (nonce, ciphertext) = data.split_at(NONCE_LEN);
    assert(nonce@ == data@.take(12));
    assert(ciphertext@ == data@.skip(12));
    let opened = chacha_open(key, nonce, ciphertext);
    proof {
        assert forall|p: Seq<u8>| is_sealed_frame(key@, p, data@) implies opened is Ok && opened->Ok_0@ == p by {
            let n = choose|n: Seq<u8>| n.len() == 12 && data@ == n + #[trigger] chacha20poly1305_seal(key@, n, p);
            assert(data@.take(12) =~= n);
            assert(data@.skip(12) =~= chacha20poly1305_seal(key@, n, p));
        }
        assert forall|p: Seq<u8>, frame: Seq<u8>|
            #[trigger] is_sealed_frame(key@, p, frame) && frame.len() >= 28 && #[trigger] only_tag_differs(
                frame,
                data@,
            ) implies opened is Err by {
            let n = choose|n: Seq<u8>| n.len() == 12 && frame == n + #[trigger] chacha20poly1305_seal(key@, n, p);
            let sealed = chacha20poly1305_seal(key@, n, p);
            let len = data@.len();
            assert(frame.take(len - 16).take(12) =~= frame.take(12));
            assert(data@.take(len - 16).take(12) =~= data@.take(12));
            assert(frame.take(12) =~= n);
            assert(data@.take(12) =~= n);
            assert(sealed =~= frame.skip(12));
            assert(sealed.take(sealed.len() - 16) =~= frame.take(len - 16).skip(12));
            assert(ciphertext@.take(ciphertext@.len() - 16) =~= data@.take(len - 16).skip(12));
            assert(sealed != ciphertext@) by {
                if sealed == ciphertext@ {
                    assert(frame =~= data@);
                }
            }
            assert(only_tag_differs(sealed, ciphertext@));
        }
    }
    match opened {
        Ok(plaintext) => Ok(plaintext),
        Err(_) => Err(CryptoError::DecryptFailed),
    }
}

} // verus!
