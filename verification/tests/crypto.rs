use haul_core::crypto::{decrypt, encrypt, encrypt_with_nonce, generate_room_key, CryptoError};

#[test]
fn encrypt_decrypt_roundtrip() {
    let key = generate_room_key();
    let plaintext = b"hello haul";
    let ciphertext = encrypt(&key, plaintext).expect("encrypt succeeds");
    let recovered = decrypt(&key, &ciphertext).expect("decrypt succeeds");
    assert_eq!(recovered, plaintext);
}

#[test]
fn encrypt_produces_different_ciphertext_each_call() {
    let key = generate_room_key();
    let plaintext = b"same plaintext";
    let c1 = encrypt(&key, plaintext).expect("encrypt succeeds");
    let c2 = encrypt(&key, plaintext).expect("encrypt succeeds");
    // nonces differ → ciphertexts differ
    assert_ne!(c1, c2);
}

#[test]
fn decrypt_wrong_key_fails() {
    let key = generate_room_key();
    let other_key = generate_room_key();
    let ciphertext = encrypt(&key, b"secret").expect("encrypt succeeds");
    assert!(decrypt(&other_key, &ciphertext).is_err());
}

#[test]
fn decrypt_truncated_data_fails() {
    let key = generate_room_key();
    // fewer bytes than NONCE_LEN
    assert!(decrypt(&key, &[0u8; 4]).is_err());
}

#[test]
fn decrypt_tampered_ciphertext_fails() {
    let key = generate_room_key();
    let mut ciphertext = encrypt(&key, b"secret data").expect("encrypt succeeds");
    // flip a byte in the ciphertext portion (after nonce)
    let last = ciphertext.len() - 1;
    ciphertext[last] ^= 0xff;
    assert!(decrypt(&key, &ciphertext).is_err());
}

#[test]
fn encrypt_empty_plaintext() {
    let key = generate_room_key();
    let ciphertext = encrypt(&key, b"").expect("encrypt succeeds");
    let recovered = decrypt(&key, &ciphertext).expect("decrypt succeeds");
    assert_eq!(recovered, b"");
}

#[test]
fn generated_keys_are_unique() {
    let k1 = generate_room_key();
    let k2 = generate_room_key();
    assert_ne!(k1, k2);
}

#[test]
fn encrypted_frame_length_and_nonce() {
    let key = [7u8; 32];
    let nonce = [9u8; 12];
    let out = encrypt_with_nonce(&key, &nonce, b"abc").expect("encrypt succeeds");
    assert_eq!(out.len(), 3 + 28);
    assert_eq!(&out[..12], &nonce[..]);
    // the cipher changes the message
    assert_ne!(&out[12..15], b"abc");
    assert_eq!(decrypt(&key, &out), Ok(b"abc".to_vec()));
    let again = encrypt_with_nonce(&key, &nonce, b"abc").expect("encrypt succeeds");
    assert_eq!(out, again);
}

#[test]
fn encrypted_length_is_plaintext_plus_overhead() {
    let key = generate_room_key();
    let c = encrypt(&key, &[1u8; 100]).expect("encrypt succeeds");
    assert_eq!(c.len(), 128);
}

#[test]
fn decrypt_error_kinds() {
    let key = [1u8; 32];
    assert_eq!(decrypt(&key, &[0u8; 11]), Err(CryptoError::TooShort));
    assert_eq!(decrypt(&key, &[0u8; 12]), Err(CryptoError::DecryptFailed));
    assert_eq!(decrypt(&key, &[0u8; 27]), Err(CryptoError::DecryptFailed));
    assert_eq!(decrypt(&key, &[0u8; 60]), Err(CryptoError::DecryptFailed));
}

#[test]
fn decrypt_rejects_any_changed_tag_byte() {
    let key = [3u8; 32];
    let nonce = [4u8; 12];
    let frame = encrypt_with_nonce(&key, &nonce, b"tagged message").expect("encrypt succeeds");
    for i in frame.len() - 16..frame.len() {
        let mut altered = frame.clone();
        altered[i] ^= 0x01;
        assert_eq!(decrypt(&key, &altered), Err(CryptoError::DecryptFailed));
    }
    assert_eq!(decrypt(&key, &frame), Ok(b"tagged message".to_vec()));
}
