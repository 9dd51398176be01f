use aes_gcm::aead::{Aead, KeyInit};
use keygen::crypto::{decrypt, encrypt, generate_master_key, master_key_from_hex, CryptoError};
use keygen::keys::generate_key;
use keygen::text::to_hex_lower;

const KEY: [u8; 32] = [7u8; 32];

#[test]
fn master_key_is_32_random_bytes() {
    let a = generate_master_key();
    let b = generate_master_key();
    assert_eq!(a.len(), 32);
    assert_eq!(b.len(), 32);
    assert_ne!(a, b);
}

#[test]
fn decrypt_gives_back_what_encrypt_stored() {
    for text in ["", "hello", "f3a9c1", "ключ 🔑"] {
        let stored = encrypt(text, &KEY).unwrap();
        assert_eq!(stored.len(), 12 + text.len() + 16);
        assert_eq!(decrypt(&stored, &KEY), Ok(text.to_string()));
    }
}

#[test]
fn each_encryption_uses_a_fresh_nonce() {
    let a = encrypt("same", &KEY).unwrap();
    let b = encrypt("same", &KEY).unwrap();
    assert_ne!(a[..12], b[..12]);
    assert_eq!(decrypt(&a, &KEY), decrypt(&b, &KEY));
}

#[test]
fn short_value_is_refused() {
    assert_eq!(decrypt(&[1, 2, 3], &KEY), Err(CryptoError::CiphertextTooShort));
    assert_eq!(decrypt(&[0; 11], &[]), Err(CryptoError::CiphertextTooShort));
}

#[test]
fn tampered_or_foreign_value_does_not_decrypt() {
    let mut stored = encrypt("secret", &KEY).unwrap();
    assert_eq!(decrypt(&stored, &[8u8; 32]), Err(CryptoError::DecryptionFailed));
    let last = stored.len() - 1;
    stored[last] ^= 1;
    assert_eq!(decrypt(&stored, &KEY), Err(CryptoError::DecryptionFailed));
    assert_eq!(decrypt(&[0u8; 20], &KEY), Err(CryptoError::DecryptionFailed));
}

#[test]
fn decrypted_bytes_must_be_utf8() {
    let nonce = [3u8; 12];
    let cipher = aes_gcm::Aes256Gcm::new(aes_gcm::Key::<aes_gcm::Aes256Gcm>::from_slice(&KEY));
    let body = cipher.encrypt(aes_gcm::Nonce::from_slice(&nonce), &[0xff, 0xfe][..]).unwrap();
    let mut stored = nonce.to_vec();
    stored.extend_from_slice(&body);
    assert_eq!(decrypt(&stored, &KEY), Err(CryptoError::InvalidUtf8));
}

#[test]
fn stored_format_is_nonce_then_aes_gcm_ciphertext() {
    let stored = encrypt("abc", &KEY).unwrap();
    let cipher = aes_gcm::Aes256Gcm::new(aes_gcm::Key::<aes_gcm::Aes256Gcm>::from_slice(&KEY));
    let plain = cipher.decrypt(aes_gcm::Nonce::from_slice(&stored[..12]), &stored[12..]).unwrap();
    assert_eq!(plain, b"abc");
}

#[test]
fn hex_master_key() {
    assert_eq!(master_key_from_hex("00ff10"), Some(vec![0x00, 0xff, 0x10]));
    assert_eq!(master_key_from_hex("ABcd"), Some(vec![0xab, 0xcd]));
    assert_eq!(master_key_from_hex(""), Some(vec![]));
    assert_eq!(master_key_from_hex("abc"), None);
    assert_eq!(master_key_from_hex("0g"), None);
    assert_eq!(master_key_from_hex("é1"), None);
}

#[test]
fn generated_key_reads_back_as_its_bytes() {
    let key = generate_key();
    let bytes = master_key_from_hex(&key).unwrap();
    assert_eq!(bytes.len(), 32);
    assert_eq!(to_hex_lower(&bytes), key);
}
