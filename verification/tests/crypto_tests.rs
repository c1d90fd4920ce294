use aes_gcm::aead::{Aead, AeadCore, KeyInit, OsRng};
use aes_gcm::{Aes256Gcm, Key, Nonce};
use base64::engine::general_purpose::STANDARD as BASE64;
use base64::Engine;
use hmac::{Hmac, Mac};
use riposte_social::crypto::{
    decrypt_field, decrypt_token, decrypt_totp_secret, decrypt_value, encrypt_token,
    encrypt_totp_secret, encrypt_value, hmac_phone, validate_encryption_key, CryptoError,
    EncryptionKey,
};

fn generate_encryption_key() -> String {
    let key = Aes256Gcm::generate_key(OsRng);
    hex::encode(key.as_slice())
}

const KEY_A: &str = "000102030405060708090a0b0c0d0e0f101112131415161718191a1b1c1d1e1f";
const KEY_B: &str = "ff0102030405060708090a0b0c0d0e0f101112131415161718191a1b1c1d1e1f";

#[test]
fn test_generate_key_length() {
    let key = generate_encryption_key();
    assert_eq!(key.len(), 64, "Key should be 64 hex characters (32 bytes)");
}

#[test]
fn test_encrypt_decrypt_roundtrip() {
    let test_key_hex = generate_encryption_key();

    let key_bytes = hex::decode(&test_key_hex).unwrap();
    let key: [u8; 32] = key_bytes.try_into().unwrap();
    let key = Key::<Aes256Gcm>::from(key);

    let secret = "JBSWY3DPEHPK3PXP";

    let cipher = Aes256Gcm::new(&key);
    let nonce = Aes256Gcm::generate_nonce(&mut OsRng);
    let ciphertext = cipher.encrypt(&nonce, secret.as_bytes()).unwrap();

    let mut combined = Vec::new();
    combined.extend_from_slice(&nonce);
    combined.extend_from_slice(&ciphertext);
    let encrypted = BASE64.encode(&combined);

    let decoded = BASE64.decode(&encrypted).unwrap();
    let (nonce_bytes, ct) = decoded.split_at(12);
    let nonce = Nonce::from_slice(nonce_bytes);
    let decrypted = cipher.decrypt(nonce, ct).unwrap();

    assert_eq!(String::from_utf8(decrypted).unwrap(), secret);
}

#[test]
fn library_roundtrip_through_every_kind() {
    let key = EncryptionKey::from_hex(KEY_A).unwrap();
    let s = encrypt_totp_secret(&key, "JBSWY3DPEHPK3PXP").unwrap();
    assert_eq!(decrypt_totp_secret(&key, &s).unwrap(), "JBSWY3DPEHPK3PXP");
    let t = encrypt_token(&key, "token-123").unwrap();
    assert_eq!(decrypt_token(&key, &t).unwrap(), "token-123");
    let v = encrypt_value(&key, "héllo wörld").unwrap();
    assert_eq!(decrypt_value(&key, &v).unwrap(), "héllo wörld");
    // The stored form is base64 of a 12-byte nonce, the ciphertext and a 16-byte tag.
    assert_eq!(BASE64.decode(&v).unwrap().len(), 12 + "héllo wörld".len() + 16);
}

#[test]
fn two_encryptions_differ_but_both_decrypt() {
    let key = EncryptionKey::from_hex(KEY_A).unwrap();
    let a = encrypt_value(&key, "same").unwrap();
    let b = encrypt_value(&key, "same").unwrap();
    assert_ne!(a, b);
    assert_eq!(decrypt_value(&key, &a).unwrap(), "same");
    assert_eq!(decrypt_value(&key, &b).unwrap(), "same");
}

#[test]
fn another_key_cannot_decrypt() {
    let a = EncryptionKey::from_hex(KEY_A).unwrap();
    let b = EncryptionKey::from_hex(KEY_B).unwrap();
    let s = encrypt_token(&a, "secret").unwrap();
    match decrypt_token(&b, &s) {
        Err(e @ CryptoError::DecryptionFailed { .. }) => assert_eq!(
            e.message(),
            "Failed to decrypt token - the data may be corrupted or the encryption key may have changed"
        ),
        other => panic!("unexpected {:?}", other),
    }
}

#[test]
fn malformed_stored_values_are_reported() {
    let key = EncryptionKey::from_hex(KEY_A).unwrap();
    match decrypt_value(&key, "***") {
        Err(e @ CryptoError::NotBase64 { .. }) => {
            assert_eq!(e.message(), "Failed to decode stored setting value as base64")
        }
        other => panic!("unexpected {:?}", other),
    }
    let short = BASE64.encode([0u8; 12]);
    match decrypt_totp_secret(&key, &short) {
        Err(e @ CryptoError::TooShort { len: 12, .. }) => assert_eq!(
            e.message(),
            "Encrypted TOTP secret is too short: expected at least 13 bytes, got 12"
        ),
        other => panic!("unexpected {:?}", other),
    }
}

#[test]
fn decrypt_field_falls_back_to_unreadable() {
    let key = EncryptionKey::from_hex(KEY_A).unwrap();
    assert_eq!(decrypt_field(&key, "not base64!"), "[unreadable]");
    let s = encrypt_value(&key, "+15551234567").unwrap();
    assert_eq!(decrypt_field(&key, &s), "+15551234567");
}

#[test]
fn key_validation() {
    assert!(matches!(validate_encryption_key(None), Err(CryptoError::KeyUnavailable)));
    assert!(matches!(validate_encryption_key(Some("abcd")), Err(CryptoError::KeyUnavailable)));
    assert!(matches!(validate_encryption_key(Some(&"zz".repeat(32))), Err(CryptoError::KeyUnavailable)));
    assert!(validate_encryption_key(Some(KEY_A)).is_ok());
    // Upper-case hex digits are accepted too.
    assert!(validate_encryption_key(Some(&KEY_A.to_uppercase())).is_ok());
    assert_eq!(
        CryptoError::KeyUnavailable.message(),
        "SECURE_VALUES_KEY is not set or invalid. It must be a 64-character hex string (32 bytes)."
    );
}

#[test]
fn phone_token_is_hex_hmac() {
    let key = EncryptionKey::from_hex(KEY_A).unwrap();
    let t = hmac_phone(&key, "+15551234567");
    let mut mac = <Hmac<sha2::Sha256> as Mac>::new_from_slice(&hex::decode(KEY_A).unwrap()).unwrap();
    mac.update(b"phone-verify:+15551234567");
    let expected = hex::encode(mac.finalize().into_bytes());
    assert_eq!(t, expected);
    assert_eq!(t.len(), 64);
    assert_eq!(hmac_phone(&key, "+15551234567"), t);
    assert_ne!(hmac_phone(&key, "+15551234568"), t);
}
