use analysis_backend::crypto::{decrypt, encrypt, generate_key, hash_message, seal, CryptoError};
use analysis_backend::digest::{sha256_hex, to_hex};

#[test]
fn test_encryption_decryption() {
    let message = "Hello, World! This is a test message.";
    let key = "test_key_123";

    let encrypted = encrypt(message, key).unwrap();
    let decrypted = decrypt(&encrypted, key).unwrap();

    assert_eq!(message, decrypted);
}

#[test]
fn test_key_generation() {
    let key1 = generate_key();
    let key2 = generate_key();

    assert_ne!(key1, key2);
    assert_eq!(key1.len(), 44); // base64 encoded 32 bytes
}

#[test]
fn test_message_hashing() {
    let message = "Test message";
    let hash1 = hash_message(message);
    let hash2 = hash_message(message);

    assert_eq!(hash1, hash2);
    assert_eq!(hash1.len(), 64); // SHA-256 hex string
}

#[test]
fn hashing_known_values() {
    assert_eq!(hash_message("abc"), "ba7816bf8f01cfea414140de5dae2223b00361a396177a9cb410ff61f20015ad");
    assert_eq!(sha256_hex(b""), "e3b0c44298fc1c149afbf4c8996fb92427ae41e4649b934ca495991b7852b855");
    assert_eq!(to_hex(&[0x00, 0x0f, 0xa0, 0xff, 0x10]), "000fa0ff10");
    assert_eq!(to_hex(&[]), "");
}

#[test]
fn sealing_with_a_known_vector() {
    // AES-256-CBC, key = SHA-256("k"), iv = 16 zero bytes, one block of padding.
    let sealed = seal("", "k", &[0u8; 16]).unwrap();
    assert_eq!(sealed.len(), 44);
    assert!(sealed.starts_with("AAAAAAAAAAAAAAAAAAAAA"));
    assert_eq!(decrypt(&sealed, "k").unwrap(), "");
    let again = seal("", "k", &[0u8; 16]).unwrap();
    assert_eq!(sealed, again);
    let other_iv = seal("", "k", &[1u8; 16]).unwrap();
    assert_ne!(sealed, other_iv);
    assert_eq!(decrypt(&other_iv, "k").unwrap(), "");
    assert!(seal("m", "k", &[0u8; 15]).is_none());
    assert!(seal("m", "k", &[0u8; 17]).is_none());
    let long = seal("héllo wörld, sixteen+ bytes", "k", &[7u8; 16]).unwrap();
    assert_eq!(decrypt(&long, "k").unwrap(), "héllo wörld, sixteen+ bytes");
}

#[test]
fn random_vectors_differ() {
    let a = encrypt("same message", "key").unwrap();
    let b = encrypt("same message", "key").unwrap();
    assert_ne!(a, b);
    assert_eq!(decrypt(&a, "key").unwrap(), "same message");
    assert_eq!(decrypt(&b, "key").unwrap(), "same message");
}

fn message_of(outcome: Result<String, CryptoError>) -> String {
    match outcome {
        Ok(text) => panic!("opened as {:?}", text),
        Err(error) => error.0,
    }
}

#[test]
fn opening_fails_in_order() {
    assert!(message_of(decrypt("not base64!", "k")).starts_with("Invalid base64: "));
    // 15 bytes
    assert_eq!(message_of(decrypt("AAAAAAAAAAAAAAAAAAAA", "k")), "Invalid encrypted data length");
    assert_eq!(message_of(decrypt("", "k")), "Invalid encrypted data length");
    // 16 bytes of vector and 5 bytes that are no block
    assert!(message_of(decrypt("AAAAAAAAAAAAAAAAAAAAAAAAAAAA", "k")).starts_with("Decryption failed: "));
    // 16 bytes of vector and no ciphertext: no padding to take off
    assert!(message_of(decrypt("AAAAAAAAAAAAAAAAAAAAAA==", "k")).starts_with("Decryption failed: "));
    // the wrong passphrase
    let sealed = encrypt("a message of more than one block, to be sure", "right").unwrap();
    let outcome = decrypt(&sealed, "wrong");
    assert!(outcome.is_err() || outcome.unwrap() != "a message of more than one block, to be sure");
    let error = CryptoError("x".to_string());
    assert_eq!(error.describe(), "Crypto error: x");
}
