//! Sealing messages under a passphrase, and hashing them.
//!
//! A sealed message is the Base64 encoding of a random initialisation vector
//! of 16 bytes followed by the AES-256-CBC encryption of the message under
//! the SHA-256 digest of the passphrase.

use crate::cipher::{
    base64_decode, base64_decoded, base64_encode, base64_encoded, cbc_decrypt, cbc_decrypted,
    cbc_encrypt, cbc_encrypted, utf8_decode, utf8_decoded,
};
use crate::digest::{hex, sha256, sha256_digest, sha256_hex};
use crate::random::random_bytes;
use crate::text::slice_of_bytes;
use vstd::prelude::*;
use vstd::string::StringSliceAdditionalSpecFns;

verus! {

/// The length of an initialisation vector in bytes.
pub const IV_LENGTH: usize = 16;

/// The length of a generated key in bytes.
pub const KEY_LENGTH: usize = 32;

/// What went wrong in sealing or opening a message.
#[derive(Debug)]
pub struct CryptoError(pub String);

impl CryptoError {
    /// The error in words: `Crypto error: ` and what went wrong.
    pub fn describe(&self) -> (text: String)
        ensures
            text@ == "Crypto error: "@ + self.0@,
    {
        "Crypto error: ".to_owned().concat(self.0.as_str())
    }
}

/// The sealed form of a message under a passphrase with the initialisation
/// vector `iv`, where a cipher can be made.
pub open spec fn sealed(message: Seq<u8>, passphrase: Seq<u8>, iv: Seq<u8>) -> Option<Seq<char>> {
    match cbc_encrypted(sha256(passphrase), iv, message) {
        Some(ciphertext) => Some(base64_encoded(iv + ciphertext)),
        None => None,
    }
}

/// What opening a sealed message under a passphrase gives: the message, or
/// what went wrong, in the order in which it is looked for.
pub open spec fn opened(text: Seq<char>, passphrase: Seq<u8>) -> Result<Seq<char>, Seq<char>> {
    match base64_decoded(text) {
        Err(error) => Err("Invalid base64: "@ + error),
        Ok(data) => if data.len() < IV_LENGTH {
            Err("Invalid encrypted data length"@)
        } else {
            match cbc_decrypted(
                sha256(passphrase),
                data.subrange(0, IV_LENGTH as int),
                data.subrange(IV_LENGTH as int, data.len() as int),
            ) {
                None => Err("Failed to create cipher"@),
                Some(Err(error)) => Err("Decryption failed: "@ + error),
                Some(Ok(plaintext)) => match utf8_decoded(plaintext) {
                    Err(error) => Err("Invalid UTF-8: "@ + error),
                    Ok(message) => Ok(message),
                },
            }
        },
    }
}

/// Seals a message under a passphrase with a given initialisation vector.
/// The result is `None` where no cipher can be made with the vector, which
/// does not happen with one of `IV_LENGTH` bytes.
pub fn seal(message: &str, key: &str, iv: &[u8]) -> (text: Option<String>)
    ensures
        match text {
            Some(text) => sealed(message.spec_bytes(), key.spec_bytes(), iv@) == Some(text@),
            None => sealed(message.spec_bytes(), key.spec_bytes(), iv@) is None,
        },
        iv@.len() == IV_LENGTH ==> text is Some,
{
    let key_bytes = sha256_digest(key.as_bytes());
    match cbc_encrypt(key_bytes.as_slice(), iv, message.as_bytes()) {
        Some(ciphertext) => {
            let mut result: Vec<u8> = Vec::new();
            result.extend_from_slice(iv);
            result.extend_from_slice(ciphertext.as_slice());
            assert(result@ =~= iv@ + ciphertext@);
            Some(base64_encode(result.as_slice()))
        },
        None => None,
    }
}

/// Seals a message under a passphrase with a random initialisation vector.
pub fn encrypt(message: &str, key: &str) -> (outcome: Result<String, CryptoError>)
    ensures
        outcome is Ok,
        exists|iv: Seq<u8>|
            iv.len() == IV_LENGTH && #[trigger] sealed(message.spec_bytes(), key.spec_bytes(), iv) == Some(
                outcome.unwrap()@,
            ),
{
    let iv = random_bytes(IV_LENGTH);
    match seal(message, key, iv.as_slice()) {
        Some(text) => Ok(text),
        None => Err(CryptoError("Failed to create cipher".to_owned())),
    }
}

/// Opens a sealed message under a passphrase.
pub fn decrypt(encrypted_message: &str, key: &str) -> (outcome: Result<String, CryptoError>)
    ensures
        match outcome {
            Ok(message) => opened(encrypted_message@, key.spec_bytes()) == Ok::<Seq<char>, Seq<char>>(message@),
            Err(error) => opened(encrypted_message@, key.spec_bytes()) == Err::<Seq<char>, Seq<char>>(error.0@),
        },
{
    let key_bytes = sha256_digest(key.as_bytes());
    let data = match base64_decode(encrypted_message) {
        Ok(data) => data,
        Err(error) => {
            return Err(CryptoError("Invalid base64: ".to_owned().concat(error.as_str())));
        },
    };
    if data.len() < IV_LENGTH {
        return Err(CryptoError("Invalid encrypted data length".to_owned()));
    }
    let iv = slice_of_bytes(data.as_slice(), 0, IV_LENGTH);
    let ciphertext = slice_of_bytes(data.as_slice(), IV_LENGTH, data.len());
    let plaintext = match cbc_decrypt(key_bytes.as_slice(), iv.as_slice(), ciphertext.as_slice()) {
        Some(Ok(plaintext)) => plaintext,
        Some(Err(error)) => {
            return Err(CryptoError("Decryption failed: ".to_owned().concat(error.as_str())));
        },
        None => {
            return Err(CryptoError("Failed to create cipher".to_owned()));
        },
    };
    match utf8_decode(plaintext) {
        Ok(message) => Ok(message),
        Err(error) => Err(CryptoError("Invalid UTF-8: ".to_owned().concat(error.as_str()))),
    }
}

/// A new random key of 32 bytes, in Base64.
pub fn generate_key() -> (key: String)
    ensures
        exists|bytes: Seq<u8>| bytes.len() == KEY_LENGTH && key@ == #[trigger] base64_encoded(bytes),
{
    let bytes = random_bytes(KEY_LENGTH);
    base64_encode(bytes.as_slice())
}

/// The SHA-256 digest of a message in lower-case hexadecimal.
pub fn hash_message(message: &str) -> (digest: String)
    ensures
        digest@ == hex(sha256(message.spec_bytes())),
        digest@.len() == 64,
{
    sha256_hex(message.as_bytes())
}

} // verus!
