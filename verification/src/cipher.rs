//! AES-256 in CBC mode with PKCS#7 padding, Base64, and UTF-8 decoding, as
//! the outside crates and the standard library provide them.
//!
//! Nothing in this file is proved. Each result is a function of the
//! arguments alone and is given a name; the contracts state no more of the
//! names than when a cipher can be made.

use aes::Aes256;
use base64::Engine;
use base64::engine::general_purpose::STANDARD;
use block_modes::{BlockMode, Cbc};
use block_modes::block_padding::Pkcs7;
use vstd::prelude::*;

verus! {

/// The AES-256-CBC encryption of `plaintext`, padded by PKCS#7, under `key`
/// with the initialisation vector `iv`; `None` where no cipher can be made
/// from `key` and `iv`.
pub uninterp spec fn cbc_encrypted(key: Seq<u8>, iv: Seq<u8>, plaintext: Seq<u8>) -> Option<Seq<u8>>;

/// The AES-256-CBC decryption of `ciphertext` under `key` with the
/// initialisation vector `iv`: `None` where no cipher can be made from `key`
/// and `iv`, else the plaintext without its padding, or the text of the
/// error where the ciphertext is no whole number of blocks or the padding is
/// wrong.
pub uninterp spec fn cbc_decrypted(key: Seq<u8>, iv: Seq<u8>, ciphertext: Seq<u8>) -> Option<
    Result<Seq<u8>, Seq<char>>,
>;

/// The standard Base64 encoding of `data`, with padding.
pub uninterp spec fn base64_encoded(data: Seq<u8>) -> Seq<char>;

/// The bytes that `text` encodes in standard Base64, or the text of the
/// error where `text` is no such encoding.
pub uninterp spec fn base64_decoded(text: Seq<char>) -> Result<Seq<u8>, Seq<char>>;

/// The text that `bytes` encode in UTF-8, or the text of the error where
/// they encode none.
pub uninterp spec fn utf8_decoded(bytes: Seq<u8>) -> Result<Seq<char>, Seq<char>>;

/// `BlockMode::new_from_slices` and `BlockMode::encrypt_vec` of
/// `block-modes`, for `Cbc<Aes256, Pkcs7>`. A cipher can be made from a key
/// of 32 bytes and an initialisation vector of 16.
#[verifier::external_body]
pub(crate) fn cbc_encrypt(key: &[u8], iv: &[u8], plaintext: &[u8]) -> (ciphertext: Option<Vec<u8>>)
    ensures
        ciphertext is Some == cbc_encrypted(key@, iv@, plaintext@) is Some,
        ciphertext is Some ==> ciphertext.unwrap()@ == cbc_encrypted(key@, iv@, plaintext@).unwrap(),
        key@.len() == 32 && iv@.len() == 16 ==> ciphertext is Some,
{
    match Cbc::<Aes256, Pkcs7>::new_from_slices(key, iv) {
        Ok(cipher) => Some(cipher.encrypt_vec(plaintext)),
        Err(_) => None,
    }
}

/// `BlockMode::new_from_slices` and `BlockMode::decrypt_vec` of
/// `block-modes`, for `Cbc<Aes256, Pkcs7>`. A cipher can be made from a key
/// of 32 bytes and an initialisation vector of 16.
#[verifier::external_body]
pub(crate) fn cbc_decrypt(key: &[u8], iv: &[u8], ciphertext: &[u8]) -> (plaintext: Option<Result<Vec<u8>, String>>)
    ensures
        bytes_or_text(plaintext) == cbc_decrypted(key@, iv@, ciphertext@),
        key@.len() == 32 && iv@.len() == 16 ==> plaintext is Some,
{
    match Cbc::<Aes256, Pkcs7>::new_from_slices(key, iv) {
        Ok(cipher) => match cipher.decrypt_vec(ciphertext) {
            Ok(bytes) => Some(Ok(bytes)),
            Err(error) => Some(Err(error.to_string())),
        },
        Err(_) => None,
    }
}

/// `Engine::encode` of `base64`, for the engine `STANDARD`.
#[verifier::external_body]
pub(crate) fn base64_encode(data: &[u8]) -> (text: String)
    ensures
        text@ == base64_encoded(data@),
{
    STANDARD.encode(data)
}

/// `Engine::decode` of `base64`, for the engine `STANDARD`.
#[verifier::external_body]
pub(crate) fn base64_decode(text: &str) -> (data: Result<Vec<u8>, String>)
    ensures
        bytes_or_message(data) == base64_decoded(text@),
{
    match STANDARD.decode(text) {
        Ok(bytes) => Ok(bytes),
        Err(error) => Err(error.to_string()),
    }
}

/// `String::from_utf8`.
#[verifier::external_body]
pub(crate) fn utf8_decode(bytes: Vec<u8>) -> (text: Result<String, String>)
    ensures
        text_or_message(text) == utf8_decoded(bytes@),
{
    match String::from_utf8(bytes) {
        Ok(decoded) => Ok(decoded),
        Err(error) => Err(error.to_string()),
    }
}

/// A result of bytes or an error's text, by its views.
pub open spec fn bytes_or_message(outcome: Result<Vec<u8>, String>) -> Result<Seq<u8>, Seq<char>> {
    match outcome {
        Ok(bytes) => Ok(bytes@),
        Err(message) => Err(message@),
    }
}

/// An optional result of bytes or an error's text, by its views.
pub open spec fn bytes_or_text(outcome: Option<Result<Vec<u8>, String>>) -> Option<Result<Seq<u8>, Seq<char>>> {
    match outcome {
        Some(inner) => Some(bytes_or_message(inner)),
        None => None,
    }
}

/// A result of a text or an error's text, by its views.
pub open spec fn text_or_message(outcome: Result<String, String>) -> Result<Seq<char>, Seq<char>> {
    match outcome {
        Ok(text) => Ok(text@),
        Err(message) => Err(message@),
    }
}

} // verus!
