use aes_gcm::aead::{Aead, KeyInit};
use base64::Engine;
use vstd::prelude::*;
use vstd::string::StringSliceAdditionalSpecFns;
use vstd::utf8::{decode_utf8, encode_utf8, valid_utf8};

verus! {

/// What AES-256-GCM gives for `plaintext` under `key` and `nonce`, the
/// authentication tag appended (no associated data).
pub uninterp spec fn aes_gcm_sealed(key: Seq<u8>, nonce: Seq<u8>, plaintext: Seq<u8>) -> Seq<u8>;

/// What AES-256-GCM decryption gives for `ciphertext` under `key` and
/// `nonce`; `None` when the tag does not authenticate it.
pub uninterp spec fn aes_gcm_opened(key: Seq<u8>, nonce: Seq<u8>, ciphertext: Seq<u8>) -> Option<Seq<u8>>;

/// The standard, padded base64 text of `bytes`.
pub uninterp spec fn base64_text(bytes: Seq<u8>) -> Seq<char>;

/// The bytes that the standard, padded base64 text `text` stands for;
/// `None` when it is not such a text.
pub uninterp spec fn base64_bytes(text: Seq<char>) -> Option<Seq<u8>>;

/// The longest plaintext that AES-GCM encrypts, in bytes.
pub const MAX_PLAINTEXT: u64 = 68719476736;

pub open spec fn opt_bytes(v: Option<Vec<u8>>) -> Option<Seq<u8>> {
    match v {
        Some(b) => Some(b@),
        None => None,
    }
}

/// Relies on `Aes256Gcm::new_from_slice`, which accepts a 32-byte key, and on
/// `Aead::encrypt` with a 12-byte nonce, which refuses only plaintexts over
/// `MAX_PLAINTEXT` bytes.
#[verifier::external_body]
fn aes_gcm_seal(key: &[u8], nonce: &[u8], plaintext: &[u8]) -> (r: Option<Vec<u8>>)
    requires
        key@.len() == 32,
        nonce@.len() == 12,
    ensures
        r matches Some(c) ==> c@ == aes_gcm_sealed(key@, nonce@, plaintext@),
        plaintext@.len() <= MAX_PLAINTEXT ==> r is Some,
{
    match aes_gcm::Aes256Gcm::new_from_slice(key) {
        Ok(cipher) => cipher.encrypt(aes_gcm::Nonce::from_slice(nonce), plaintext).ok(),
        Err(_) => None,
    }
}

/// Relies on `Aes256Gcm::new_from_slice`, which accepts a 32-byte key, and on
/// `Aead::decrypt` with a 12-byte nonce.
#[verifier::external_body]
fn aes_gcm_open(key: &[u8], nonce: &[u8], ciphertext: &[u8]) -> (r: Option<Vec<u8>>)
    requires
        key@.len() == 32,
        nonce@.len() == 12,
    ensures
        opt_bytes(r) == aes_gcm_opened(key@, nonce@, ciphertext@),
{
    match aes_gcm::Aes256Gcm::new_from_slice(key) {
        Ok(cipher) => cipher.decrypt(aes_gcm::Nonce::from_slice(nonce), ciphertext).ok(),
        Err(_) => None,
    }
}

/// Relies on `base64::Engine::encode` of the standard padded engine.
#[verifier::external_body]
fn base64_encode(bytes: &[u8]) -> (r: String)
    ensures
        r@ == base64_text(bytes@),
{
    base64::engine::general_purpose::STANDARD.encode(bytes)
}

/// Relies on `base64::Engine::decode` of the standard padded engine.
#[verifier::external_body]
fn base64_decode(text: &str) -> (r: Option<Vec<u8>>)
    ensures
        opt_bytes(r) == base64_bytes(text@),
{
    base64::engine::general_purpose::STANDARD.decode(text).ok()
}

/// Relies on `String::from_utf8`: it accepts exactly the valid UTF-8 byte
/// sequences and decodes them.
#[verifier::external_body]
fn utf8_string(bytes: Vec<u8>) -> (r: Option<String>)
    ensures
        r is Some <==> valid_utf8(bytes@),
        r matches Some(s) ==> s@ == decode_utf8(bytes@),
{
    String::from_utf8(bytes).ok()
}

/// Why a password could not be sealed or opened.
#[derive(Debug, Clone, Copy, PartialEq, Eq)]
pub enum CredentialError {
    /// The key is not 32 bytes, or the nonce not 12.
    InvalidKey,
    /// The password is too long to encrypt.
    TooLong,
    /// The stored text is not base64.
    NotBase64,
    /// The stored bytes are shorter than a nonce.
    TooShort,
    /// The key does not authenticate the stored bytes.
    Rejected,
    /// The decrypted bytes are not UTF-8.
    NotUtf8,
}

/// The stored form of a password: base64 of the nonce followed by the
/// AES-256-GCM encryption of the password's UTF-8 bytes.
pub open spec fn sealed_text(key: Seq<u8>, nonce: Seq<u8>, password: Seq<char>) -> Seq<char> {
    base64_text(nonce + aes_gcm_sealed(key, nonce, encode_utf8(password)))
}

/// Encrypts `password` under `key` with `nonce` (a fresh random value for
/// each password) into its stored form.
pub fn seal_password(key: &Vec<u8>, nonce: &Vec<u8>, password: &str) -> (r: Result<String, CredentialError>)
    ensures
        key@.len() != 32 || nonce@.len() != 12 ==> r == Err::<String, CredentialError>(
            CredentialError::InvalidKey,
        ),
        key@.len() == 32 && nonce@.len() == 12 && password.spec_bytes().len() <= MAX_PLAINTEXT
            ==> r is Ok,
        r matches Ok(s) ==> s@ == sealed_text(key@, nonce@, password@),
        r matches Err(e) ==> e == CredentialError::InvalidKey || e == CredentialError::TooLong,
{
    if key.len() != 32 || nonce.len() != 12 {
        return Err(CredentialError::InvalidKey);
    }
    let plaintext = password.as_bytes();
    let mut ciphertext = match aes_gcm_seal(key.as_slice(), nonce.as_slice(), plaintext) {
        Some(c) => c,
        None => return Err(CredentialError::TooLong),
    };
    let mut combined = nonce.clone();
    assert(combined@ =~= nonce@);
    combined.append(&mut ciphertext);
    Ok(base64_encode(combined.as_slice()))
}

/// What opening a stored password gives: the password, or why it fails.
pub open spec fn opened_password(key: Seq<u8>, stored: Seq<char>) -> Result<Seq<char>, CredentialError> {
    if key.len() != 32 {
        Err(CredentialError::InvalidKey)
    } else {
        match base64_bytes(stored) {
            None => Err(CredentialError::NotBase64),
            Some(bytes) => if bytes.len() < 12 {
                Err(CredentialError::TooShort)
            } else {
                match aes_gcm_opened(key, bytes.subrange(0, 12), bytes.subrange(12, bytes.len() as int)) {
                    None => Err(CredentialError::Rejected),
                    Some(plain) => if valid_utf8(plain) {
                        Ok(decode_utf8(plain))
                    } else {
                        Err(CredentialError::NotUtf8)
                    },
                }
            },
        }
    }
}

/// Opens the stored form of a password: decodes the base64, splits off the
/// 12-byte nonce, decrypts the rest under `key` and reads it as UTF-8.
pub fn open_password(key: &Vec<u8>, stored: &str) -> (r: Result<String, CredentialError>)
    ensures
        match (r, opened_password(key@, stored@)) {
            (Ok(s), Ok(t)) => s@ == t,
            (Err(e), Err(f)) => e == f,
            _ => false,
        },
{
    if key.len() != 32 {
        return Err(CredentialError::InvalidKey);
    }
    let mut nonce = match base64_decode(stored) {
        Some(b) => b,
        None => return Err(CredentialError::NotBase64),
    };
    if nonce.len() < 12 {
        return Err(CredentialError::TooShort);
    }
    let ciphertext = nonce.split_off(12);
    let plain = match aes_gcm_open(key.as_slice(), nonce.as_slice(), ciphertext.as_slice()) {
        Some(p) => p,
        None => return Err(CredentialError::Rejected),
    };
    match utf8_string(plain) {
        Some(s) => Ok(s),
        None => Err(CredentialError::NotUtf8),
    }
}

} // verus!
