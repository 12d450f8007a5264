//! Password-based encryption of text at rest.
//!
//! A text is sealed with AES-256-GCM under a key that Argon2 derives from
//! the password and a 16-byte salt. What is stored is the hexadecimal text
//! of salt, 12-byte nonce and sealed bytes, in that order.

use vstd::prelude::*;
use vstd::slice::{slice_subrange, slice_to_vec};
use vstd::utf8::{decode_utf8, encode_utf8, encode_utf8_decode_utf8, encode_utf8_valid_utf8, valid_utf8};
use aes_gcm::aead::{Aead, KeyInit, OsRng};
use aes_gcm::{Aes256Gcm, Key, Nonce};
use argon2::password_hash::{PasswordHash, PasswordHasher, PasswordVerifier, SaltString};
use argon2::Argon2;
use rand::RngCore;
use crate::error::AppError;
use crate::text::string_from_utf8;
use crate::hex_codec::{hex_decode, hex_decoding, hex_encode, hex_encoding, hex_round_trip};

verus! {

/// Bytes of salt in front of a sealed text.
pub const SALT_LEN: usize = 16;

/// Bytes of nonce after the salt.
pub const NONCE_LEN: usize = 12;

/// Bytes of key that the cipher takes.
pub const KEY_LEN: usize = 32;

/// Bytes of tag that the cipher puts behind a ciphertext.
pub const TAG_LEN: usize = 16;

/// The longest password, in bytes, that Argon2 takes.
pub const MAX_PASSWORD_BYTES: u64 = 0xFFFF_FFFF;

/// The longest plaintext, in bytes, that the cipher takes.
pub const MAX_PLAINTEXT_BYTES: u64 = 0x10_0000_0000;

/// The output of Argon2id with its default parameters for a password and a
/// salt; `None` where the hasher refuses them.
pub uninterp spec fn argon2_output(password: Seq<u8>, salt: Seq<u8>) -> Option<Seq<u8>>;

/// What AES-256-GCM makes of a plaintext under a key and a nonce: the
/// ciphertext followed by its tag; `None` where the cipher refuses.
pub uninterp spec fn aes256_gcm_sealed(key: Seq<u8>, nonce: Seq<u8>, plaintext: Seq<u8>) -> Option<
    Seq<u8>,
>;

/// What AES-256-GCM recovers from sealed bytes under a key and a nonce;
/// `None` where the tag does not authenticate them.
pub uninterp spec fn aes256_gcm_opened(key: Seq<u8>, nonce: Seq<u8>, sealed: Seq<u8>) -> Option<
    Seq<u8>,
>;

/// Whether Argon2 accepts a password against a hash in PHC text form; `None`
/// where the text is no such hash.
pub uninterp spec fn argon2_accepts(password: Seq<u8>, phc: Seq<char>) -> Option<bool>;

/// Fills a fresh buffer of `n` bytes with `OsRng.fill_bytes`. Trusted: the
/// buffer has `n` bytes; nothing is assumed of what they are.
#[verifier::external_body]
fn random_bytes(n: usize) -> (bytes: Vec<u8>)
    ensures
        bytes@.len() == n,
{
    let mut bytes = vec![0u8; n];
    OsRng.fill_bytes(&mut bytes);
    bytes
}

/// Encodes the salt with `SaltString::encode_b64`, calls
/// `Argon2::default().hash_password` and hands out the bytes of the hash
/// together with the hash in PHC text form; `None` where either returns an
/// error or no hash is produced. Trusted: the bytes are those named by
/// `argon2_output`, 32 of them; Argon2 accepts the password against the
/// text; and a password of at most `MAX_PASSWORD_BYTES` bytes is not refused.
#[verifier::external_body]
fn argon2_hash(password: &[u8], salt: &[u8]) -> (hash: Option<(Vec<u8>, String)>)
    requires
        salt@.len() == SALT_LEN,
    ensures
        match hash {
            Some(h) => argon2_output(password@, salt@) == Some(h.0@) && h.0@.len() == KEY_LEN
                && argon2_accepts(password@, h.1@) == Some(true),
            None => argon2_output(password@, salt@) is None,
        },
        password@.len() <= MAX_PASSWORD_BYTES ==> hash is Some,
{
    let salt_string = SaltString::encode_b64(salt).ok()?;
    let hash = Argon2::default().hash_password(password, &salt_string).ok()?;
    Some((hash.hash?.as_bytes().to_vec(), hash.to_string()))
}

/// Calls `Aes256Gcm::encrypt` on a cipher made with `Aes256Gcm::new`; `None`
/// where it returns an error. Trusted: the outcome is the one named by
/// `aes256_gcm_sealed`; what it seals is 16 bytes longer than the plaintext
/// and opens to the plaintext under the same key and nonce; and a plaintext
/// of at most `MAX_PLAINTEXT_BYTES` bytes is not refused.
#[verifier::external_body]
fn aes256_gcm_seal(key: &[u8], nonce: &[u8], plaintext: &[u8]) -> (sealed: Option<Vec<u8>>)
    requires
        key@.len() == KEY_LEN,
        nonce@.len() == NONCE_LEN,
    ensures
        match sealed {
            Some(c) => aes256_gcm_sealed(key@, nonce@, plaintext@) == Some(c@),
            None => aes256_gcm_sealed(key@, nonce@, plaintext@) is None,
        },
        sealed matches Some(c) ==> c@.len() == plaintext@.len() + TAG_LEN && aes256_gcm_opened(
            key@,
            nonce@,
            c@,
        ) == Some(plaintext@),
        plaintext@.len() <= MAX_PLAINTEXT_BYTES ==> sealed is Some,
{
    let cipher = Aes256Gcm::new(Key::<Aes256Gcm>::from_slice(key));
    cipher.encrypt(Nonce::from_slice(nonce), plaintext).ok()
}

/// Calls `Aes256Gcm::decrypt` on a cipher made with `Aes256Gcm::new`; `None`
/// where it returns an error. Trusted: the outcome is the one named by
/// `aes256_gcm_opened`.
#[verifier::external_body]
fn aes256_gcm_open(key: &[u8], nonce: &[u8], sealed: &[u8]) -> (plaintext: Option<Vec<u8>>)
    requires
        key@.len() == KEY_LEN,
        nonce@.len() == NONCE_LEN,
    ensures
        match plaintext {
            Some(p) => aes256_gcm_opened(key@, nonce@, sealed@) == Some(p@),
            None => aes256_gcm_opened(key@, nonce@, sealed@) is None,
        },
{
    let cipher = Aes256Gcm::new(Key::<Aes256Gcm>::from_slice(key));
    cipher.decrypt(Nonce::from_slice(nonce), sealed).ok()
}

/// Parses PHC text with `PasswordHash::new` and calls
/// `Argon2::default().verify_password`; `None` where the text does not
/// parse, else whether the password was accepted. Trusted: the outcome is the
/// one named by `argon2_accepts`.
#[verifier::external_body]
fn argon2_phc_verify(password: &[u8], phc: &str) -> (accepted: Option<bool>)
    ensures
        accepted == argon2_accepts(password@, phc@),
{
    let parsed = PasswordHash::new(phc).ok()?;
    Some(Argon2::default().verify_password(password, &parsed).is_ok())
}

/// The key for a password and a salt: the first 32 bytes of the Argon2
/// output.
pub open spec fn derived_key(password: Seq<char>, salt: Seq<u8>) -> Option<Seq<u8>> {
    match argon2_output(encode_utf8(password), salt) {
        Some(h) => if h.len() >= KEY_LEN {
            Some(h.take(KEY_LEN as int))
        } else {
            None
        },
        None => None,
    }
}

/// The stored form of `data` sealed under `password` with the given salt and
/// nonce; `None` where salt or nonce have the wrong length or a primitive
/// refuses.
pub open spec fn sealed_text(
    data: Seq<char>,
    password: Seq<char>,
    salt: Seq<u8>,
    nonce: Seq<u8>,
) -> Option<Seq<char>> {
    if salt.len() != SALT_LEN || nonce.len() != NONCE_LEN {
        None
    } else {
        match derived_key(password, salt) {
            None => None,
            Some(key) => match aes256_gcm_sealed(key, nonce, encode_utf8(data)) {
                None => None,
                Some(sealed) => Some(hex_encoding(salt + nonce + sealed)),
            },
        }
    }
}

/// The text that a stored form opens to under `password`; `None` where the
/// stored form is not hexadecimal, is shorter than salt and nonce, does not
/// authenticate under the derived key, or does not hold UTF-8.
pub open spec fn opened_text(stored: Seq<char>, password: Seq<char>) -> Option<Seq<char>> {
    match hex_decoding(stored) {
        None => None,
        Some(bytes) => if bytes.len() < SALT_LEN + NONCE_LEN {
            None
        } else {
            let salt = bytes.subrange(0, SALT_LEN as int);
            let nonce = bytes.subrange(SALT_LEN as int, SALT_LEN + NONCE_LEN);
            let sealed = bytes.subrange(SALT_LEN + NONCE_LEN, bytes.len() as int);
            match derived_key(password, salt) {
                None => None,
                Some(key) => match aes256_gcm_opened(key, nonce, sealed) {
                    None => None,
                    Some(plain) => if valid_utf8(plain) {
                        Some(decode_utf8(plain))
                    } else {
                        None
                    },
                },
            }
        },
    }
}

/// Whether `data` and `password` are within what the primitives take: the
/// password at most `MAX_PASSWORD_BYTES` bytes of UTF-8, the text at most
/// `MAX_PLAINTEXT_BYTES`.
pub open spec fn sealable(data: Seq<char>, password: Seq<char>) -> bool {
    encode_utf8(password).len() <= MAX_PASSWORD_BYTES && encode_utf8(data).len()
        <= MAX_PLAINTEXT_BYTES
}

/// Whether sealing `data` under `password` fails for some salt and nonce of
/// the right lengths, that is whether a primitive refuses them.
pub open spec fn sealing_can_fail(data: Seq<char>, password: Seq<char>) -> bool {
    exists|salt: Seq<u8>, nonce: Seq<u8>|
        salt.len() == SALT_LEN && nonce.len() == NONCE_LEN && #[trigger] sealed_text(
            data,
            password,
            salt,
            nonce,
        ) is None
}

/// Whether Argon2 refuses `password` under some salt of the right length.
pub open spec fn hashing_can_fail(password: Seq<char>) -> bool {
    exists|salt: Seq<u8>|
        salt.len() == SALT_LEN && #[trigger] argon2_output(encode_utf8(password), salt) is None
}

/// How long the stored form of `data` is: two hexadecimal digits for every
/// byte of salt, nonce, text in UTF-8 and tag.
pub open spec fn sealed_len(data: Seq<char>) -> nat {
    (2 * (SALT_LEN + NONCE_LEN + encode_utf8(data).len() + TAG_LEN)) as nat
}

/// A text takes at least one byte of UTF-8 for every character.
pub proof fn utf8_is_no_shorter(text: Seq<char>)
    ensures
        encode_utf8(text).len() >= text.len(),
    decreases text.len(),
{
    if text.len() > 0 {
        utf8_is_no_shorter(text.drop_first());
    }
}

/// The stored form of a text is longer than the text, and so never the text
/// itself.
pub proof fn sealed_text_is_longer(data: Seq<char>)
    ensures
        sealed_len(data) > data.len(),
{
    utf8_is_no_shorter(data);
}

/// Encrypts and decrypts text under a password.
pub struct EncryptionService;

impl EncryptionService {
    pub fn new() -> (s: Self) {
        EncryptionService
    }

    /// Derives the 256-bit key for a password and a 16-byte salt.
    fn derive_key(&self, password: &str, salt: &[u8]) -> (key: Option<Vec<u8>>)
        requires
            salt@.len() == SALT_LEN,
        ensures
            match key {
                Some(k) => derived_key(password@, salt@) == Some(k@) && k@.len() == KEY_LEN,
                None => derived_key(password@, salt@) is None,
            },
            encode_utf8(password@).len() <= MAX_PASSWORD_BYTES ==> key is Some,
    {
        match argon2_hash(password.as_bytes(), salt) {
            Some(hash) => {
                let bytes = hash.0;
                if bytes.len() >= KEY_LEN {
                    let key = slice_to_vec(slice_subrange(bytes.as_slice(), 0, KEY_LEN));
                    Some(key)
                } else {
                    None
                }
            },
            None => None,
        }
    }

    /// Seals `data` under `password` with a given salt and nonce.
    ///
    /// The result is the stored form named by `sealed_text`, and it opens to
    /// `data` again under the same password.
    pub fn encrypt_with(&self, data: &str, password: &str, salt: &[u8], nonce: &[u8]) -> (r: Result<
        String,
        AppError,
    >)
        ensures
            match sealed_text(data@, password@, salt@, nonce@) {
                Some(stored) => r matches Ok(s) && s@ == stored,
                None => r == Err::<String, AppError>(AppError::EncryptionFailed),
            },
            r matches Ok(s) ==> opened_text(s@, password@) == Some(data@),
            r matches Ok(s) ==> s@.len() == sealed_len(data@),
            salt@.len() == SALT_LEN && nonce@.len() == NONCE_LEN && sealable(data@, password@)
                ==> r is Ok,
    {
        if salt.len() != SALT_LEN || nonce.len() != NONCE_LEN {
            return Err(AppError::EncryptionFailed);
        }
        let key = match self.derive_key(password, salt) {
            Some(key) => key,
            None => {
                return Err(AppError::EncryptionFailed);
            },
        };
        let sealed = match aes256_gcm_seal(key.as_slice(), nonce, data.as_bytes()) {
            Some(sealed) => sealed,
            None => {
                return Err(AppError::EncryptionFailed);
            },
        };
        let mut frame: Vec<u8> = Vec::new();
        frame.extend_from_slice(salt);
        frame.extend_from_slice(nonce);
        frame.extend_from_slice(sealed.as_slice());
        let stored = hex_encode(frame.as_slice());
        proof {
            let bytes = salt@ + nonce@ + sealed@;
            assert(frame@ =~= bytes);
            hex_round_trip(bytes);
            assert(bytes.subrange(0, SALT_LEN as int) =~= salt@);
            assert(bytes.subrange(SALT_LEN as int, SALT_LEN + NONCE_LEN) =~= nonce@);
            assert(bytes.subrange(SALT_LEN + NONCE_LEN, bytes.len() as int) =~= sealed@);
            encode_utf8_valid_utf8(data@);
            encode_utf8_decode_utf8(data@);
        }
        Ok(stored)
    }

    /// Seals `data` under `password` with a fresh random salt and nonce.
    ///
    /// Whatever salt and nonce were drawn, the result opens to `data` again
    /// under the same password. It fails only where a primitive refuses what
    /// was drawn, and never on a text and a password within what the
    /// primitives take.
    pub fn encrypt(&self, data: &str, password: &str) -> (r: Result<String, AppError>)
        ensures
            r matches Ok(s) ==> opened_text(s@, password@) == Some(data@),
            r matches Ok(s) ==> s@.len() == sealed_len(data@),
            r matches Ok(s) ==> exists|salt: Seq<u8>, nonce: Seq<u8>|
                sealed_text(data@, password@, salt, nonce) == Some(s@),
            r matches Err(e) ==> e == AppError::EncryptionFailed,
            r is Err ==> sealing_can_fail(data@, password@),
            sealable(data@, password@) ==> r is Ok,
    {
        let salt = random_bytes(SALT_LEN);
        let nonce = random_bytes(NONCE_LEN);
        self.encrypt_with(data, password, salt.as_slice(), nonce.as_slice())
    }

    /// Opens a stored form under `password`.
    pub fn decrypt(&self, encrypted_hex: &str, password: &str) -> (r: Result<String, AppError>)
        ensures
            match opened_text(encrypted_hex@, password@) {
                Some(text) => r matches Ok(t) && t@ == text,
                None => r == Err::<String, AppError>(AppError::DecryptionFailed),
            },
    {
        let bytes = match hex_decode(encrypted_hex) {
            Some(bytes) => bytes,
            None => {
                return Err(AppError::DecryptionFailed);
            },
        };
        if bytes.len() < SALT_LEN + NONCE_LEN {
            return Err(AppError::DecryptionFailed);
        }
        let salt = slice_subrange(bytes.as_slice(), 0, SALT_LEN);
        let nonce = slice_subrange(bytes.as_slice(), SALT_LEN, SALT_LEN + NONCE_LEN);
        let sealed = slice_subrange(bytes.as_slice(), SALT_LEN + NONCE_LEN, bytes.len());
        let key = match self.derive_key(password, salt) {
            Some(key) => key,
            None => {
                return Err(AppError::DecryptionFailed);
            },
        };
        let plain = match aes256_gcm_open(key.as_slice(), nonce, sealed) {
            Some(plain) => plain,
            None => {
                return Err(AppError::DecryptionFailed);
            },
        };
        match string_from_utf8(plain) {
            Some(text) => Ok(text),
            None => Err(AppError::DecryptionFailed),
        }
    }

    /// Draws a random 256-bit key and hands it out as 64 hexadecimal digits.
    pub fn generate_key(&self) -> (key: String)
        ensures
            key@.len() == 64,
            exists|bytes: Seq<u8>| bytes.len() == KEY_LEN && key@ == hex_encoding(bytes),
    {
        let bytes = random_bytes(KEY_LEN);
        hex_encode(bytes.as_slice())
    }

    /// Hashes a password for storage, in PHC text form under a fresh random
    /// salt of 16 bytes. The hash accepts the password it was made from. It
    /// fails only where Argon2 refuses the password under the salt drawn.
    pub fn hash_password(&self, password: &str) -> (r: Result<String, AppError>)
        ensures
            r matches Ok(h) ==> argon2_accepts(encode_utf8(password@), h@) == Some(true),
            r matches Err(e) ==> e == AppError::EncryptionFailed,
            r is Err ==> hashing_can_fail(password@),
            encode_utf8(password@).len() <= MAX_PASSWORD_BYTES ==> r is Ok,
    {
        let salt = random_bytes(SALT_LEN);
        match argon2_hash(password.as_bytes(), salt.as_slice()) {
            Some(hash) => Ok(hash.1),
            None => Err(AppError::EncryptionFailed),
        }
    }

    /// Checks a password against a stored hash. Fails if the hash is not in
    /// PHC text form.
    pub fn verify_password(&self, password: &str, hash: &str) -> (r: Result<bool, AppError>)
        ensures
            match argon2_accepts(encode_utf8(password@), hash@) {
                Some(accepted) => r == Ok::<bool, AppError>(accepted),
                None => r == Err::<bool, AppError>(AppError::EncryptionFailed),
            },
    {
        match argon2_phc_verify(password.as_bytes(), hash) {
            Some(accepted) => Ok(accepted),
            None => Err(AppError::EncryptionFailed),
        }
    }
}

} // verus!
