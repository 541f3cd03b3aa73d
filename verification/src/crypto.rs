//! Key derivation and authenticated encryption.
//!
//! The primitives themselves (SHA-256, PBKDF2-HMAC-SHA256, AES-256-GCM, the
//! operating system's random source) are not implemented here: each is reached
//! through one small function whose contract is taken on trust. Everything
//! above those functions is verified against their contracts.

use vstd::prelude::*;
use crate::error::AppError;

verus! {

/// Rounds of the iterated keyed hash that turns a passphrase into a key.
pub const PBKDF2_ITERATIONS: u32 = 100_000;

/// Length of the salt stored with a vault, in bytes.
pub const SALT_SIZE: usize = 16;

/// Length of an AES-GCM nonce, in bytes.
pub const NONCE_SIZE: usize = 12;

/// Length of a derived key, in bytes.
pub const KEY_SIZE: usize = 32;

/// Longest plaintext AES-GCM accepts, in bytes.
pub const MAX_PLAINTEXT: u64 = 0x10_0000_0000;

/// The SHA-256 digest of `data`, as `sha2` computes it.
pub uninterp spec fn sha256(data: Seq<u8>) -> Seq<u8>;

/// The first `len` bytes of PBKDF2-HMAC-SHA256 over `password` and `salt`
/// with `rounds` rounds, as `pbkdf2` computes them.
pub uninterp spec fn pbkdf2_hmac_sha256(
    password: Seq<u8>,
    salt: Seq<u8>,
    rounds: u32,
    len: nat,
) -> Seq<u8>;

/// The AES-256-GCM ciphertext, tag appended, of `plaintext` under `key` and
/// `nonce` with no associated data, as `aes_gcm` computes it.
pub uninterp spec fn aes256_gcm_seal(key: Seq<u8>, nonce: Seq<u8>, plaintext: Seq<u8>) -> Seq<u8>;

/// What AES-256-GCM decryption of `ciphertext` under `key` and `nonce` with no
/// associated data yields, as `aes_gcm` computes it: the plaintext, or nothing
/// where authentication fails.
pub uninterp spec fn aes256_gcm_open(key: Seq<u8>, nonce: Seq<u8>, ciphertext: Seq<u8>) -> Option<
    Seq<u8>,
>;

/// The error of the `aead` traits, which carries no information.
#[verifier::external_type_specification]
#[verifier::external_body]
pub struct ExAeadError(aes_gcm::Error);

/// The error of the operating system's random source.
#[verifier::external_type_specification]
#[verifier::external_body]
pub struct ExRandError(rand_core::Error);

/// `sha2::Sha256::digest`. Trusted: the result is the digest named [`sha256`]
/// and is 32 bytes long (the output size of SHA-256).
#[verifier::external_body]
pub(crate) fn sha256_digest(data: &[u8]) -> (out: Vec<u8>)
    ensures
        out@ == sha256(data@),
        out@.len() == 32,
{
    <sha2::Sha256 as sha2::Digest>::digest(data).to_vec()
}

/// `pbkdf2::pbkdf2_hmac::<Sha256>` into a buffer of `len` bytes. Trusted: the
/// result is the key named [`pbkdf2_hmac_sha256`] and is `len` bytes long (the
/// function fills the whole buffer it is given). The length is bounded because
/// the function counts the blocks of the output in 32 bits.
#[verifier::external_body]
fn pbkdf2_sha256(password: &[u8], salt: &[u8], rounds: u32, len: usize) -> (key: Vec<u8>)
    requires
        len <= u32::MAX,
    ensures
        key@ == pbkdf2_hmac_sha256(password@, salt@, rounds, len as nat),
        key@.len() == len,
{
    let mut key = vec![0u8; len];
    pbkdf2::pbkdf2_hmac::<sha2::Sha256>(password, salt, rounds, &mut key);
    key
}

/// `Aes256Gcm::encrypt` with no associated data. Trusted: encryption succeeds
/// exactly on plaintexts of at most 2^36 bytes; the result is the ciphertext
/// named [`aes256_gcm_seal`], 16 bytes (the tag) longer than the plaintext; and
/// decryption under the same key and nonce gives the plaintext back. The key
/// and nonce lengths are required because the conversion from a slice panics
/// on any other length.
#[verifier::external_body]
fn aes256_gcm_encrypt(key: &[u8], nonce: &[u8], plaintext: &[u8]) -> (res: Result<
    Vec<u8>,
    aes_gcm::Error,
>)
    requires
        key@.len() == 32,
        nonce@.len() == 12,
    ensures
        res is Ok <==> plaintext@.len() <= MAX_PLAINTEXT,
        res matches Ok(c) ==> {
            &&& c@ == aes256_gcm_seal(key@, nonce@, plaintext@)
            &&& c@.len() == plaintext@.len() + 16
            &&& aes256_gcm_open(key@, nonce@, c@) == Some(plaintext@)
        },
{
    let cipher = <aes_gcm::Aes256Gcm as aes_gcm::KeyInit>::new(aes_gcm::Key::<aes_gcm::Aes256Gcm>::from_slice(key));
    aes_gcm::aead::Aead::encrypt(&cipher, aes_gcm::Nonce::from_slice(nonce), plaintext)
}

/// `Aes256Gcm::decrypt` with no associated data. Trusted: the result is the
/// outcome named [`aes256_gcm_open`]: the plaintext where the tag
/// authenticates the ciphertext, an error otherwise. The key and nonce lengths
/// are required because the conversion from a slice panics on any other
/// length.
#[verifier::external_body]
fn aes256_gcm_decrypt(key: &[u8], nonce: &[u8], ciphertext: &[u8]) -> (res: Result<
    Vec<u8>,
    aes_gcm::Error,
>)
    requires
        key@.len() == 32,
        nonce@.len() == 12,
    ensures
        match res {
            Ok(p) => aes256_gcm_open(key@, nonce@, ciphertext@) == Some(p@),
            Err(_) => aes256_gcm_open(key@, nonce@, ciphertext@) is None,
        },
{
    let cipher = <aes_gcm::Aes256Gcm as aes_gcm::KeyInit>::new(aes_gcm::Key::<aes_gcm::Aes256Gcm>::from_slice(key));
    aes_gcm::aead::Aead::decrypt(&cipher, aes_gcm::Nonce::from_slice(nonce), ciphertext)
}

/// `OsRng::try_fill_bytes` on a fresh buffer of `len` bytes. Trusted: on
/// success the buffer still has `len` bytes. Nothing is said of their values.
#[verifier::external_body]
fn os_random_bytes(len: usize) -> (res: Result<Vec<u8>, rand_core::Error>)
    ensures
        res matches Ok(b) ==> b@.len() == len,
{
    let mut buf = vec![0u8; len];
    rand_core::RngCore::try_fill_bytes(&mut rand_core::OsRng, &mut buf)?;
    Ok(buf)
}

/// The key that protects a vault: PBKDF2-HMAC-SHA256 of the passphrase and the
/// vault's salt, with the fixed number of rounds.
pub open spec fn derive_key_spec(passphrase: Seq<u8>, salt: Seq<u8>) -> Seq<u8> {
    pbkdf2_hmac_sha256(passphrase, salt, PBKDF2_ITERATIONS, KEY_SIZE as nat)
}

/// Derives the 32-byte vault key from a passphrase and a salt. The same
/// passphrase and salt always give the same key.
pub fn derive_key(passphrase: &[u8], salt: &[u8]) -> (key: Vec<u8>)
    ensures
        key@ == derive_key_spec(passphrase@, salt@),
        key@.len() == KEY_SIZE,
{
    pbkdf2_sha256(passphrase, salt, PBKDF2_ITERATIONS, KEY_SIZE)
}

/// `len` fresh random bytes, or `EncryptionError` where the operating system
/// has none to give.
pub fn random_bytes(len: usize) -> (res: Result<Vec<u8>, AppError>)
    ensures
        match res {
            Ok(b) => b@.len() == len,
            Err(e) => e == AppError::EncryptionError,
        },
{
    match os_random_bytes(len) {
        Ok(b) => Ok(b),
        Err(_) => Err(AppError::EncryptionError),
    }
}

/// Authenticated encryption under an explicit key and nonce.
///
/// Succeeds exactly when the key has 32 bytes, the nonce 12 and the plaintext
/// at most 2^36; every other input is `EncryptionError`. What comes out opens
/// again, under the same key and nonce, to the plaintext.
pub fn aead_encrypt(key: &[u8], nonce: &[u8], plaintext: &[u8]) -> (res: Result<Vec<u8>, AppError>)
    ensures
        res is Ok <==> key@.len() == KEY_SIZE && nonce@.len() == NONCE_SIZE && plaintext@.len()
            <= MAX_PLAINTEXT,
        res matches Ok(c) ==> {
            &&& c@ == aes256_gcm_seal(key@, nonce@, plaintext@)
            &&& c@.len() == plaintext@.len() + 16
            &&& aead_open_spec(key@, nonce@, c@) == Some(plaintext@)
        },
        res matches Err(e) ==> e == AppError::EncryptionError,
{
    if key.len() != KEY_SIZE || nonce.len() != NONCE_SIZE {
        return Err(AppError::EncryptionError);
    }
    match aes256_gcm_encrypt(key, nonce, plaintext) {
        Ok(c) => Ok(c),
        Err(_) => Err(AppError::EncryptionError),
    }
}

/// What [`aead_decrypt`] yields: nothing for a key or nonce of the wrong
/// length, else what AES-256-GCM yields.
pub open spec fn aead_open_spec(key: Seq<u8>, nonce: Seq<u8>, ciphertext: Seq<u8>) -> Option<
    Seq<u8>,
> {
    if key.len() == KEY_SIZE && nonce.len() == NONCE_SIZE {
        aes256_gcm_open(key, nonce, ciphertext)
    } else {
        None
    }
}

/// Authenticated decryption under an explicit key and nonce.
///
/// Returns the plaintext exactly when the ciphertext authenticates; a wrong
/// key, an altered or truncated ciphertext and a malformed key or nonce are
/// all the one `DecryptionError`, and no partial plaintext is ever returned.
pub fn aead_decrypt(key: &[u8], nonce: &[u8], ciphertext: &[u8]) -> (res: Result<Vec<u8>, AppError>)
    ensures
        match res {
            Ok(p) => aead_open_spec(key@, nonce@, ciphertext@) == Some(p@),
            Err(e) => e == AppError::DecryptionError && aead_open_spec(key@, nonce@, ciphertext@)
                is None,
        },
{
    if key.len() != KEY_SIZE || nonce.len() != NONCE_SIZE {
        return Err(AppError::DecryptionError);
    }
    match aes256_gcm_decrypt(key, nonce, ciphertext) {
        Ok(p) => Ok(p),
        Err(_) => Err(AppError::DecryptionError),
    }
}

} // verus!
