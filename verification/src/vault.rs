//! The vault: a payload encrypted at rest under the master passphrase.
//!
//! A vault is the record of a fresh salt, a fresh nonce and the ciphertext of
//! the payload under the key derived from the passphrase and the salt. It is
//! written as one file, replaced wholesale on every save: the 16 bytes of the
//! salt, the 12 bytes of the nonce, then the ciphertext.
//!
//! Nothing here touches the file system. Saving returns the bytes to write;
//! loading takes the bytes that were read, or `None` where no file exists.

use vstd::prelude::*;
use crate::bytes::{append_bytes, copy_bytes, copy_range, wipe};
use crate::crypto::{
    aead_decrypt, aead_encrypt, aead_open_spec, aes256_gcm_seal, derive_key, derive_key_spec,
    random_bytes, MAX_PLAINTEXT, NONCE_SIZE, SALT_SIZE,
};
use crate::error::AppError;

verus! {

/// Bytes a vault file holds before the ciphertext.
pub const HEADER_SIZE: usize = 28;

/// The record kept on disk.
#[derive(Debug)]
pub struct VaultBlob {
    pub salt: Vec<u8>,
    pub nonce: Vec<u8>,
    pub ciphertext: Vec<u8>,
}

/// What a vault record holds, as mathematical values.
pub struct VaultBlobView {
    pub salt: Seq<u8>,
    pub nonce: Seq<u8>,
    pub ciphertext: Seq<u8>,
}

impl View for VaultBlob {
    type V = VaultBlobView;

    open spec fn view(&self) -> VaultBlobView {
        VaultBlobView { salt: self.salt@, nonce: self.nonce@, ciphertext: self.ciphertext@ }
    }
}

impl VaultBlobView {
    /// The salt and the nonce have their fixed lengths.
    pub open spec fn well_formed(self) -> bool {
        self.salt.len() == SALT_SIZE && self.nonce.len() == NONCE_SIZE
    }

    /// The bytes of the file: salt, nonce, ciphertext.
    pub open spec fn encode(self) -> Seq<u8> {
        self.salt + self.nonce + self.ciphertext
    }

    /// The record that the bytes of a file hold; none where they are too few
    /// to hold a salt and a nonce.
    pub open spec fn decode(bytes: Seq<u8>) -> Option<VaultBlobView> {
        if bytes.len() < HEADER_SIZE {
            None
        } else {
            Some(
                VaultBlobView {
                    salt: bytes.subrange(0, SALT_SIZE as int),
                    nonce: bytes.subrange(SALT_SIZE as int, HEADER_SIZE as int),
                    ciphertext: bytes.subrange(HEADER_SIZE as int, bytes.len() as int),
                },
            )
        }
    }

    /// The payload that the record opens to under `passphrase`, if it
    /// authenticates.
    pub open spec fn open(self, passphrase: Seq<u8>) -> Option<Seq<u8>> {
        aead_open_spec(derive_key_spec(passphrase, self.salt), self.nonce, self.ciphertext)
    }
}

/// A well-formed record is read back from its bytes unchanged.
pub proof fn lemma_blob_decode_encode(blob: VaultBlobView)
    requires
        blob.well_formed(),
    ensures
        VaultBlobView::decode(blob.encode()) == Some(blob),
{
    let bytes = blob.encode();
    assert(bytes.subrange(0, SALT_SIZE as int) =~= blob.salt);
    assert(bytes.subrange(SALT_SIZE as int, HEADER_SIZE as int) =~= blob.nonce);
    assert(bytes.subrange(HEADER_SIZE as int, bytes.len() as int) =~= blob.ciphertext);
}

/// Whatever is read from bytes is well formed and is written as those bytes.
pub proof fn lemma_blob_encode_decode(bytes: Seq<u8>)
    requires
        VaultBlobView::decode(bytes) is Some,
    ensures
        VaultBlobView::decode(bytes)->0.well_formed(),
        VaultBlobView::decode(bytes)->0.encode() == bytes,
{
    assert(VaultBlobView::decode(bytes)->0.encode() =~= bytes);
}

impl VaultBlob {
    /// The bytes of the file that holds this record.
    pub fn to_bytes(&self) -> (bytes: Vec<u8>)
        ensures
            bytes@ == self@.encode(),
    {
        let mut bytes = copy_bytes(self.salt.as_slice());
        append_bytes(&mut bytes, self.nonce.as_slice());
        append_bytes(&mut bytes, self.ciphertext.as_slice());
        bytes
    }

    /// The record that the bytes of a file hold.
    pub fn from_bytes(bytes: &[u8]) -> (blob: Option<VaultBlob>)
        ensures
            match blob {
                Some(b) => VaultBlobView::decode(bytes@) == Some(b@) && b@.well_formed(),
                None => VaultBlobView::decode(bytes@) is None,
            },
    {
        if bytes.len() < HEADER_SIZE {
            None
        } else {
            Some(
                VaultBlob {
                    salt: copy_range(bytes, 0, SALT_SIZE),
                    nonce: copy_range(bytes, SALT_SIZE, HEADER_SIZE),
                    ciphertext: copy_range(bytes, HEADER_SIZE, bytes.len()),
                },
            )
        }
    }
}

/// Encrypts a payload under the passphrase with the salt and nonce given.
///
/// Succeeds exactly when the salt has 16 bytes, the nonce 12 and the payload
/// at most 2^36. The record keeps the salt and the nonce, its ciphertext is a
/// function of the four inputs, and it opens again under the same passphrase
/// to the payload.
pub fn seal_with(payload: &[u8], passphrase: &[u8], salt: Vec<u8>, nonce: Vec<u8>) -> (res: Result<
    VaultBlob,
    AppError,
>)
    ensures
        res is Ok <==> salt@.len() == SALT_SIZE && nonce@.len() == NONCE_SIZE && payload@.len()
            <= MAX_PLAINTEXT,
        res matches Ok(blob) ==> {
            &&& blob.salt@ == salt@
            &&& blob.nonce@ == nonce@
            &&& blob.ciphertext@ == aes256_gcm_seal(
                derive_key_spec(passphrase@, salt@),
                nonce@,
                payload@,
            )
            &&& blob@.well_formed()
            &&& blob@.open(passphrase@) == Some(payload@)
        },
        res matches Err(e) ==> e == AppError::EncryptionError,
{
    if salt.len() != SALT_SIZE {
        return Err(AppError::EncryptionError);
    }
    let mut key = derive_key(passphrase, salt.as_slice());
    let sealed = aead_encrypt(key.as_slice(), nonce.as_slice(), payload);
    wipe(&mut key);
    let ciphertext = sealed?;
    Ok(VaultBlob { salt, nonce, ciphertext })
}

/// Encrypts a payload under the passphrase with a fresh random salt and a
/// fresh random nonce, so that no key is ever used with two nonces.
///
/// Whatever was drawn, the record is well formed and opens again under the
/// same passphrase to the payload. Fails with `EncryptionError` where the
/// payload is longer than 2^36 bytes or no randomness could be had.
pub fn seal(payload: &[u8], passphrase: &[u8]) -> (res: Result<VaultBlob, AppError>)
    ensures
        payload@.len() > MAX_PLAINTEXT ==> res is Err,
        res matches Ok(blob) ==> {
            &&& blob@.well_formed()
            &&& blob.ciphertext@ == aes256_gcm_seal(
                derive_key_spec(passphrase@, blob.salt@),
                blob.nonce@,
                payload@,
            )
            &&& blob@.open(passphrase@) == Some(payload@)
        },
        res matches Err(e) ==> e == AppError::EncryptionError,
{
    let salt = random_bytes(SALT_SIZE)?;
    let nonce = random_bytes(NONCE_SIZE)?;
    seal_with(payload, passphrase, salt, nonce)
}

/// Decrypts a record under the passphrase.
///
/// Returns the payload exactly when the record authenticates under the key
/// derived from the passphrase and the record's salt. A wrong passphrase and
/// an altered record are the same `DecryptionError`.
pub fn open(blob: &VaultBlob, passphrase: &[u8]) -> (res: Result<Vec<u8>, AppError>)
    ensures
        match res {
            Ok(payload) => blob@.open(passphrase@) == Some(payload@),
            Err(e) => e == AppError::DecryptionError && blob@.open(passphrase@) is None,
        },
{
    let mut key = derive_key(passphrase, blob.salt.as_slice());
    let res = aead_decrypt(key.as_slice(), blob.nonce.as_slice(), blob.ciphertext.as_slice());
    wipe(&mut key);
    res
}

/// What loading a vault yields: no payload where there is no file; the
/// payload where the file holds a record that authenticates under the
/// passphrase; `DecryptionError` for every other file.
pub open spec fn load_spec(contents: Option<Seq<u8>>, password: Seq<u8>) -> Result<
    Option<Seq<u8>>,
    AppError,
> {
    match contents {
        None => Ok(None),
        Some(file) => match VaultBlobView::decode(file) {
            None => Err(AppError::DecryptionError),
            Some(blob) => match blob.open(password) {
                None => Err(AppError::DecryptionError),
                Some(payload) => Ok(Some(payload)),
            },
        },
    }
}

/// Encrypts a payload under the password with the salt and nonce given, and
/// returns the bytes of the vault file.
///
/// Succeeds exactly when the salt has 16 bytes, the nonce 12 and the payload
/// at most 2^36. The file is the salt, the nonce and the ciphertext, and
/// loading it with the same password yields the payload.
pub fn save_with(payload: &[u8], password: &[u8], salt: Vec<u8>, nonce: Vec<u8>) -> (res: Result<
    Vec<u8>,
    AppError,
>)
    ensures
        res is Ok <==> salt@.len() == SALT_SIZE && nonce@.len() == NONCE_SIZE && payload@.len()
            <= MAX_PLAINTEXT,
        res matches Ok(file) ==> {
            &&& file@ == salt@ + nonce@ + aes256_gcm_seal(
                derive_key_spec(password@, salt@),
                nonce@,
                payload@,
            )
            &&& load_spec(Some(file@), password@) == Ok::<Option<Seq<u8>>, AppError>(
                Some(payload@),
            )
        },
        res matches Err(e) ==> e == AppError::EncryptionError,
{
    let blob = seal_with(payload, password, salt, nonce)?;
    proof {
        lemma_blob_decode_encode(blob@);
    }
    Ok(blob.to_bytes())
}

/// Encrypts the serialized entries under the password and returns the bytes
/// of the vault file.
///
/// A fresh salt and nonce are drawn on every call. Whatever was drawn,
/// loading the returned bytes with the same password yields the entries
/// again. Fails with `EncryptionError` where the entries are longer than 2^36
/// bytes or no randomness could be had.
pub fn save_auth_entries_encrypted(entries: &[u8], password: &[u8]) -> (res: Result<
    Vec<u8>,
    AppError,
>)
    ensures
        entries@.len() > MAX_PLAINTEXT ==> res is Err,
        res matches Ok(file) ==> load_spec(Some(file@), password@) == Ok::<
            Option<Seq<u8>>,
            AppError,
        >(Some(entries@)),
        res matches Err(e) ==> e == AppError::EncryptionError,
{
    let blob = seal(entries, password)?;
    proof {
        lemma_blob_decode_encode(blob@);
    }
    Ok(blob.to_bytes())
}

/// Decrypts the serialized entries from the bytes of the vault file.
///
/// Where no file exists (`None`) there is nothing to decrypt and the answer
/// is `Ok(None)`: the registry of a first run is empty. Otherwise the answer
/// is the payload of the record in the file, or `DecryptionError` where the
/// file holds no record or the record does not authenticate.
pub fn load_auth_entries_encrypted(contents: Option<&[u8]>, password: &[u8]) -> (res: Result<
    Option<Vec<u8>>,
    AppError,
>)
    ensures
        match load_spec(
            match contents {
                Some(file) => Some(file@),
                None => None,
            },
            password@,
        ) {
            Ok(None) => res matches Ok(None),
            Ok(Some(payload)) => res matches Ok(Some(got)) && got@ == payload,
            Err(e) => res matches Err(got) && got == e,
        },
{
    match contents {
        None => Ok(None),
        Some(file) => match VaultBlob::from_bytes(file) {
            None => Err(AppError::DecryptionError),
            Some(blob) => {
                let payload = open(&blob, password)?;
                Ok(Some(payload))
            },
        },
    }
}

} // verus!
