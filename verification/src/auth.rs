//! Credential entries as they are written down, and the operations on the
//! registry that a user asks for by name: add a secret, delete it, show its
//! current code.

use vstd::prelude::*;
use vstd::string::StringSliceAdditionalSpecFns;
use crate::crypto::{aes256_gcm_seal, random_bytes, sha256, MAX_PLAINTEXT, NONCE_SIZE};
use crate::error::AppError;
use crate::secrets::{
    decrypt_data, decrypt_data_spec, encrypt_data_with_nonce, Credential, CredentialView,
    SecretManager,
};
use crate::totp::{
    all_decimal, code_at, current_code, derivable, rejection, seconds_remaining, Algorithm, Totp,
    DEFAULT_SKEW,
};

verus! {

/// Digits of a code where an entry names none.
pub const DEFAULT_DIGITS: usize = 6;

/// Seconds of a time window where an entry names none.
pub const DEFAULT_PERIOD: u64 = 30;

/// What `base32::decode` with the RFC 4648 alphabet returns for `text`, with
/// padding characters accepted or not: the bytes, or nothing where `text` is
/// not base32.
pub uninterp spec fn base32_decode(padding: bool, text: Seq<char>) -> Option<Seq<u8>>;

/// What `str::trim` returns: `text` without its leading and trailing
/// whitespace.
pub uninterp spec fn str_trim(text: Seq<char>) -> Seq<char>;

/// What `str::to_uppercase` returns: `text` with each character replaced by
/// its uppercase form.
pub uninterp spec fn str_to_uppercase(text: Seq<char>) -> Seq<char>;

/// The error of `totp_rs` for a secret that is not base32.
#[verifier::external_type_specification]
#[verifier::external_body]
pub struct ExSecretParseError(totp_rs::SecretParseError);

/// `base32::decode` with the RFC 4648 alphabet. Trusted: the result is the
/// outcome named [`base32_decode`].
#[verifier::external_body]
fn base32_rfc4648_decode(padding: bool, text: &str) -> (res: Option<Vec<u8>>)
    ensures
        match res {
            Some(bytes) => base32_decode(padding, text@) == Some(bytes@),
            None => base32_decode(padding, text@) is None,
        },
{
    base32::decode(base32::Alphabet::Rfc4648 { padding }, text)
}

/// `totp_rs::Secret::Encoded(..).to_bytes()`. Trusted: it is `base32::decode`
/// with the alphabet `Rfc4648 { padding: false }` on the encoded text, so the
/// result is the outcome named [`base32_decode`] without padding.
#[verifier::external_body]
fn totp_rs_secret_bytes(encoded: &str) -> (res: Result<Vec<u8>, totp_rs::SecretParseError>)
    ensures
        match res {
            Ok(bytes) => base32_decode(false, encoded@) == Some(bytes@),
            Err(_) => base32_decode(false, encoded@) is None,
        },
{
    totp_rs::Secret::Encoded(encoded.to_string()).to_bytes()
}

/// `str::trim`. Trusted: the result is the text named [`str_trim`].
#[verifier::external_body]
fn trim(text: &str) -> (res: &str)
    ensures
        res@ == str_trim(text@),
{
    text.trim()
}

/// `str::to_uppercase`. Trusted: the result is the text named
/// [`str_to_uppercase`].
#[verifier::external_body]
fn to_uppercase(text: &str) -> (res: String)
    ensures
        res@ == str_to_uppercase(text@),
{
    text.to_uppercase()
}

/// `text` without its spaces.
pub open spec fn without_spaces(text: Seq<char>) -> Seq<char> {
    text.filter(|c: char| c != ' ')
}

/// Removes every space and keeps every other character, in order.
pub fn remove_spaces(text: &str) -> (res: String)
    ensures
        res@ == without_spaces(text@),
{
    let count = text.unicode_len();
    let mut res = String::new();
    let mut i: usize = 0;
    proof {
        reveal(Seq::filter);
        assert(text@.take(0) =~= Seq::<char>::empty());
    }
    while i < count
        invariant
            i <= count,
            count == text@.len(),
            res@ == without_spaces(text@.take(i as int)),
        decreases count - i,
    {
        let c = text.get_char(i);
        proof {
            reveal(Seq::filter);
            assert(text@.take(i + 1).drop_last() =~= text@.take(i as int));
            assert(text@.take(i + 1).last() == c);
        }
        if c != ' ' {
            let piece = text.substring_char(i, i + 1);
            assert(piece@ =~= seq![c]);
            res.append(piece);
            assert(res@ =~= without_spaces(text@.take(i as int)).push(c));
        }
        i += 1;
    }
    proof {
        assert(text@.take(count as int) =~= text@);
    }
    res
}

/// The form in which a typed secret is decoded: trimmed, spaces removed,
/// uppercase.
pub open spec fn normalized_key(key: Seq<char>) -> Seq<char> {
    str_to_uppercase(without_spaces(str_trim(key)))
}

/// The secret that a typed key stands for, if it is base32.
pub open spec fn decoded_key(key: Seq<char>) -> Option<Seq<u8>> {
    base32_decode(true, normalized_key(key))
}

/// Brings a typed secret into the form in which it is decoded.
pub fn normalize_key(key: &str) -> (res: String)
    ensures
        res@ == normalized_key(key@),
{
    let trimmed = trim(key);
    let joined = remove_spaces(trimmed);
    to_uppercase(joined.as_str())
}

/// Decodes a typed secret. Fails with `InvalidKey` exactly when the
/// normalized key is not base32.
pub fn decode_key(key: &str) -> (res: Result<Vec<u8>, AppError>)
    ensures
        match res {
            Ok(secret) => decoded_key(key@) == Some(secret@),
            Err(e) => e == AppError::InvalidKey && decoded_key(key@) is None,
        },
{
    let normalized = normalize_key(key);
    match base32_rfc4648_decode(true, normalized.as_str()) {
        Some(secret) => Ok(secret),
        None => Err(AppError::InvalidKey),
    }
}

/// A credential entry as it is written down: the secret in base32, the
/// algorithm by name.
#[derive(Clone, Debug)]
pub struct AuthEntry {
    pub name: String,
    pub secret_base32: String,
    pub issuer: Option<String>,
    pub account_name: String,
    pub algorithm_str: String,
    pub digits: usize,
    pub step: u64,
}

impl AuthEntry {
    /// The generator this entry describes.
    ///
    /// Fails with `InvalidKey` where the secret is not unpadded base32, else
    /// with `UnsupportedAlgorithm` where the algorithm is none of `SHA1`,
    /// `SHA256`, `SHA512`, else as [`Totp::new`] does. On success the
    /// generator holds the decoded secret, the named algorithm and the
    /// entry's digits and step.
    pub fn to_totp(&self) -> (res: Result<Totp, AppError>)
        ensures
            match res {
                Ok(t) => {
                    &&& base32_decode(false, self.secret_base32@) == Some(t.secret@)
                    &&& t.algorithm.spec_name() == self.algorithm_str@
                    &&& t.digits == self.digits
                    &&& t.step == self.step
                    &&& t.skew == DEFAULT_SKEW
                    &&& derivable(t.secret@, t.digits, t.step)
                },
                Err(e) => match base32_decode(false, self.secret_base32@) {
                    None => e == AppError::InvalidKey,
                    Some(secret) => if self.algorithm_str@ != "SHA1"@ && self.algorithm_str@
                        != "SHA256"@ && self.algorithm_str@ != "SHA512"@ {
                        e == AppError::UnsupportedAlgorithm
                    } else {
                        !derivable(secret, self.digits, self.step) && e == rejection(
                            secret,
                            self.digits,
                            self.step,
                        )
                    },
                },
            },
    {
        let secret = match totp_rs_secret_bytes(self.secret_base32.as_str()) {
            Ok(bytes) => bytes,
            Err(_) => { return Err(AppError::InvalidKey); },
        };
        let algorithm = match Algorithm::from_name(self.algorithm_str.as_str()) {
            Some(a) => a,
            None => { return Err(AppError::UnsupportedAlgorithm); },
        };
        proof {
            reveal_strlit("SHA1");
            reveal_strlit("SHA256");
            reveal_strlit("SHA512");
        }
        Totp::new(algorithm, self.digits, DEFAULT_SKEW, self.step, secret)
    }
}

/// The credential that [`add_with_nonce`] registers.
pub open spec fn sealed_credential(
    name: Seq<char>,
    secret: Seq<u8>,
    master_password: Seq<u8>,
    nonce: Seq<u8>,
) -> CredentialView {
    CredentialView {
        name,
        ciphertext: aes256_gcm_seal(sha256(master_password), nonce, secret),
        nonce,
    }
}

/// What [`add_with_nonce`] answers, on each input.
pub open spec fn add_outcome(
    registry: Map<Seq<char>, CredentialView>,
    name: Seq<char>,
    key: Seq<char>,
    nonce: Seq<u8>,
) -> Result<(), AppError> {
    match decoded_key(key) {
        None => Err(AppError::InvalidKey),
        Some(secret) => if registry.dom().contains(name) {
            Err(AppError::DuplicateName)
        } else if nonce.len() != NONCE_SIZE || secret.len() > MAX_PLAINTEXT {
            Err(AppError::EncryptionError)
        } else {
            Ok(())
        },
    }
}

/// Seals a decoded secret and registers it under `name`, unless the name is
/// taken.
fn register(
    manager: &mut SecretManager,
    name: String,
    secret: Vec<u8>,
    master_password: &str,
    nonce: Vec<u8>,
) -> (res: Result<(), AppError>)
    ensures
        match res {
            Ok(_) => {
                let added = sealed_credential(name@, secret@, master_password.spec_bytes(), nonce@);
                &&& nonce@.len() == NONCE_SIZE
                &&& secret@.len() <= MAX_PLAINTEXT
                &&& !old(manager)@.dom().contains(name@)
                &&& final(manager)@ == old(manager)@.insert(name@, added)
                &&& final(manager).entries() == old(manager).entries().push(added)
                &&& decrypt_data_spec(master_password.spec_bytes(), added.ciphertext, added.nonce)
                    == Some(secret@)
            },
            Err(e) => {
                &&& e == (if old(manager)@.dom().contains(name@) {
                    AppError::DuplicateName
                } else {
                    AppError::EncryptionError
                })
                &&& e == AppError::EncryptionError ==> nonce@.len() != NONCE_SIZE || secret@.len()
                    > MAX_PLAINTEXT
                &&& final(manager)@ == old(manager)@
                &&& final(manager).entries() == old(manager).entries()
            },
        },
{
    if manager.get_credential(name.as_str()).is_some() {
        return Err(AppError::DuplicateName);
    }
    let ciphertext = encrypt_data_with_nonce(
        master_password.as_bytes(),
        secret.as_slice(),
        nonce.as_slice(),
    )?;
    manager.add_credential(name, ciphertext, nonce)
}

/// Registers the secret typed as `key` under `name`, sealed under the master
/// passphrase with the nonce given.
///
/// The key is normalized and decoded, the name looked up, the secret sealed
/// and the credential registered. Each step can fail, in this order:
/// `InvalidKey`, `DuplicateName`, `EncryptionError`. On any failure the
/// registry is unchanged. On success it holds, in addition, the sealed secret
/// under `name`, and unsealing it with the same passphrase gives the decoded
/// secret.
pub fn add_with_nonce(
    manager: &mut SecretManager,
    name: String,
    key: &str,
    master_password: &str,
    nonce: Vec<u8>,
) -> (res: Result<(), AppError>)
    ensures
        match add_outcome(old(manager)@, name@, key@, nonce@) {
            Ok(_) => res is Ok,
            Err(e) => res == Err::<(), AppError>(e),
        },
        res is Err ==> final(manager)@ == old(manager)@ && final(manager).entries() == old(
            manager,
        ).entries(),
        res is Ok ==> {
            let secret = decoded_key(key@)->0;
            let added = sealed_credential(name@, secret, master_password.spec_bytes(), nonce@);
            &&& final(manager)@ == old(manager)@.insert(name@, added)
            &&& final(manager).entries() == old(manager).entries().push(added)
            &&& decrypt_data_spec(master_password.spec_bytes(), added.ciphertext, added.nonce)
                == Some(secret)
        },
{
    let secret = decode_key(key)?;
    register(manager, name, secret, master_password, nonce)
}

/// Registers the secret typed as `key` under `name`, sealed under the master
/// passphrase with a fresh random nonce.
///
/// A key that is not base32 is `InvalidKey`. A decodable key with a name that
/// is taken is `DuplicateName`, and no randomness is drawn for it. Otherwise
/// the only failure is `EncryptionError`, where the secret is longer than
/// 2^36 bytes or no randomness could be had. On any failure the registry is
/// unchanged. On success, whatever nonce was drawn, the registry holds in
/// addition the secret sealed with it under `name`, and unsealing it with the
/// same passphrase gives the decoded secret.
pub fn add(manager: &mut SecretManager, name: String, key: &str, master_password: &str) -> (res:
    Result<(), AppError>)
    ensures
        decoded_key(key@) is None ==> res == Err::<(), AppError>(AppError::InvalidKey),
        decoded_key(key@) is Some && old(manager)@.dom().contains(name@) ==> res == Err::<
            (),
            AppError,
        >(AppError::DuplicateName),
        decoded_key(key@) is Some && decoded_key(key@)->0.len() > MAX_PLAINTEXT && !old(
            manager,
        )@.dom().contains(name@) ==> res == Err::<(), AppError>(AppError::EncryptionError),
        res matches Err(e) ==> {
            ||| e == AppError::InvalidKey && decoded_key(key@) is None
            ||| e == AppError::DuplicateName && decoded_key(key@) is Some && old(
                manager,
            )@.dom().contains(name@)
            ||| e == AppError::EncryptionError && decoded_key(key@) is Some && !old(
                manager,
            )@.dom().contains(name@)
        },
        res is Err ==> final(manager)@ == old(manager)@ && final(manager).entries() == old(
            manager,
        ).entries(),
        res is Ok ==> exists|nonce: Seq<u8>|
            {
                let added = #[trigger] sealed_credential(
                    name@,
                    decoded_key(key@)->0,
                    master_password.spec_bytes(),
                    nonce,
                );
                &&& nonce.len() == NONCE_SIZE
                &&& decoded_key(key@) is Some
                &&& !old(manager)@.dom().contains(name@)
                &&& final(manager)@ == old(manager)@.insert(name@, added)
                &&& final(manager).entries() == old(manager).entries().push(added)
                &&& decrypt_data_spec(master_password.spec_bytes(), added.ciphertext, added.nonce)
                    == Some(decoded_key(key@)->0)
            },
{
    let secret = decode_key(key)?;
    if manager.get_credential(name.as_str()).is_some() {
        return Err(AppError::DuplicateName);
    }
    let nonce = random_bytes(NONCE_SIZE)?;
    let ghost drawn = nonce@;
    let res = register(manager, name, secret, master_password, nonce);
    proof {
        if res is Ok {
            let added = sealed_credential(
                name@,
                decoded_key(key@)->0,
                master_password.spec_bytes(),
                drawn,
            );
            assert(drawn.len() == NONCE_SIZE && final(manager)@ == old(manager)@.insert(name@, added));
        }
    }
    res
}

/// Removes the credential called `name` from the registry and returns it.
///
/// Fails with `NotFound`, and changes nothing, where no credential of that
/// name is registered. Otherwise exactly that name leaves the registry.
pub fn del(manager: &mut SecretManager, name: &str) -> (res: Result<Credential, AppError>)
    ensures
        match res {
            Ok(removed) => {
                &&& old(manager)@.dom().contains(name@)
                &&& removed@ == old(manager)@[name@]
                &&& final(manager)@ == old(manager)@.remove(name@)
            },
            Err(e) => {
                &&& e == AppError::NotFound
                &&& !old(manager)@.dom().contains(name@)
                &&& final(manager)@ == old(manager)@
                &&& final(manager).entries() == old(manager).entries()
            },
        },
{
    match manager.delete_credential(name) {
        Some(removed) => Ok(removed),
        None => Err(AppError::NotFound),
    }
}

/// What [`show`] answers, on each input.
pub open spec fn show_outcome(
    registry: Map<Seq<char>, CredentialView>,
    name: Seq<char>,
    master_password: Seq<u8>,
    now: u64,
) -> Result<(Seq<char>, u64), AppError> {
    if !registry.dom().contains(name) {
        Err(AppError::NotFound)
    } else {
        match decrypt_data_spec(master_password, registry[name].ciphertext, registry[name].nonce) {
            None => Err(AppError::DecryptionError),
            Some(secret) => if derivable(secret, DEFAULT_DIGITS, DEFAULT_PERIOD) {
                Ok(
                    (
                        code_at(secret, Algorithm::SHA1, DEFAULT_DIGITS, DEFAULT_PERIOD, now),
                        seconds_remaining(DEFAULT_PERIOD, now) as u64,
                    ),
                )
            } else {
                Err(rejection(secret, DEFAULT_DIGITS, DEFAULT_PERIOD))
            },
        }
    }
}

/// The current code of the credential called `name` and the seconds it stays
/// valid.
///
/// Fails with `NotFound` where no credential of that name is registered;
/// nothing is unsealed then. Otherwise the secret is unsealed with the master
/// passphrase (`DecryptionError` where that fails) and the code derived with
/// SHA-1, six digits and a period of 30 seconds.
pub fn show(manager: &SecretManager, name: &str, master_password: &str, now: u64) -> (res: Result<
    (String, u64),
    AppError,
>)
    ensures
        match show_outcome(manager@, name@, master_password.spec_bytes(), now) {
            Ok(expected) => res matches Ok(got) && got.0@ == expected.0 && got.1 == expected.1
                && got.0@.len() == DEFAULT_DIGITS && all_decimal(got.0@) && 1 <= got.1
                <= DEFAULT_PERIOD,
            Err(e) => res == Err::<(String, u64), AppError>(e),
        },
{
    match manager.get_credential(name) {
        None => Err(AppError::NotFound),
        Some(credential) => {
            let secret = decrypt_data(
                master_password.as_bytes(),
                credential.ciphertext.as_slice(),
                credential.nonce.as_slice(),
            )?;
            current_code(secret.as_slice(), Algorithm::SHA1, DEFAULT_DIGITS, DEFAULT_PERIOD, now)
        },
    }
}

/// How the countdown line of a shown code is drawn.
#[derive(Clone, Copy, Debug, PartialEq, Eq, Structural)]
pub enum CountdownStyle {
    Normal,
    /// Ten seconds or fewer remain.
    Urgent,
}

/// One step of the countdown that accompanies a shown code.
#[derive(Clone, Copy, Debug, PartialEq, Eq, Structural)]
pub struct CountdownStep {
    /// Seconds shown as left, and position of the bar.
    pub seconds_left: u64,
    pub style: CountdownStyle,
    /// Whether to wait one second after drawing.
    pub wait: bool,
    /// The seconds of the next step; `None` where the code has run out and a
    /// new one is due.
    pub next: Option<u64>,
}

/// The step of the countdown at `seconds_left`: urgent from ten seconds down
/// to one, a wait of one second after every step but the last, and then the
/// step one second lower.
pub fn countdown_step(seconds_left: u64) -> (step: CountdownStep)
    ensures
        step.seconds_left == seconds_left,
        step.style == (if 0 < seconds_left <= 10 {
            CountdownStyle::Urgent
        } else {
            CountdownStyle::Normal
        }),
        step.wait == (seconds_left > 0),
        step.next == (if seconds_left > 0 {
            Some((seconds_left - 1) as u64)
        } else {
            None::<u64>
        }),
{
    let style = if seconds_left > 0 && seconds_left <= 10 {
        CountdownStyle::Urgent
    } else {
        CountdownStyle::Normal
    };
    CountdownStep {
        seconds_left,
        style,
        wait: seconds_left > 0,
        next: if seconds_left > 0 { Some(seconds_left - 1) } else { None },
    }
}

} // verus!
