//! The closed set of failures the library reports, and the family each belongs to.

use vstd::prelude::*;

verus! {

/// The family a failure belongs to. Callers decide on the family how to react:
/// a crypto failure is never retried with the same inputs, an input failure
/// is reported back to whoever typed it.
#[derive(Clone, Copy, Debug, PartialEq, Eq, Structural)]
pub enum ErrorKind {
    /// What the user supplied cannot be used.
    Input,
    /// Key derivation, encryption or authenticated decryption failed.
    Crypto,
    /// The vault could not be read from or written to its place.
    Storage,
    /// The vault decrypted, but what it holds is not a registry.
    Schema,
    /// The named credential does not exist.
    NotFound,
    /// The platform's credential store is unavailable or refused access.
    CredentialStore,
}

/// Every failure a function of this library can return.
#[derive(Clone, Copy, Debug, PartialEq, Eq, Structural)]
pub enum AppError {
    /// The secret is not valid base32.
    InvalidKey,
    /// A credential of that name is already registered.
    DuplicateName,
    /// The hash algorithm is none of SHA1, SHA256, SHA512.
    UnsupportedAlgorithm,
    /// The number of digits of a code is outside 6 to 8.
    InvalidDigits,
    /// The shared secret is shorter than 128 bits.
    SecretTooShort,
    /// The period of a code is zero seconds.
    InvalidPeriod,
    /// The two entries of a new master passphrase differ.
    MasterPasswordMismatch,
    /// Encryption failed, or no randomness could be had for it.
    EncryptionError,
    /// Decryption failed: the passphrase is wrong or the data was altered.
    /// The two cases are deliberately not told apart.
    DecryptionError,
    /// The vault decrypted but does not hold a registry.
    VaultCorrupt,
    /// No credential of that name is registered.
    NotFound,
    /// No configuration directory is known on this platform.
    ConfigDirNotFound,
    /// The platform's credential store failed.
    CredentialStoreUnavailable,
}

impl AppError {
    /// The family of each failure.
    pub open spec fn spec_kind(self) -> ErrorKind {
        match self {
            AppError::InvalidKey => ErrorKind::Input,
            AppError::DuplicateName => ErrorKind::Input,
            AppError::UnsupportedAlgorithm => ErrorKind::Input,
            AppError::InvalidDigits => ErrorKind::Input,
            AppError::SecretTooShort => ErrorKind::Input,
            AppError::InvalidPeriod => ErrorKind::Input,
            AppError::MasterPasswordMismatch => ErrorKind::Input,
            AppError::EncryptionError => ErrorKind::Crypto,
            AppError::DecryptionError => ErrorKind::Crypto,
            AppError::VaultCorrupt => ErrorKind::Schema,
            AppError::NotFound => ErrorKind::NotFound,
            AppError::ConfigDirNotFound => ErrorKind::Storage,
            AppError::CredentialStoreUnavailable => ErrorKind::CredentialStore,
        }
    }

    /// The one line shown to the user for each failure.
    pub open spec fn spec_message(self) -> Seq<char> {
        match self {
            AppError::InvalidKey => "Invalid key"@,
            AppError::DuplicateName => "A credential with this name already exists"@,
            AppError::UnsupportedAlgorithm => "Unsupported algorithm"@,
            AppError::InvalidDigits => "Digits must be between 6 and 8"@,
            AppError::SecretTooShort => "Secret must be at least 128 bits"@,
            AppError::InvalidPeriod => "Period must be at least one second"@,
            AppError::MasterPasswordMismatch => "Master passwords do not match"@,
            AppError::EncryptionError => "Encryption failed"@,
            AppError::DecryptionError => "Decryption failed"@,
            AppError::VaultCorrupt => "Vault contents are not a credential registry"@,
            AppError::NotFound => "Credential not found"@,
            AppError::ConfigDirNotFound => "Config directory not found"@,
            AppError::CredentialStoreUnavailable => "Credential store unavailable"@,
        }
    }

    #[verifier::when_used_as_spec(spec_kind)]
    pub fn kind(self) -> (k: ErrorKind)
        ensures
            k == self.spec_kind(),
    {
        match self {
            AppError::InvalidKey => ErrorKind::Input,
            AppError::DuplicateName => ErrorKind::Input,
            AppError::UnsupportedAlgorithm => ErrorKind::Input,
            AppError::InvalidDigits => ErrorKind::Input,
            AppError::SecretTooShort => ErrorKind::Input,
            AppError::InvalidPeriod => ErrorKind::Input,
            AppError::MasterPasswordMismatch => ErrorKind::Input,
            AppError::EncryptionError => ErrorKind::Crypto,
            AppError::DecryptionError => ErrorKind::Crypto,
            AppError::VaultCorrupt => ErrorKind::Schema,
            AppError::NotFound => ErrorKind::NotFound,
            AppError::ConfigDirNotFound => ErrorKind::Storage,
            AppError::CredentialStoreUnavailable => ErrorKind::CredentialStore,
        }
    }

    /// The diagnostic line for this failure.
    pub fn message(self) -> (s: String)
        ensures
            s@ == self.spec_message(),
    {
        match self {
            AppError::InvalidKey => String::from_str("Invalid key"),
            AppError::DuplicateName => String::from_str("A credential with this name already exists"),
            AppError::UnsupportedAlgorithm => String::from_str("Unsupported algorithm"),
            AppError::InvalidDigits => String::from_str("Digits must be between 6 and 8"),
            AppError::SecretTooShort => String::from_str("Secret must be at least 128 bits"),
            AppError::InvalidPeriod => String::from_str("Period must be at least one second"),
            AppError::MasterPasswordMismatch => String::from_str("Master passwords do not match"),
            AppError::EncryptionError => String::from_str("Encryption failed"),
            AppError::DecryptionError => String::from_str("Decryption failed"),
            AppError::VaultCorrupt => String::from_str("Vault contents are not a credential registry"),
            AppError::NotFound => String::from_str("Credential not found"),
            AppError::ConfigDirNotFound => String::from_str("Config directory not found"),
            AppError::CredentialStoreUnavailable => String::from_str("Credential store unavailable"),
        }
    }
}

} // verus!
