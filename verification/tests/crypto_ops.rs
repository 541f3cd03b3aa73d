use gauth::bytes::{append_bytes, copy_bytes, copy_range, wipe};
use gauth::crypto::{aead_decrypt, aead_encrypt, derive_key, random_bytes};
use gauth::error::{AppError, ErrorKind};
use gauth::secrets::{decrypt_data, encrypt_data, encrypt_data_with_nonce};

fn hex(bytes: &[u8]) -> String {
    let mut s = String::new();
    for b in bytes {
        s.push_str(&format!("{:02x}", b));
    }
    s
}

#[test]
fn derive_key_matches_pbkdf2_hmac_sha256_with_100000_rounds() {
    let salt: Vec<u8> = (0u8..16).collect();
    let key = derive_key(b"correct horse", &salt);
    assert_eq!(key.len(), 32);
    assert_eq!(hex(&key), "57f2c2f0739748d516419b062a884666323c583ea4ae165504a81f7b53c62a09");
    let key = derive_key(b"password", b"saltsaltsaltsalt");
    assert_eq!(hex(&key), "4fbf2d122fe6afc61a81e9f2fe393ab39f906a78ddddc797763c0e784857e9b4");
}

#[test]
fn derive_key_is_deterministic_and_depends_on_both_inputs() {
    let a = derive_key(b"p", &[1u8; 16]);
    assert_eq!(a, derive_key(b"p", &[1u8; 16]));
    assert_ne!(a, derive_key(b"q", &[1u8; 16]));
    assert_ne!(a, derive_key(b"p", &[2u8; 16]));
}

#[test]
fn aes_256_gcm_published_vector() {
    let key = [0u8; 32];
    let nonce = [0u8; 12];
    let sealed = aead_encrypt(&key, &nonce, &[0u8; 16]).unwrap();
    assert_eq!(hex(&sealed), "cea7403d4d606b6e074ec5d3baf39d18d0d1c8a799996bf0265b98b5d48ab919");
    assert_eq!(aead_decrypt(&key, &nonce, &sealed).unwrap(), vec![0u8; 16]);
    let empty = aead_encrypt(&key, &nonce, &[]).unwrap();
    assert_eq!(hex(&empty), "530f8afbc74536b9a963b4f1c4cb738b");
}

#[test]
fn aead_refuses_keys_and_nonces_of_the_wrong_length() {
    assert_eq!(aead_encrypt(&[0u8; 31], &[0u8; 12], b"x").unwrap_err(), AppError::EncryptionError);
    assert_eq!(aead_encrypt(&[0u8; 32], &[0u8; 11], b"x").unwrap_err(), AppError::EncryptionError);
    assert_eq!(aead_encrypt(&[0u8; 32], &[0u8; 13], b"x").unwrap_err(), AppError::EncryptionError);
    assert_eq!(aead_decrypt(&[0u8; 33], &[0u8; 12], b"x").unwrap_err(), AppError::DecryptionError);
    assert_eq!(aead_decrypt(&[0u8; 32], &[], b"x").unwrap_err(), AppError::DecryptionError);
}

#[test]
fn aead_fails_closed_on_truncation() {
    let key = [7u8; 32];
    let nonce = [1u8; 12];
    let sealed = aead_encrypt(&key, &nonce, b"some plaintext").unwrap();
    assert_eq!(sealed.len(), 14 + 16);
    for keep in 0..sealed.len() {
        assert_eq!(
            aead_decrypt(&key, &nonce, &sealed[..keep]).unwrap_err(),
            AppError::DecryptionError
        );
    }
    assert_eq!(aead_decrypt(&key, &nonce, &sealed).unwrap(), b"some plaintext".to_vec());
}

#[test]
fn encrypt_data_keys_with_the_sha256_of_the_material() {
    let sealed = encrypt_data_with_nonce(b"abc", b"hello", &[0u8; 12]).unwrap();
    assert_eq!(hex(&sealed), "c1ce67e570d72456558395f6af7e96c40521bd9aae");
    let key: Vec<u8> = vec![
        0xba, 0x78, 0x16, 0xbf, 0x8f, 0x01, 0xcf, 0xea, 0x41, 0x41, 0x40, 0xde, 0x5d, 0xae, 0x22,
        0x23, 0xb0, 0x03, 0x61, 0xa3, 0x96, 0x17, 0x7a, 0x9c, 0xb4, 0x10, 0xff, 0x61, 0xf2, 0x00,
        0x15, 0xad,
    ];
    assert_eq!(aead_encrypt(&key, &[0u8; 12], b"hello").unwrap(), sealed);
}

#[test]
fn encrypt_data_with_nonce_refuses_a_nonce_of_the_wrong_length() {
    assert_eq!(
        encrypt_data_with_nonce(b"abc", b"hello", &[0u8; 8]).unwrap_err(),
        AppError::EncryptionError
    );
}

#[test]
fn decrypt_data_gives_back_what_encrypt_data_sealed() {
    let (ciphertext, nonce) = encrypt_data(b"master", b"the secret seed").unwrap();
    assert_eq!(nonce.len(), 12);
    assert_eq!(ciphertext.len(), 15 + 16);
    assert_ne!(&ciphertext[..15], b"the secret seed");
    assert_eq!(decrypt_data(b"master", &ciphertext, &nonce).unwrap(), b"the secret seed".to_vec());
    assert_eq!(encrypt_data_with_nonce(b"master", b"the secret seed", &nonce).unwrap(), ciphertext);
}

#[test]
fn encrypt_data_draws_a_fresh_nonce_each_time() {
    let (c1, n1) = encrypt_data(b"master", b"seed").unwrap();
    let (c2, n2) = encrypt_data(b"master", b"seed").unwrap();
    assert_ne!(n1, n2);
    assert_ne!(c1, c2);
}

#[test]
fn decrypt_data_with_the_wrong_material_is_a_crypto_error() {
    let (ciphertext, nonce) = encrypt_data(b"master", b"seed").unwrap();
    let err = decrypt_data(b"Master", &ciphertext, &nonce).unwrap_err();
    assert_eq!(err, AppError::DecryptionError);
    assert_eq!(err.kind(), ErrorKind::Crypto);
}

#[test]
fn decrypt_data_detects_every_single_bit_flip() {
    let (ciphertext, nonce) = encrypt_data(b"master", b"seed").unwrap();
    for byte in 0..ciphertext.len() {
        for bit in 0..8 {
            let mut altered = ciphertext.clone();
            altered[byte] ^= 1 << bit;
            assert_eq!(
                decrypt_data(b"master", &altered, &nonce).unwrap_err(),
                AppError::DecryptionError
            );
        }
    }
    let mut other_nonce = nonce.clone();
    other_nonce[0] ^= 1;
    assert_eq!(
        decrypt_data(b"master", &ciphertext, &other_nonce).unwrap_err(),
        AppError::DecryptionError
    );
}

#[test]
fn decrypt_data_with_a_malformed_nonce_is_the_same_error() {
    let (ciphertext, _) = encrypt_data(b"master", b"seed").unwrap();
    assert_eq!(decrypt_data(b"master", &ciphertext, &[]).unwrap_err(), AppError::DecryptionError);
    assert_eq!(
        decrypt_data(b"master", &ciphertext, &[0u8; 16]).unwrap_err(),
        AppError::DecryptionError
    );
}

#[test]
fn random_bytes_have_the_length_asked_for() {
    assert_eq!(random_bytes(0).unwrap().len(), 0);
    assert_eq!(random_bytes(12).unwrap().len(), 12);
    assert_eq!(random_bytes(16).unwrap().len(), 16);
    assert_ne!(random_bytes(16).unwrap(), random_bytes(16).unwrap());
}

#[test]
fn byte_helpers() {
    assert_eq!(copy_bytes(&[1, 2, 3]), vec![1, 2, 3]);
    assert_eq!(copy_bytes(&[]), Vec::<u8>::new());
    assert_eq!(copy_range(&[1, 2, 3, 4], 1, 3), vec![2, 3]);
    assert_eq!(copy_range(&[1, 2, 3, 4], 2, 2), Vec::<u8>::new());
    let mut out = vec![9];
    append_bytes(&mut out, &[1, 2]);
    append_bytes(&mut out, &[]);
    assert_eq!(out, vec![9, 1, 2]);
    let mut key = vec![5u8; 32];
    wipe(&mut key);
    assert_eq!(key, vec![0u8; 32]);
}

#[test]
fn every_error_has_its_family_and_its_line() {
    let all = [
        (AppError::InvalidKey, ErrorKind::Input, "Invalid key"),
        (AppError::DuplicateName, ErrorKind::Input, "A credential with this name already exists"),
        (AppError::UnsupportedAlgorithm, ErrorKind::Input, "Unsupported algorithm"),
        (AppError::InvalidDigits, ErrorKind::Input, "Digits must be between 6 and 8"),
        (AppError::SecretTooShort, ErrorKind::Input, "Secret must be at least 128 bits"),
        (AppError::InvalidPeriod, ErrorKind::Input, "Period must be at least one second"),
        (AppError::MasterPasswordMismatch, ErrorKind::Input, "Master passwords do not match"),
        (AppError::EncryptionError, ErrorKind::Crypto, "Encryption failed"),
        (AppError::DecryptionError, ErrorKind::Crypto, "Decryption failed"),
        (AppError::VaultCorrupt, ErrorKind::Schema, "Vault contents are not a credential registry"),
        (AppError::NotFound, ErrorKind::NotFound, "Credential not found"),
        (AppError::ConfigDirNotFound, ErrorKind::Storage, "Config directory not found"),
        (
            AppError::CredentialStoreUnavailable,
            ErrorKind::CredentialStore,
            "Credential store unavailable",
        ),
    ];
    for (error, kind, line) in all {
        assert_eq!(error.kind(), kind);
        assert_eq!(error.message(), line);
    }
}
