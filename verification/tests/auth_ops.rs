use gauth::auth::{
    add, add_with_nonce, countdown_step, decode_key, del, normalize_key, remove_spaces, show,
    AuthEntry, CountdownStyle,
};
use gauth::error::{AppError, ErrorKind};
use gauth::secrets::{decrypt_data, encrypt_data_with_nonce, SecretManager};
use gauth::totp::Algorithm;

const RFC_KEY: &str = "GEZDGNBVGY3TQOJQGEZDGNBVGY3TQOJQ";

fn entry(secret: &str, algorithm: &str, digits: usize, step: u64) -> AuthEntry {
    AuthEntry {
        name: "work".to_string(),
        secret_base32: secret.to_string(),
        issuer: Some("Example".to_string()),
        account_name: "me@example.org".to_string(),
        algorithm_str: algorithm.to_string(),
        digits,
        step,
    }
}

#[test]
fn typed_key_is_trimmed_joined_and_uppercased() {
    assert_eq!(normalize_key("  jbsw y3dp ehpk 3pxp \n"), "JBSWY3DPEHPK3PXP");
    assert_eq!(normalize_key("JBSWY3DPEHPK3PXP"), "JBSWY3DPEHPK3PXP");
    assert_eq!(normalize_key(""), "");
    assert_eq!(normalize_key("   "), "");
    assert_eq!(normalize_key("a\tb"), "A\tB");
    assert_eq!(normalize_key("ab=="), "AB==");
}

#[test]
fn typed_key_is_decoded_as_padded_base32() {
    assert_eq!(decode_key("JBSWY3DPEHPK3PXP").unwrap(), b"Hello!\xde\xad\xbe\xef".to_vec());
    assert_eq!(decode_key(" jbsw y3dp ehpk 3pxp ").unwrap(), b"Hello!\xde\xad\xbe\xef".to_vec());
    assert_eq!(decode_key("MZXW6===").unwrap(), b"foo".to_vec());
    assert_eq!(decode_key("MZXW6").unwrap(), b"foo".to_vec());
    assert_eq!(decode_key(RFC_KEY).unwrap(), b"12345678901234567890".to_vec());
    assert_eq!(decode_key("").unwrap(), Vec::<u8>::new());
}

#[test]
fn malformed_key_is_an_input_error() {
    for bad in ["not base32!", "JBSW1", "jbsw-y3dp", "ÄÖ", "JBSW\tY3DP"] {
        let err = decode_key(bad).unwrap_err();
        assert_eq!(err, AppError::InvalidKey);
        assert_eq!(err.kind(), ErrorKind::Input);
    }
}

#[test]
fn entry_becomes_a_generator() {
    let totp = entry(RFC_KEY, "SHA1", 8, 30).to_totp().unwrap();
    assert_eq!(totp.secret, b"12345678901234567890".to_vec());
    assert_eq!(totp.algorithm, Algorithm::SHA1);
    assert_eq!(totp.digits, 8);
    assert_eq!(totp.step, 30);
    assert_eq!(totp.skew, 1);
    assert_eq!(totp.generate(59).unwrap(), "94287082");
    let totp = entry(RFC_KEY, "SHA512", 6, 60).to_totp().unwrap();
    assert_eq!(totp.algorithm, Algorithm::SHA512);
    assert_eq!(totp.step, 60);
}

#[test]
fn entry_with_a_bad_secret_is_refused_first() {
    assert_eq!(entry("not base32", "SHA1", 6, 30).to_totp().unwrap_err(), AppError::InvalidKey);
    assert_eq!(entry("not base32", "MD5", 2, 0).to_totp().unwrap_err(), AppError::InvalidKey);
    assert_eq!(entry("MZXW6===", "SHA1", 6, 30).to_totp().unwrap_err(), AppError::InvalidKey);
    assert_eq!(
        entry("gezdgnbvgy3tqojqgezdgnbvgy3tqojq", "SHA1", 6, 30).to_totp().unwrap_err(),
        AppError::InvalidKey
    );
}

#[test]
fn entry_with_an_unknown_algorithm_is_refused() {
    for name in ["MD5", "sha1", "", "SHA-1", "SHA384"] {
        assert_eq!(
            entry(RFC_KEY, name, 6, 30).to_totp().unwrap_err(),
            AppError::UnsupportedAlgorithm
        );
    }
    assert_eq!(entry(RFC_KEY, "MD5", 2, 0).to_totp().unwrap_err(), AppError::UnsupportedAlgorithm);
}

#[test]
fn entry_with_bad_parameters_is_refused() {
    assert_eq!(entry(RFC_KEY, "SHA1", 6, 0).to_totp().unwrap_err(), AppError::InvalidPeriod);
    assert_eq!(entry(RFC_KEY, "SHA1", 5, 30).to_totp().unwrap_err(), AppError::InvalidDigits);
    assert_eq!(entry(RFC_KEY, "SHA1", 9, 30).to_totp().unwrap_err(), AppError::InvalidDigits);
    assert_eq!(
        entry("JBSWY3DPEHPK3PXP", "SHA1", 6, 30).to_totp().unwrap_err(),
        AppError::SecretTooShort
    );
}

#[test]
fn add_with_nonce_registers_the_sealed_secret() {
    let mut manager = SecretManager::new();
    add_with_nonce(&mut manager, "work".to_string(), " gezd gnbv gy3t qojq gezd gnbv gy3t qojq ", "pw", vec![7; 12])
        .unwrap();
    let credential = manager.get_credential("work").unwrap();
    assert_eq!(credential.nonce, vec![7; 12]);
    assert_eq!(
        credential.ciphertext,
        encrypt_data_with_nonce(b"pw", b"12345678901234567890", &[7; 12]).unwrap()
    );
    assert_eq!(
        decrypt_data(b"pw", &credential.ciphertext, &credential.nonce).unwrap(),
        b"12345678901234567890".to_vec()
    );
}

#[test]
fn add_with_nonce_fails_in_order_and_changes_nothing() {
    let mut manager = SecretManager::new();
    add_with_nonce(&mut manager, "work".to_string(), RFC_KEY, "pw", vec![7; 12]).unwrap();
    let before = manager.to_bytes();
    assert_eq!(
        add_with_nonce(&mut manager, "work".to_string(), "bad key!", "pw", vec![7; 3]).unwrap_err(),
        AppError::InvalidKey
    );
    assert_eq!(
        add_with_nonce(&mut manager, "work".to_string(), RFC_KEY, "pw", vec![7; 3]).unwrap_err(),
        AppError::DuplicateName
    );
    assert_eq!(
        add_with_nonce(&mut manager, "work".to_string(), RFC_KEY, "pw", vec![8; 12]).unwrap_err(),
        AppError::DuplicateName
    );
    assert_eq!(
        add_with_nonce(&mut manager, "home".to_string(), RFC_KEY, "pw", vec![7; 3]).unwrap_err(),
        AppError::EncryptionError
    );
    assert_eq!(manager.to_bytes(), before);
    add_with_nonce(&mut manager, "home".to_string(), RFC_KEY, "pw", vec![8; 12]).unwrap();
    assert_eq!(manager.len(), 2);
}

#[test]
fn add_seals_under_a_fresh_nonce() {
    let mut manager = SecretManager::new();
    add(&mut manager, "a".to_string(), RFC_KEY, "pw").unwrap();
    add(&mut manager, "b".to_string(), RFC_KEY, "pw").unwrap();
    let a = manager.get_credential("a").unwrap();
    let b = manager.get_credential("b").unwrap();
    assert_eq!(a.nonce.len(), 12);
    assert_ne!(a.nonce, b.nonce);
    assert_ne!(a.ciphertext, b.ciphertext);
    assert_eq!(decrypt_data(b"pw", &a.ciphertext, &a.nonce).unwrap(), b"12345678901234567890");
    assert_eq!(decrypt_data(b"pw", &b.ciphertext, &b.nonce).unwrap(), b"12345678901234567890");
}

#[test]
fn add_reports_a_bad_key_and_a_taken_name() {
    let mut manager = SecretManager::new();
    assert_eq!(add(&mut manager, "a".to_string(), "???", "pw").unwrap_err(), AppError::InvalidKey);
    assert_eq!(manager.len(), 0);
    add(&mut manager, "a".to_string(), RFC_KEY, "pw").unwrap();
    let before = manager.to_bytes();
    assert_eq!(
        add(&mut manager, "a".to_string(), "JBSWY3DPEHPK3PXP", "pw").unwrap_err(),
        AppError::DuplicateName
    );
    assert_eq!(manager.to_bytes(), before);
}

#[test]
fn show_derives_the_code_from_the_unsealed_secret() {
    let mut manager = SecretManager::new();
    add(&mut manager, "work".to_string(), RFC_KEY, "pw").unwrap();
    assert_eq!(show(&manager, "work", "pw", 59).unwrap(), ("287082".to_string(), 1));
    assert_eq!(show(&manager, "work", "pw", 60).unwrap(), ("359152".to_string(), 30));
    assert_eq!(show(&manager, "work", "pw", 1111111109).unwrap(), ("081804".to_string(), 1));
    assert_eq!(show(&manager, "work", "pw", 1234567890).unwrap(), ("005924".to_string(), 30));
}

#[test]
fn show_of_an_absent_name_is_not_found() {
    let mut manager = SecretManager::new();
    let err = show(&manager, "work", "pw", 59).unwrap_err();
    assert_eq!(err, AppError::NotFound);
    assert_eq!(err.kind(), ErrorKind::NotFound);
    assert_eq!(err.message(), "Credential not found");
    add(&mut manager, "work".to_string(), RFC_KEY, "pw").unwrap();
    assert_eq!(show(&manager, "home", "pw", 59).unwrap_err(), AppError::NotFound);
    assert_eq!(show(&manager, "home", "wrong passphrase", 59).unwrap_err(), AppError::NotFound);
    assert_eq!(show(&manager, "Work", "pw", 59).unwrap_err(), AppError::NotFound);
}

#[test]
fn add_with_a_taken_name_is_a_duplicate_whatever_the_secret() {
    let mut manager = SecretManager::new();
    add(&mut manager, "work".to_string(), RFC_KEY, "pw").unwrap();
    let before = manager.to_bytes();
    for key in [RFC_KEY, "JBSWY3DPEHPK3PXP", "", "MZXW6==="] {
        let err = add(&mut manager, "work".to_string(), key, "pw").unwrap_err();
        assert_eq!(err, AppError::DuplicateName);
        assert_eq!(err.kind(), ErrorKind::Input);
    }
    assert_eq!(add(&mut manager, "work".to_string(), "???", "pw").unwrap_err(), AppError::InvalidKey);
    assert_eq!(manager.to_bytes(), before);
    let file = manager.save_secrets("pw").unwrap();
    let loaded = SecretManager::load_secrets(Some(&file), "pw").unwrap();
    assert_eq!(show(&loaded, "work", "pw", 59).unwrap(), ("287082".to_string(), 1));
}

#[test]
fn del_removes_a_registered_credential() {
    let mut manager = SecretManager::new();
    add(&mut manager, "work".to_string(), RFC_KEY, "pw").unwrap();
    add(&mut manager, "home".to_string(), RFC_KEY, "pw").unwrap();
    let removed = del(&mut manager, "work").unwrap();
    assert_eq!(removed.name, "work");
    assert_eq!(decrypt_data(b"pw", &removed.ciphertext, &removed.nonce).unwrap(), b"12345678901234567890");
    assert_eq!(manager.len(), 1);
    assert!(manager.get_credential("work").is_none());
    assert!(manager.get_credential("home").is_some());
}

#[test]
fn del_of_an_absent_name_is_not_found_and_changes_nothing() {
    let mut manager = SecretManager::new();
    assert_eq!(del(&mut manager, "work").unwrap_err(), AppError::NotFound);
    add(&mut manager, "work".to_string(), RFC_KEY, "pw").unwrap();
    let before = manager.to_bytes();
    let err = del(&mut manager, "home").unwrap_err();
    assert_eq!(err, AppError::NotFound);
    assert_eq!(err.kind(), ErrorKind::NotFound);
    assert_eq!(manager.to_bytes(), before);
    del(&mut manager, "work").unwrap();
    assert_eq!(del(&mut manager, "work").unwrap_err(), AppError::NotFound);
}

#[test]
fn entries_can_be_cloned() {
    let original = entry(RFC_KEY, "SHA256", 7, 45);
    let copy = original.clone();
    assert_eq!(copy.name, original.name);
    assert_eq!(copy.secret_base32, original.secret_base32);
    assert_eq!(copy.issuer, original.issuer);
    assert_eq!(copy.account_name, original.account_name);
    assert_eq!(copy.algorithm_str, original.algorithm_str);
    assert_eq!(copy.digits, 7);
    assert_eq!(copy.step, 45);
}

#[test]
fn show_with_the_wrong_passphrase_is_a_crypto_error() {
    let mut manager = SecretManager::new();
    add(&mut manager, "work".to_string(), RFC_KEY, "pw").unwrap();
    assert_eq!(show(&manager, "work", "other", 59).unwrap_err(), AppError::DecryptionError);
    manager.add_credential("odd".to_string(), vec![1, 2, 3], vec![0; 5]).unwrap();
    assert_eq!(show(&manager, "odd", "pw", 59).unwrap_err(), AppError::DecryptionError);
}

#[test]
fn show_of_a_short_secret_is_refused() {
    let mut manager = SecretManager::new();
    add(&mut manager, "short".to_string(), "JBSWY3DPEHPK3PXP", "pw").unwrap();
    assert_eq!(show(&manager, "short", "pw", 59).unwrap_err(), AppError::SecretTooShort);
}

#[test]
fn countdown_steps_down_to_zero() {
    let step = countdown_step(30);
    assert_eq!(step.seconds_left, 30);
    assert_eq!(step.style, CountdownStyle::Normal);
    assert!(step.wait);
    assert_eq!(step.next, Some(29));
    let step = countdown_step(11);
    assert_eq!(step.style, CountdownStyle::Normal);
    let step = countdown_step(10);
    assert_eq!(step.style, CountdownStyle::Urgent);
    assert_eq!(step.next, Some(9));
    let step = countdown_step(1);
    assert_eq!(step.style, CountdownStyle::Urgent);
    assert!(step.wait);
    assert_eq!(step.next, Some(0));
    let step = countdown_step(0);
    assert_eq!(step.seconds_left, 0);
    assert_eq!(step.style, CountdownStyle::Normal);
    assert!(!step.wait);
    assert_eq!(step.next, None);
}

#[test]
fn countdown_from_any_start_takes_one_step_per_second() {
    let mut steps = 0;
    let mut at = Some(25u64);
    while let Some(seconds) = at {
        let step = countdown_step(seconds);
        assert_eq!(step.seconds_left, 25 - steps);
        at = step.next;
        steps += 1;
    }
    assert_eq!(steps, 26);
}

#[test]
fn spaces_are_removed_and_nothing_else() {
    assert_eq!(remove_spaces("a b  c "), "abc");
    assert_eq!(remove_spaces("   "), "");
    assert_eq!(remove_spaces(""), "");
    assert_eq!(remove_spaces("a\tb\nc"), "a\tb\nc");
    assert_eq!(remove_spaces("ä ö\u{a0}ü ✓"), "äö\u{a0}ü✓");
}
