use gauth::error::{AppError, ErrorKind};
use gauth::master::{begin, step, ProviderAction, ProviderEvent, ProviderState};

fn passphrase_of(state: &ProviderState) -> Option<String> {
    match state {
        ProviderState::Done(p) => Some(p.clone()),
        _ => None,
    }
}

#[test]
fn provider_begins_by_reading_the_store() {
    let (state, action) = begin();
    assert!(matches!(state, ProviderState::ReadingStore));
    assert!(matches!(action, ProviderAction::ReadStore));
}

#[test]
fn stored_passphrase_is_used_as_it_is() {
    let (state, _) = begin();
    let (state, action) = step(state, ProviderEvent::StoreHeld("hunter2 ✓".as_bytes().to_vec()));
    assert_eq!(passphrase_of(&state), Some("hunter2 ✓".to_string()));
    assert!(matches!(action, ProviderAction::Finish(p) if p == "hunter2 ✓"));
}

#[test]
fn stored_bytes_that_are_not_utf8_are_refused() {
    let (state, _) = begin();
    let (state, action) = step(state, ProviderEvent::StoreHeld(vec![0xff, 0xfe]));
    assert!(matches!(state, ProviderState::Failed(AppError::DecryptionError)));
    assert!(matches!(action, ProviderAction::Fail(AppError::DecryptionError)));
}

#[test]
fn empty_store_leads_through_two_prompts_to_the_store() {
    let (state, _) = begin();
    let (state, action) = step(state, ProviderEvent::StoreEmpty);
    assert!(matches!(state, ProviderState::AwaitingEntry));
    assert!(matches!(action, ProviderAction::PromptPassword));
    let (state, action) = step(state, ProviderEvent::Entered("s3cret".to_string()));
    assert!(matches!(&state, ProviderState::AwaitingConfirmation(p) if p == "s3cret"));
    assert!(matches!(action, ProviderAction::PromptConfirmation));
    let (state, action) = step(state, ProviderEvent::Entered("s3cret".to_string()));
    assert!(matches!(&state, ProviderState::Persisting(p) if p == "s3cret"));
    assert!(matches!(action, ProviderAction::Persist(p) if p == "s3cret"));
    let (state, action) = step(state, ProviderEvent::Persisted);
    assert_eq!(passphrase_of(&state), Some("s3cret".to_string()));
    assert!(matches!(action, ProviderAction::Finish(p) if p == "s3cret"));
}

#[test]
fn entries_that_differ_fail_and_persist_nothing() {
    let (state, _) = begin();
    let (state, _) = step(state, ProviderEvent::StoreEmpty);
    let (state, _) = step(state, ProviderEvent::Entered("s3cret".to_string()));
    let (state, action) = step(state, ProviderEvent::Entered("s3cret ".to_string()));
    assert!(matches!(state, ProviderState::Failed(AppError::MasterPasswordMismatch)));
    assert!(matches!(action, ProviderAction::Fail(AppError::MasterPasswordMismatch)));
    assert_eq!(AppError::MasterPasswordMismatch.kind(), ErrorKind::Input);
    let (state, action) = step(state, ProviderEvent::Persisted);
    assert!(matches!(state, ProviderState::Failed(AppError::MasterPasswordMismatch)));
    assert!(matches!(action, ProviderAction::Fail(AppError::MasterPasswordMismatch)));
}

#[test]
fn failing_store_ends_the_matter() {
    let (state, _) = begin();
    let (state, action) = step(state, ProviderEvent::StoreFailed);
    assert!(matches!(state, ProviderState::Failed(AppError::CredentialStoreUnavailable)));
    assert!(matches!(action, ProviderAction::Fail(AppError::CredentialStoreUnavailable)));
    assert_eq!(AppError::CredentialStoreUnavailable.kind(), ErrorKind::CredentialStore);
    let (state, _) = begin();
    let (state, _) = step(state, ProviderEvent::StoreEmpty);
    let (state, _) = step(state, ProviderEvent::Entered("p".to_string()));
    let (state, _) = step(state, ProviderEvent::Entered("p".to_string()));
    let (state, action) = step(state, ProviderEvent::StoreFailed);
    assert!(matches!(state, ProviderState::Failed(AppError::CredentialStoreUnavailable)));
    assert!(matches!(action, ProviderAction::Fail(AppError::CredentialStoreUnavailable)));
}

#[test]
fn reports_out_of_turn_change_nothing() {
    let (state, _) = begin();
    let (state, action) = step(state, ProviderEvent::Entered("p".to_string()));
    assert!(matches!(state, ProviderState::ReadingStore));
    assert!(matches!(action, ProviderAction::ReadStore));
    let (state, action) = step(state, ProviderEvent::Persisted);
    assert!(matches!(state, ProviderState::ReadingStore));
    assert!(matches!(action, ProviderAction::ReadStore));
    let (state, _) = step(state, ProviderEvent::StoreEmpty);
    let (state, action) = step(state, ProviderEvent::StoreEmpty);
    assert!(matches!(state, ProviderState::AwaitingEntry));
    assert!(matches!(action, ProviderAction::PromptPassword));
    let (state, action) = step(state, ProviderEvent::StoreHeld(b"x".to_vec()));
    assert!(matches!(state, ProviderState::AwaitingEntry));
    assert!(matches!(action, ProviderAction::PromptPassword));
    let (state, _) = step(state, ProviderEvent::Entered("p".to_string()));
    let (state, action) = step(state, ProviderEvent::Persisted);
    assert!(matches!(&state, ProviderState::AwaitingConfirmation(p) if p == "p"));
    assert!(matches!(action, ProviderAction::PromptConfirmation));
}

#[test]
fn known_passphrase_stays_known() {
    let (state, _) = begin();
    let (state, _) = step(state, ProviderEvent::StoreHeld(b"pw".to_vec()));
    let (state, action) = step(state, ProviderEvent::StoreFailed);
    assert_eq!(passphrase_of(&state), Some("pw".to_string()));
    assert!(matches!(action, ProviderAction::Finish(p) if p == "pw"));
    let (state, _) = step(state, ProviderEvent::Entered("other".to_string()));
    assert_eq!(passphrase_of(&state), Some("pw".to_string()));
}

#[test]
fn empty_passphrase_is_accepted_when_entered_twice() {
    let (state, _) = begin();
    let (state, _) = step(state, ProviderEvent::StoreEmpty);
    let (state, _) = step(state, ProviderEvent::Entered(String::new()));
    let (state, action) = step(state, ProviderEvent::Entered(String::new()));
    assert!(matches!(&state, ProviderState::Persisting(p) if p.is_empty()));
    assert!(matches!(action, ProviderAction::Persist(p) if p.is_empty()));
}
