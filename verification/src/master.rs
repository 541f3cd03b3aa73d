//! How the master passphrase is obtained: from the platform's credential
//! store, or, where the store holds none, by asking for it twice and keeping
//! it in the store once both entries agree.
//!
//! The store and the prompts are outside this library. What is decided here
//! is what to do next: a caller performs the action it is handed and reports
//! back what happened.

use vstd::prelude::*;
use vstd::utf8::{decode_utf8, encode_utf8_decode_utf8, valid_utf8};
use crate::codec::string_from_utf8;
use crate::error::AppError;

verus! {

/// Where the provider stands.
#[derive(Debug)]
pub enum ProviderState {
    /// The store was asked for the passphrase.
    ReadingStore,
    /// The store holds none: the passphrase was asked for.
    AwaitingEntry,
    /// The passphrase was entered: its confirmation was asked for.
    AwaitingConfirmation(String),
    /// Both entries agreed: the store was asked to keep the passphrase.
    Persisting(String),
    /// The passphrase is known.
    Done(String),
    /// No passphrase will be had.
    Failed(AppError),
}

/// What the outside reported.
#[derive(Debug)]
pub enum ProviderEvent {
    /// The store holds these bytes.
    StoreHeld(Vec<u8>),
    /// The store holds no passphrase.
    StoreEmpty,
    /// The store could not be read or written.
    StoreFailed,
    /// This was typed at the prompt.
    Entered(String),
    /// The store keeps the passphrase now.
    Persisted,
}

/// What to do next.
#[derive(Debug)]
pub enum ProviderAction {
    ReadStore,
    PromptPassword,
    PromptConfirmation,
    /// Keep this passphrase in the store.
    Persist(String),
    /// The passphrase is this.
    Finish(String),
    /// Give up with this failure.
    Fail(AppError),
}

/// A state as mathematical values.
pub enum StateView {
    ReadingStore,
    AwaitingEntry,
    AwaitingConfirmation(Seq<char>),
    Persisting(Seq<char>),
    Done(Seq<char>),
    Failed(AppError),
}

/// An event as mathematical values.
pub enum EventView {
    StoreHeld(Seq<u8>),
    StoreEmpty,
    StoreFailed,
    Entered(Seq<char>),
    Persisted,
}

/// An action as mathematical values.
pub enum ActionView {
    ReadStore,
    PromptPassword,
    PromptConfirmation,
    Persist(Seq<char>),
    Finish(Seq<char>),
    Fail(AppError),
}

impl View for ProviderState {
    type V = StateView;

    open spec fn view(&self) -> StateView {
        match self {
            ProviderState::ReadingStore => StateView::ReadingStore,
            ProviderState::AwaitingEntry => StateView::AwaitingEntry,
            ProviderState::AwaitingConfirmation(p) => StateView::AwaitingConfirmation(p@),
            ProviderState::Persisting(p) => StateView::Persisting(p@),
            ProviderState::Done(p) => StateView::Done(p@),
            ProviderState::Failed(e) => StateView::Failed(*e),
        }
    }
}

impl View for ProviderEvent {
    type V = EventView;

    open spec fn view(&self) -> EventView {
        match self {
            ProviderEvent::StoreHeld(b) => EventView::StoreHeld(b@),
            ProviderEvent::StoreEmpty => EventView::StoreEmpty,
            ProviderEvent::StoreFailed => EventView::StoreFailed,
            ProviderEvent::Entered(p) => EventView::Entered(p@),
            ProviderEvent::Persisted => EventView::Persisted,
        }
    }
}

impl View for ProviderAction {
    type V = ActionView;

    open spec fn view(&self) -> ActionView {
        match self {
            ProviderAction::ReadStore => ActionView::ReadStore,
            ProviderAction::PromptPassword => ActionView::PromptPassword,
            ProviderAction::PromptConfirmation => ActionView::PromptConfirmation,
            ProviderAction::Persist(p) => ActionView::Persist(p@),
            ProviderAction::Finish(p) => ActionView::Finish(p@),
            ProviderAction::Fail(e) => ActionView::Fail(*e),
        }
    }
}

/// The action that a state waits on: what a caller does on entering it, and
/// does again where it reports something the state has no use for.
pub open spec fn pending(state: StateView) -> ActionView {
    match state {
        StateView::ReadingStore => ActionView::ReadStore,
        StateView::AwaitingEntry => ActionView::PromptPassword,
        StateView::AwaitingConfirmation(_) => ActionView::PromptConfirmation,
        StateView::Persisting(p) => ActionView::Persist(p),
        StateView::Done(p) => ActionView::Finish(p),
        StateView::Failed(e) => ActionView::Fail(e),
    }
}

/// The state that follows `state` on `event`.
///
/// A passphrase held by the store ends the matter: it is the passphrase where
/// it is UTF-8, a `DecryptionError` where it is not. An empty store leads to
/// the two prompts; entries that agree lead to the store, entries that differ
/// to `MasterPasswordMismatch`, with nothing kept. A store that fails leads
/// to `CredentialStoreUnavailable`. Anything else leaves the state as it is.
pub open spec fn next_state(state: StateView, event: EventView) -> StateView {
    match (state, event) {
        (StateView::ReadingStore, EventView::StoreHeld(bytes)) => if valid_utf8(bytes) {
            StateView::Done(decode_utf8(bytes))
        } else {
            StateView::Failed(AppError::DecryptionError)
        },
        (StateView::ReadingStore, EventView::StoreEmpty) => StateView::AwaitingEntry,
        (StateView::ReadingStore, EventView::StoreFailed) => StateView::Failed(
            AppError::CredentialStoreUnavailable,
        ),
        (StateView::AwaitingEntry, EventView::Entered(p)) => StateView::AwaitingConfirmation(p),
        (StateView::AwaitingConfirmation(p), EventView::Entered(q)) => if p == q {
            StateView::Persisting(p)
        } else {
            StateView::Failed(AppError::MasterPasswordMismatch)
        },
        (StateView::Persisting(p), EventView::Persisted) => StateView::Done(p),
        (StateView::Persisting(_), EventView::StoreFailed) => StateView::Failed(
            AppError::CredentialStoreUnavailable,
        ),
        (s, _) => s,
    }
}

/// Whether the state asks the store to keep a passphrase.
pub open spec fn persists(state: StateView) -> bool {
    state is Persisting
}

/// The store is asked to keep a passphrase only after it was entered twice,
/// the same both times; entries that differ end in `MasterPasswordMismatch`.
pub proof fn lemma_persist_only_on_match(state: StateView, event: EventView)
    requires
        !persists(state),
    ensures
        persists(next_state(state, event)) <==> (state matches StateView::AwaitingConfirmation(p)
            && event == EventView::Entered(p)),
        (state matches StateView::AwaitingConfirmation(p) && event matches EventView::Entered(q)
            && p != q) ==> next_state(state, event) == StateView::Failed(
            AppError::MasterPasswordMismatch,
        ),
{
}

/// Once the passphrase is known or given up, nothing changes that.
pub proof fn lemma_final_states_stay(state: StateView, event: EventView)
    requires
        state is Done || state is Failed,
    ensures
        next_state(state, event) == state,
{
}

/// The state in which to begin, and the first action: read the store.
pub fn begin() -> (start: (ProviderState, ProviderAction))
    ensures
        start.0@ == StateView::ReadingStore,
        start.1@ == ActionView::ReadStore,
{
    (ProviderState::ReadingStore, ProviderAction::ReadStore)
}

/// The action that a state waits on.
fn pending_action(state: &ProviderState) -> (action: ProviderAction)
    ensures
        action@ == pending(state@),
{
    match state {
        ProviderState::ReadingStore => ProviderAction::ReadStore,
        ProviderState::AwaitingEntry => ProviderAction::PromptPassword,
        ProviderState::AwaitingConfirmation(_) => ProviderAction::PromptConfirmation,
        ProviderState::Persisting(p) => ProviderAction::Persist(p.clone()),
        ProviderState::Done(p) => ProviderAction::Finish(p.clone()),
        ProviderState::Failed(e) => ProviderAction::Fail(*e),
    }
}

/// Takes the provider from one state to the next on what the outside
/// reported, and says what to do now.
pub fn step(state: ProviderState, event: ProviderEvent) -> (out: (ProviderState, ProviderAction))
    ensures
        out.0@ == next_state(state@, event@),
        out.1@ == pending(out.0@),
{
    let next = match (state, event) {
        (ProviderState::ReadingStore, ProviderEvent::StoreHeld(bytes)) => {
            match string_from_utf8(bytes) {
                Some(passphrase) => {
                    proof {
                        encode_utf8_decode_utf8(passphrase@);
                    }
                    ProviderState::Done(passphrase)
                },
                None => ProviderState::Failed(AppError::DecryptionError),
            }
        },
        (ProviderState::ReadingStore, ProviderEvent::StoreEmpty) => ProviderState::AwaitingEntry,
        (ProviderState::ReadingStore, ProviderEvent::StoreFailed) => ProviderState::Failed(
            AppError::CredentialStoreUnavailable,
        ),
        (ProviderState::AwaitingEntry, ProviderEvent::Entered(p)) => {
            ProviderState::AwaitingConfirmation(p)
        },
        (ProviderState::AwaitingConfirmation(p), ProviderEvent::Entered(q)) => {
            if p == q {
                ProviderState::Persisting(p)
            } else {
                ProviderState::Failed(AppError::MasterPasswordMismatch)
            }
        },
        (ProviderState::Persisting(p), ProviderEvent::Persisted) => ProviderState::Done(p),
        (ProviderState::Persisting(_), ProviderEvent::StoreFailed) => ProviderState::Failed(
            AppError::CredentialStoreUnavailable,
        ),
        (s, _) => s,
    };
    let action = pending_action(&next);
    (next, action)
}

} // verus!
