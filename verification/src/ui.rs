//! The live display of all credentials: which codes are shown, how long each
//! stays valid, which entry is selected and which entries fit the window.
//!
//! The coordinator owns no terminal. It is handed the time and the keys that
//! were read, and hands out the rows to draw.

use vstd::prelude::*;
use vstd::string::StringSliceAdditionalSpecFns;
use crate::auth::{DEFAULT_DIGITS, DEFAULT_PERIOD};
use crate::bytes::copy_bytes;
use crate::error::AppError;
use crate::secrets::{
    decrypt_data, decrypt_data_spec, lemma_registry_holds_entries, names_distinct,
    registry_of, SecretManager,
};
use crate::totp::{
    code_at, current_code, derivable, rejection, seconds_remaining, Algorithm,
};

verus! {

/// Terminal rows that one entry takes.
pub const ITEM_HEIGHT: u16 = 5;

/// Seconds left from which on a code is drawn as about to expire.
pub const URGENT_SECONDS: u64 = 5;

/// One credential as the display keeps it.
#[derive(Debug)]
pub struct CredentialDisplay {
    pub name: String,
    /// The code last computed; `None` before the first computation.
    pub totp_code: Option<String>,
    /// The seconds the code had left when it was last computed.
    pub time_until_next_code: u64,
    pub decrypted_key_bytes: Vec<u8>,
    pub algorithm: Algorithm,
    pub digits: usize,
    pub period: u64,
}

/// What a display entry holds, as mathematical values.
pub struct EntryView {
    pub name: Seq<char>,
    pub code: Option<Seq<char>>,
    pub remaining: u64,
    pub secret: Seq<u8>,
    pub algorithm: Algorithm,
    pub digits: usize,
    pub period: u64,
}

impl View for CredentialDisplay {
    type V = EntryView;

    open spec fn view(&self) -> EntryView {
        EntryView {
            name: self.name@,
            code: match self.totp_code {
                Some(code) => Some(code@),
                None => None,
            },
            remaining: self.time_until_next_code,
            secret: self.decrypted_key_bytes@,
            algorithm: self.algorithm,
            digits: self.digits,
            period: self.period,
        }
    }
}

impl EntryView {
    /// Whether a code can be derived for the entry.
    pub open spec fn derivable(self) -> bool {
        derivable(self.secret, self.digits, self.period)
    }

    /// The entry with its code and countdown computed for `now`.
    pub open spec fn refreshed(self, now: u64) -> EntryView {
        EntryView {
            code: Some(code_at(self.secret, self.algorithm, self.digits, self.period, now)),
            remaining: seconds_remaining(self.period, now) as u64,
            ..self
        }
    }

    /// Whether the entry shows what is due at `now`.
    pub open spec fn current_at(self, now: u64) -> bool {
        self.derivable() && self == self.refreshed(now)
    }
}

/// The entries behind a sequence of display slots.
pub open spec fn entry_views(slots: Seq<CredentialDisplay>) -> Seq<EntryView> {
    slots.map_values(|d: CredentialDisplay| d@)
}

/// A key as the display understands it.
#[derive(Clone, Copy, Debug, PartialEq, Eq, Structural)]
pub enum Key {
    Char(char),
    Esc,
    Up,
    Down,
    Other,
}

/// What a key asks for.
#[derive(Clone, Copy, Debug, PartialEq, Eq, Structural)]
pub enum Action {
    Quit,
    Previous,
    Next,
    Ignore,
}

/// A step of the selection.
#[derive(Clone, Copy, Debug, PartialEq, Eq, Structural)]
pub enum Direction {
    Up,
    Down,
}

/// What each key asks for: `q` and Escape quit, Up and `k` select the
/// previous entry, Down and `j` the next; every other key is ignored.
pub open spec fn action_for_spec(key: Key) -> Action {
    match key {
        Key::Esc => Action::Quit,
        Key::Up => Action::Previous,
        Key::Down => Action::Next,
        Key::Char(c) => if c == 'q' {
            Action::Quit
        } else if c == 'k' {
            Action::Previous
        } else if c == 'j' {
            Action::Next
        } else {
            Action::Ignore
        },
        Key::Other => Action::Ignore,
    }
}

#[verifier::when_used_as_spec(action_for_spec)]
pub fn action_for(key: Key) -> (action: Action)
    ensures
        action == action_for_spec(key),
{
    match key {
        Key::Esc => Action::Quit,
        Key::Up => Action::Previous,
        Key::Down => Action::Next,
        Key::Char(c) => if c == 'q' {
            Action::Quit
        } else if c == 'k' {
            Action::Previous
        } else if c == 'j' {
            Action::Next
        } else {
            Action::Ignore
        },
        Key::Other => Action::Ignore,
    }
}

/// The entries that fit a list of the given height.
pub fn visible_rows(list_height: u16) -> (rows: usize)
    ensures
        rows == list_height / ITEM_HEIGHT,
{
    (list_height / ITEM_HEIGHT) as usize
}

/// The selection after a step forward among `count` entries: the next
/// entry, the first after the last, the first where none was selected, and
/// unchanged where there is no entry.
pub open spec fn selection_after_next(selected: Option<usize>, count: nat) -> Option<usize> {
    if count == 0 {
        selected
    } else {
        match selected {
            Some(i) => Some(((i + 1) % (count as int)) as usize),
            None => Some(0),
        }
    }
}

/// The selection after a step back among `count` entries: the entry before,
/// the last before the first, the first where none was selected, and
/// unchanged where there is no entry.
pub open spec fn selection_after_previous(selected: Option<usize>, count: nat) -> Option<usize> {
    if count == 0 {
        selected
    } else {
        match selected {
            Some(i) => if i == 0 {
                Some((count - 1) as usize)
            } else {
                Some((i - 1) as usize)
            },
            None => Some(0),
        }
    }
}

/// The first visible entry after the window of `window` entries starting at
/// `offset` was moved to hold the entry `selected`.
pub open spec fn scrolled_offset(offset: int, selected: int, window: int) -> int {
    if selected < offset {
        selected
    } else if selected >= offset + window {
        selected - window + 1
    } else {
        offset
    }
}

/// The distance between two positions.
pub open spec fn distance(a: int, b: int) -> int {
    if a <= b {
        b - a
    } else {
        a - b
    }
}

/// The window is moved by the least amount that brings the selection into
/// it: afterwards the selection is inside, a selection that was inside moves
/// nothing, and no window that holds the selection is nearer to the old one.
pub proof fn lemma_scroll_is_minimal(offset: int, selected: int, window: int, other: int)
    requires
        window > 0,
        other <= selected < other + window,
    ensures
        scrolled_offset(offset, selected, window) <= selected < scrolled_offset(
            offset,
            selected,
            window,
        ) + window,
        offset <= selected < offset + window ==> scrolled_offset(offset, selected, window)
            == offset,
        distance(offset, scrolled_offset(offset, selected, window)) <= distance(offset, other),
{
}

/// Stepping forward as often as there are entries comes back to the entry one
/// started from, and stepping back undoes stepping forward.
pub proof fn lemma_selection_wraps(selected: usize, count: nat)
    requires
        selected < count,
        count <= usize::MAX,
    ensures
        selection_after_next(Some(selected), count) matches Some(i) && i < count,
        selection_after_previous(Some(selected), count) matches Some(i) && i < count,
        selection_after_previous(selection_after_next(Some(selected), count), count) == Some(
            selected,
        ),
        selection_after_next(selection_after_previous(Some(selected), count), count) == Some(
            selected,
        ),
        selected == count - 1 ==> selection_after_next(Some(selected), count) == Some(0usize),
        selected == 0 ==> selection_after_previous(Some(selected), count) == Some(
            (count - 1) as usize,
        ),
{
    if selected + 1 < count {
        assert((selected + 1) % (count as int) == selected + 1) by (nonlinear_arith)
            requires
                0 <= selected + 1 < count,
        ;
    } else {
        assert((selected + 1) % (count as int) == 0) by (nonlinear_arith)
            requires
                selected + 1 == count,
                count > 0,
        ;
    }
    if selected > 0 {
        assert(((selected - 1) + 1) % (count as int) == selected) by (nonlinear_arith)
            requires
                0 <= selected < count,
        ;
    } else {
        assert(((count - 1) + 1) % (count as int) == 0) by (nonlinear_arith)
            requires
                count > 0,
        ;
    }
}

/// The code as it is drawn: six digits in two groups of three, any other
/// code as it is, six dashes where there is none yet.
pub open spec fn display_code_spec(code: Option<Seq<char>>) -> Seq<char> {
    match code {
        None => seq!['-', '-', '-', '-', '-', '-'],
        Some(c) => if c.len() == 6 {
            c.subrange(0, 3) + seq![' '] + c.subrange(3, 6)
        } else {
            c
        },
    }
}

/// The code as it is drawn.
pub fn display_code(code: &Option<String>) -> (shown: String)
    ensures
        shown@ == display_code_spec(
            match code {
                Some(c) => Some(c@),
                None => None,
            },
        ),
{
    match code {
        None => {
            proof {
                reveal_strlit("------");
            }
            let shown = String::from_str("------");
            assert(shown@ =~= seq!['-', '-', '-', '-', '-', '-']);
            shown
        },
        Some(c) => {
            let text = c.as_str();
            if text.unicode_len() == 6 {
                proof {
                    reveal_strlit(" ");
                }
                let mut shown = String::from_str(text.substring_char(0, 3));
                shown.append(" ");
                shown.append(text.substring_char(3, 6));
                assert(shown@ =~= c@.subrange(0, 3) + seq![' '] + c@.subrange(3, 6));
                shown
            } else {
                c.clone()
            }
        },
    }
}

/// One row of the display, ready to draw.
#[derive(Debug)]
pub struct Row {
    pub name: String,
    /// The code as it is drawn.
    pub code: String,
    /// Seconds the code has left; over `period` it is the fill of the gauge.
    pub seconds_left: u64,
    pub period: u64,
    /// Whether the code is about to expire.
    pub urgent: bool,
    pub selected: bool,
}

/// What a row holds, as mathematical values.
pub struct RowView {
    pub name: Seq<char>,
    pub code: Seq<char>,
    pub seconds_left: u64,
    pub period: u64,
    pub urgent: bool,
    pub selected: bool,
}

impl View for Row {
    type V = RowView;

    open spec fn view(&self) -> RowView {
        RowView {
            name: self.name@,
            code: self.code@,
            seconds_left: self.seconds_left,
            period: self.period,
            urgent: self.urgent,
            selected: self.selected,
        }
    }
}

/// The row drawn for an entry.
pub open spec fn row_of(entry: EntryView, selected: bool) -> RowView {
    RowView {
        name: entry.name,
        code: display_code_spec(entry.code),
        seconds_left: entry.remaining,
        period: entry.period,
        urgent: entry.remaining <= URGENT_SECONDS,
        selected,
    }
}

/// The index after the last visible entry.
pub open spec fn window_end(offset: int, window: int, count: int) -> int {
    if offset + window < count {
        offset + window
    } else {
        count
    }
}

/// The state of the display.
#[derive(Debug)]
pub struct App {
    credentials_display: Vec<CredentialDisplay>,
    selected: Option<usize>,
    scroll_offset: usize,
}

impl App {
    #[verifier::type_invariant]
    spec fn in_range(self) -> bool {
        &&& self.selected matches Some(i) ==> i < self.credentials_display@.len()
        &&& self.scroll_offset <= self.credentials_display@.len()
    }

    /// The entries, in the order in which they are drawn.
    pub closed spec fn entries(&self) -> Seq<EntryView> {
        entry_views(self.credentials_display@)
    }

    /// The index of the selected entry.
    pub closed spec fn spec_selected(&self) -> Option<usize> {
        self.selected
    }

    /// The index of the first visible entry.
    pub closed spec fn spec_scroll_offset(&self) -> usize {
        self.scroll_offset
    }

    /// The index of the selected entry, which is always one of the entries.
    #[verifier::when_used_as_spec(spec_selected)]
    pub fn selected(&self) -> (s: Option<usize>)
        ensures
            s == self.spec_selected(),
            s matches Some(i) ==> i < self.entries().len(),
    {
        proof {
            use_type_invariant(self);
        }
        self.selected
    }

    /// The index of the first visible entry, never past the last entry's
    /// successor.
    #[verifier::when_used_as_spec(spec_scroll_offset)]
    pub fn scroll_offset(&self) -> (o: usize)
        ensures
            o == self.spec_scroll_offset(),
            o <= self.entries().len(),
    {
        proof {
            use_type_invariant(self);
        }
        self.scroll_offset
    }

    /// How many entries the display has.
    pub fn len(&self) -> (n: usize)
        ensures
            n == self.entries().len(),
    {
        self.credentials_display.len()
    }

    /// A display of the given entries, none of whose codes is computed yet.
    /// The first entry is selected, where there is one.
    pub fn from_entries(entries: Vec<CredentialDisplay>) -> (app: App)
        ensures
            app.entries() == entry_views(entries@),
            app.spec_selected() == (if entries@.len() > 0 {
                Some(0usize)
            } else {
                None
            }),
            app.spec_scroll_offset() == 0,
    {
        let selected = if entries.len() > 0 { Some(0) } else { None };
        App { credentials_display: entries, selected, scroll_offset: 0 }
    }

    /// A display of all credentials of the registry, in the registry's
    /// order, each unsealed with the master passphrase and shown with SHA-1,
    /// six digits and a period of 30 seconds, with the codes due at `now`.
    ///
    /// Fails with `DecryptionError` where a credential does not unseal, else
    /// as [`App::update_all_totp_codes`] does.
    pub fn new(master_password: &str, secret_manager: &SecretManager, now: u64) -> (res: Result<
        App,
        AppError,
    >)
        ensures
            res matches Ok(app) ==> {
                &&& app.entries().len() == secret_manager.entries().len()
                &&& forall|i: int|
                    0 <= i < app.entries().len() ==> {
                        let credential = secret_manager.entries()[i];
                        let entry = #[trigger] app.entries()[i];
                        &&& entry.name == credential.name
                        &&& decrypt_data_spec(
                            master_password.spec_bytes(),
                            credential.ciphertext,
                            credential.nonce,
                        ) == Some(entry.secret)
                        &&& entry.algorithm == Algorithm::SHA1
                        &&& entry.digits == DEFAULT_DIGITS
                        &&& entry.period == DEFAULT_PERIOD
                        &&& entry.current_at(now)
                    }
                &&& app.spec_selected() == (if app.entries().len() > 0 {
                    Some(0usize)
                } else {
                    None
                })
                &&& app.spec_scroll_offset() == 0
            },
            res matches Err(e) ==> if exists|i: int|
                0 <= i < secret_manager.entries().len() && decrypt_data_spec(
                    master_password.spec_bytes(),
                    (#[trigger] secret_manager.entries()[i]).ciphertext,
                    secret_manager.entries()[i].nonce,
                ) is None {
                e == AppError::DecryptionError
            } else {
                e == AppError::SecretTooShort && exists|i: int|
                    0 <= i < secret_manager.entries().len() && (decrypt_data_spec(
                        master_password.spec_bytes(),
                        (#[trigger] secret_manager.entries()[i]).ciphertext,
                        secret_manager.entries()[i].nonce,
                    ) matches Some(secret) && secret.len() < 16)
            },
    {
        let names = secret_manager.list_credentials();
        let ghost credentials = secret_manager.entries();
        proof {
            secret_manager.lemma_view_of_entries();
            assert(names_distinct(credentials)) by {
                assert forall|a: int, b: int| 0 <= a < b < credentials.len() implies (
                #[trigger] credentials[a]).name != (#[trigger] credentials[b]).name by {
                    assert(names@[a]@ != names@[b]@);
                }
            }
            lemma_registry_holds_entries(credentials);
        }
        let mut shown: Vec<CredentialDisplay> = Vec::new();
        let mut i: usize = 0;
        while i < names.len()
            invariant
                i <= names@.len(),
                names@.len() == credentials.len(),
                credentials == secret_manager.entries(),
                secret_manager@ == registry_of(credentials),
                forall|k: int| 0 <= k < names@.len() ==> (#[trigger] names@[k])@ == credentials[k].name,
                forall|k: int|
                    0 <= k < credentials.len() ==> secret_manager@.dom().contains(
                        (#[trigger] credentials[k]).name,
                    ) && secret_manager@[credentials[k].name] == credentials[k],
                shown@.len() == i,
                forall|k: int|
                    0 <= k < i ==> {
                        let entry = #[trigger] entry_views(shown@)[k];
                        &&& entry.name == credentials[k].name
                        &&& decrypt_data_spec(
                            master_password.spec_bytes(),
                            credentials[k].ciphertext,
                            credentials[k].nonce,
                        ) == Some(entry.secret)
                        &&& entry.algorithm == Algorithm::SHA1
                        &&& entry.digits == DEFAULT_DIGITS
                        &&& entry.period == DEFAULT_PERIOD
                    },
            decreases names@.len() - i,
        {
            let name = names[i];
            assert(name@ == credentials[i as int].name);
            match secret_manager.get_credential(name.as_str()) {
                None => {
                    // Every listed name is registered.
                    assert(false);
                },
                Some(credential) => {
                    assert(credential@ == credentials[i as int]);
                    let secret = match decrypt_data(
                        master_password.as_bytes(),
                        credential.ciphertext.as_slice(),
                        credential.nonce.as_slice(),
                    ) {
                        Ok(secret) => secret,
                        Err(e) => {
                            assert(decrypt_data_spec(
                                master_password.spec_bytes(),
                                secret_manager.entries()[i as int].ciphertext,
                                secret_manager.entries()[i as int].nonce,
                            ) is None);
                            return Err(e);
                        },
                    };
                    let ghost before = entry_views(shown@);
                    let entry = CredentialDisplay {
                        name: name.clone(),
                        totp_code: None,
                        time_until_next_code: 0,
                        decrypted_key_bytes: secret,
                        algorithm: Algorithm::SHA1,
                        digits: DEFAULT_DIGITS,
                        period: DEFAULT_PERIOD,
                    };
                    proof {
                        assert(entry_views(shown@.push(entry)) =~= before.push(entry@));
                    }
                    shown.push(entry);
                },
            }
            i += 1;
        }
        let mut app = App::from_entries(shown);
        let ghost loaded = app.entries();
        match app.update_all_totp_codes(now) {
            Ok(()) => Ok(app),
            Err(e) => {
                proof {
                    let k = choose|k: int|
                        0 <= k < loaded.len() && !(#[trigger] loaded[k]).derivable() && e
                            == rejection(loaded[k].secret, loaded[k].digits, loaded[k].period);
                    assert(loaded[k].secret.len() < 16);
                    assert forall|j: int| 0 <= j < credentials.len() implies decrypt_data_spec(
                        master_password.spec_bytes(),
                        (#[trigger] credentials[j]).ciphertext,
                        credentials[j].nonce,
                    ) is Some by {
                        assert(loaded[j].name == credentials[j].name);
                    }
                    assert(decrypt_data_spec(
                        master_password.spec_bytes(),
                        credentials[k].ciphertext,
                        credentials[k].nonce,
                    ) == Some(loaded[k].secret));
                }
                Err(e)
            },
        }
    }

    /// Computes every entry's code and countdown for `now`.
    ///
    /// Succeeds exactly when a code can be derived for every entry; then every
    /// entry shows the code of its window at `now` and the seconds that
    /// window has left, and nothing else has changed. Otherwise the failure
    /// is that of the first entry without a code, and nothing has changed.
    pub fn update_all_totp_codes(&mut self, now: u64) -> (res: Result<(), AppError>)
        ensures
            res is Ok <==> forall|i: int|
                0 <= i < old(self).entries().len() ==> (#[trigger] old(self).entries()[i]).derivable(),
            res is Ok ==> {
                &&& final(self).entries().len() == old(self).entries().len()
                &&& forall|i: int|
                    0 <= i < old(self).entries().len() ==> #[trigger] final(self).entries()[i] == old(
                        self,
                    ).entries()[i].refreshed(now)
                &&& forall|i: int|
                    0 <= i < final(self).entries().len() ==> (#[trigger] final(self).entries()[i]).current_at(now)
            },
            res matches Err(e) ==> {
                &&& final(self).entries() == old(self).entries()
                &&& exists|k: int|
                    0 <= k < old(self).entries().len() && !(#[trigger] old(self).entries()[k]).derivable()
                        && e == rejection(
                        old(self).entries()[k].secret,
                        old(self).entries()[k].digits,
                        old(self).entries()[k].period,
                    ) && forall|j: int| 0 <= j < k ==> (#[trigger] old(self).entries()[j]).derivable()
            },
            final(self).spec_selected() == old(self).spec_selected(),
            final(self).spec_scroll_offset() == old(self).spec_scroll_offset(),
    {
        proof {
            use_type_invariant(&*self);
        }
        let ghost before = self.entries();
        let mut fresh: Vec<CredentialDisplay> = Vec::new();
        let mut i: usize = 0;
        while i < self.credentials_display.len()
            invariant
                i <= self.credentials_display@.len(),
                before == entry_views(self.credentials_display@),
                fresh@.len() == i,
                forall|k: int| 0 <= k < i ==> (#[trigger] before[k]).derivable(),
                forall|k: int|
                    0 <= k < i ==> #[trigger] entry_views(fresh@)[k] == before[k].refreshed(now),
            decreases self.credentials_display@.len() - i,
        {
            let entry = &self.credentials_display[i];
            assert(entry@ == before[i as int]);
            match current_code(
                entry.decrypted_key_bytes.as_slice(),
                entry.algorithm,
                entry.digits,
                entry.period,
                now,
            ) {
                Err(e) => {
                    assert(!before[i as int].derivable());
                    return Err(e);
                },
                Ok((code, remaining)) => {
                    let ghost so_far = entry_views(fresh@);
                    let updated = CredentialDisplay {
                        name: entry.name.clone(),
                        totp_code: Some(code),
                        time_until_next_code: remaining,
                        decrypted_key_bytes: copy_bytes(entry.decrypted_key_bytes.as_slice()),
                        algorithm: entry.algorithm,
                        digits: entry.digits,
                        period: entry.period,
                    };
                    proof {
                        assert(updated@ == before[i as int].refreshed(now));
                        assert(entry_views(fresh@.push(updated)) =~= so_far.push(updated@));
                    }
                    fresh.push(updated);
                },
            }
            i += 1;
        }
        self.credentials_display = fresh;
        proof {
            assert forall|k: int| 0 <= k < self.entries().len() implies (
            #[trigger] self.entries()[k]).current_at(now) by {
                assert(self.entries()[k] == before[k].refreshed(now));
                assert(before[k].derivable());
            }
        }
        Ok(())
    }

    /// Whether some entry no longer shows what is due at `now`: a code that
    /// was never computed, or a countdown that has moved on.
    pub fn is_stale(&self, now: u64) -> (stale: bool)
        ensures
            stale == exists|i: int|
                0 <= i < self.entries().len() && ((#[trigger] self.entries()[i]).code is None
                    || self.entries()[i].period == 0 || self.entries()[i].remaining
                    != seconds_remaining(self.entries()[i].period, now)),
    {
        let mut i: usize = 0;
        while i < self.credentials_display.len()
            invariant
                i <= self.credentials_display@.len(),
                forall|k: int|
                    0 <= k < i ==> !((#[trigger] self.entries()[k]).code is None
                        || self.entries()[k].period == 0 || self.entries()[k].remaining
                        != seconds_remaining(self.entries()[k].period, now)),
            decreases self.credentials_display@.len() - i,
        {
            let entry = &self.credentials_display[i];
            assert(entry@ == self.entries()[i as int]);
            if entry.totp_code.is_none() || entry.period == 0 || entry.time_until_next_code
                != entry.period - now % entry.period {
                return true;
            }
            i += 1;
        }
        false
    }

    /// Brings the display up to `now` and tells whether a window rolled over.
    ///
    /// Every entry is recomputed, all together, so that the display stays in
    /// step even where periods differ. The answer is whether the countdown of
    /// some entry went up since it was last computed, which is how the start
    /// of a new window shows. Fails, and changes nothing, as
    /// [`App::update_all_totp_codes`] does.
    pub fn tick(&mut self, now: u64) -> (res: Result<bool, AppError>)
        ensures
            res is Ok <==> forall|i: int|
                0 <= i < old(self).entries().len() ==> (#[trigger] old(self).entries()[i]).derivable(),
            res matches Ok(rolled) ==> {
                &&& final(self).entries().len() == old(self).entries().len()
                &&& forall|i: int|
                    0 <= i < old(self).entries().len() ==> #[trigger] final(self).entries()[i] == old(
                        self,
                    ).entries()[i].refreshed(now)
                &&& rolled == exists|i: int|
                    0 <= i < old(self).entries().len() && seconds_remaining(
                        (#[trigger] old(self).entries()[i]).period,
                        now,
                    ) > old(self).entries()[i].remaining
            },
            res matches Err(e) ==> {
                &&& final(self).entries() == old(self).entries()
                &&& exists|k: int|
                    0 <= k < old(self).entries().len() && !(#[trigger] old(self).entries()[k]).derivable()
                        && e == rejection(
                        old(self).entries()[k].secret,
                        old(self).entries()[k].digits,
                        old(self).entries()[k].period,
                    ) && forall|j: int| 0 <= j < k ==> (#[trigger] old(self).entries()[j]).derivable()
            },
            final(self).spec_selected() == old(self).spec_selected(),
            final(self).spec_scroll_offset() == old(self).spec_scroll_offset(),
    {
        let ghost before = self.entries();
        let mut rolled = false;
        let mut i: usize = 0;
        while i < self.credentials_display.len()
            invariant
                i <= self.credentials_display@.len(),
                before == self.entries(),
                rolled == exists|k: int|
                    0 <= k < i && (#[trigger] before[k]).period > 0 && seconds_remaining(
                        before[k].period,
                        now,
                    ) > before[k].remaining,
            decreases self.credentials_display@.len() - i,
        {
            let entry = &self.credentials_display[i];
            assert(entry@ == before[i as int]);
            if entry.period > 0 && entry.period - now % entry.period > entry.time_until_next_code {
                rolled = true;
            }
            i += 1;
        }
        self.update_all_totp_codes(now)?;
        proof {
            assert forall|k: int| 0 <= k < before.len() implies (#[trigger] before[k]).period > 0 by {
                assert(before[k].derivable());
            }
        }
        Ok(rolled)
    }

    /// Selects the next entry, the first after the last.
    pub fn next(&mut self)
        ensures
            final(self).spec_selected() == selection_after_next(
                old(self).spec_selected(),
                old(self).entries().len(),
            ),
            final(self).entries() == old(self).entries(),
            final(self).spec_scroll_offset() == old(self).spec_scroll_offset(),
    {
        proof {
            use_type_invariant(&*self);
        }
        let count = self.credentials_display.len();
        if count == 0 {
            return ;
        }
        let i = match self.selected {
            Some(i) => if i + 1 == count {
                assert((i + 1) % (count as int) == 0) by (nonlinear_arith)
                    requires
                        i + 1 == count,
                        count > 0,
                ;
                0
            } else {
                assert((i + 1) % (count as int) == i + 1) by (nonlinear_arith)
                    requires
                        0 <= i + 1 < count,
                ;
                i + 1
            },
            None => 0,
        };
        self.selected = Some(i);
    }

    /// Selects the previous entry, the last before the first.
    pub fn previous(&mut self)
        ensures
            final(self).spec_selected() == selection_after_previous(
                old(self).spec_selected(),
                old(self).entries().len(),
            ),
            final(self).entries() == old(self).entries(),
            final(self).spec_scroll_offset() == old(self).spec_scroll_offset(),
    {
        proof {
            use_type_invariant(&*self);
        }
        let count = self.credentials_display.len();
        if count == 0 {
            return ;
        }
        let i = match self.selected {
            Some(i) => if i == 0 {
                count - 1
            } else {
                i - 1
            },
            None => 0,
        };
        self.selected = Some(i);
    }

    /// Moves the window of `displayable_count` entries by the least amount
    /// that brings the selected entry into it. Without a selection nothing
    /// moves.
    pub fn scroll_to_selection(&mut self, displayable_count: usize)
        ensures
            final(self).spec_scroll_offset() == (match old(self).spec_selected() {
                Some(selected) => scrolled_offset(
                    old(self).spec_scroll_offset() as int,
                    selected as int,
                    displayable_count as int,
                ),
                None => old(self).spec_scroll_offset() as int,
            }),
            final(self).entries() == old(self).entries(),
            final(self).spec_selected() == old(self).spec_selected(),
    {
        proof {
            use_type_invariant(&*self);
        }
        let count = self.credentials_display.len();
        if let Some(selected) = self.selected {
            assert(selected < count);
            if selected < self.scroll_offset {
                self.scroll_offset = selected;
            } else if selected - self.scroll_offset >= displayable_count {
                self.scroll_offset = selected - displayable_count + 1;
            }
        }
    }

    /// Moves the selection one step, wrapping around at either end, and then
    /// the window by the least amount that keeps the selection inside it.
    pub fn navigate(&mut self, direction: Direction, displayable_count: usize)
        ensures
            final(self).spec_selected() == (match direction {
                Direction::Up => selection_after_previous(
                    old(self).spec_selected(),
                    old(self).entries().len(),
                ),
                Direction::Down => selection_after_next(
                    old(self).spec_selected(),
                    old(self).entries().len(),
                ),
            }),
            final(self).spec_scroll_offset() == (match final(self).spec_selected() {
                Some(selected) => scrolled_offset(
                    old(self).spec_scroll_offset() as int,
                    selected as int,
                    displayable_count as int,
                ),
                None => old(self).spec_scroll_offset() as int,
            }),
            final(self).entries() == old(self).entries(),
    {
        match direction {
            Direction::Up => self.previous(),
            Direction::Down => self.next(),
        }
        self.scroll_to_selection(displayable_count);
    }

    /// Applies a key: moves the selection as the key asks. Returns whether the
    /// key asks to quit.
    pub fn handle_key(&mut self, key: Key) -> (quit: bool)
        ensures
            quit == (action_for_spec(key) == Action::Quit),
            final(self).entries() == old(self).entries(),
            final(self).spec_scroll_offset() == old(self).spec_scroll_offset(),
            final(self).spec_selected() == (match action_for_spec(key) {
                Action::Next => selection_after_next(
                    old(self).spec_selected(),
                    old(self).entries().len(),
                ),
                Action::Previous => selection_after_previous(
                    old(self).spec_selected(),
                    old(self).entries().len(),
                ),
                _ => old(self).spec_selected(),
            }),
    {
        match action_for(key) {
            Action::Quit => true,
            Action::Previous => {
                self.previous();
                false
            },
            Action::Next => {
                self.next();
                false
            },
            Action::Ignore => false,
        }
    }

    /// The rows to draw in a window of `displayable_count` entries: the
    /// entries from the first visible one on, as many as fit, in order, the
    /// selected one marked.
    pub fn view_model(&self, displayable_count: usize) -> (rows: Vec<Row>)
        ensures
            rows@.len() == window_end(
                self.spec_scroll_offset() as int,
                displayable_count as int,
                self.entries().len() as int,
            ) - self.spec_scroll_offset(),
            forall|k: int|
                0 <= k < rows@.len() ==> (#[trigger] rows@[k])@ == row_of(
                    self.entries()[self.spec_scroll_offset() + k],
                    self.spec_selected() == Some((self.spec_scroll_offset() + k) as usize),
                ),
    {
        proof {
            use_type_invariant(self);
        }
        let start = self.scroll_offset;
        let count = self.credentials_display.len();
        let end = if displayable_count < count - start {
            start + displayable_count
        } else {
            count
        };
        let mut rows: Vec<Row> = Vec::new();
        let mut i: usize = start;
        while i < end
            invariant
                start <= i <= end <= count,
                count == self.credentials_display@.len(),
                start == self.scroll_offset,
                rows@.len() == i - start,
                forall|k: int|
                    0 <= k < rows@.len() ==> (#[trigger] rows@[k])@ == row_of(
                        self.entries()[start + k],
                        self.spec_selected() == Some((start + k) as usize),
                    ),
            decreases end - i,
        {
            let entry = &self.credentials_display[i];
            assert(entry@ == self.entries()[i as int]);
            let is_selected = match self.selected {
                Some(s) => s == i,
                None => false,
            };
            let row = Row {
                name: entry.name.clone(),
                code: display_code(&entry.totp_code),
                seconds_left: entry.time_until_next_code,
                period: entry.period,
                urgent: entry.time_until_next_code <= URGENT_SECONDS,
                selected: is_selected,
            };
            rows.push(row);
            i += 1;
        }
        rows
    }
}

} // verus!
