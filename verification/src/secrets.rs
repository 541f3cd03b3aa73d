//! The credential registry: named, sealed one-time-password secrets held in
//! memory, with the sealing and unsealing of one secret under the master
//! passphrase, and the registry's way into and out of a vault file.
//!
//! The registry maps each name to one credential. Changing it never writes
//! anything: a caller saves when it means to keep a change.

use vstd::prelude::*;
use vstd::string::StringSliceAdditionalSpecFns;
use crate::bytes::{copy_bytes, wipe};
use crate::codec::{
    decode_credentials, decode_registry, encodable, encode_credentials, encode_entries,
    lemma_decode_encoded_registry,
};
use crate::crypto::{
    aead_decrypt, aead_encrypt, aead_open_spec, aes256_gcm_seal, derive_key_spec, random_bytes,
    sha256, sha256_digest, MAX_PLAINTEXT, NONCE_SIZE, SALT_SIZE,
};
use crate::error::{AppError, ErrorKind};
use crate::vault::{
    load_auth_entries_encrypted, load_spec, save_auth_entries_encrypted, save_with,
    VaultBlobView,
};

verus! {

/// One registered secret: its name and the secret sealed under the master
/// passphrase, with the nonce it was sealed with.
#[derive(Clone, Debug)]
pub struct Credential {
    pub name: String,
    pub ciphertext: Vec<u8>,
    pub nonce: Vec<u8>,
}

/// What a credential holds, as mathematical values.
pub struct CredentialView {
    pub name: Seq<char>,
    pub ciphertext: Seq<u8>,
    pub nonce: Seq<u8>,
}

impl View for Credential {
    type V = CredentialView;

    open spec fn view(&self) -> CredentialView {
        CredentialView { name: self.name@, ciphertext: self.ciphertext@, nonce: self.nonce@ }
    }
}

impl Credential {
    /// A copy that holds the same name, ciphertext and nonce.
    pub fn duplicate(&self) -> (c: Credential)
        ensures
            c@ == self@,
    {
        Credential {
            name: self.name.clone(),
            ciphertext: copy_bytes(self.ciphertext.as_slice()),
            nonce: copy_bytes(self.nonce.as_slice()),
        }
    }
}

/// The credentials behind a sequence of registry slots.
pub open spec fn views_of(slots: Seq<Credential>) -> Seq<CredentialView> {
    slots.map_values(|c: Credential| c@)
}

/// No two entries bear the same name.
pub open spec fn names_distinct(entries: Seq<CredentialView>) -> bool {
    forall|i: int, j: int|
        0 <= i < j < entries.len() ==> (#[trigger] entries[i]).name != (#[trigger] entries[j]).name
}

/// Some entry bears `name`.
pub open spec fn has_name(entries: Seq<CredentialView>, name: Seq<char>) -> bool {
    exists|i: int| 0 <= i < entries.len() && (#[trigger] entries[i]).name == name
}

/// The mapping from name to credential that a sequence of entries stands for.
/// Where a name occurs twice the later entry counts; in a registry none does.
pub open spec fn registry_of(entries: Seq<CredentialView>) -> Map<Seq<char>, CredentialView>
    decreases entries.len(),
{
    if entries.len() == 0 {
        Map::empty()
    } else {
        registry_of(entries.drop_last()).insert(entries.last().name, entries.last())
    }
}

/// The domain of the mapping is the set of names that occur, and it is finite.
pub proof fn lemma_registry_dom(entries: Seq<CredentialView>)
    ensures
        registry_of(entries).dom().finite(),
        forall|name: Seq<char>| #[trigger]
            registry_of(entries).dom().contains(name) <==> has_name(entries, name),
    decreases entries.len(),
{
    if entries.len() > 0 {
        let init = entries.drop_last();
        lemma_registry_dom(init);
        assert forall|name: Seq<char>| #[trigger]
            registry_of(entries).dom().contains(name) <==> has_name(entries, name) by {
            if has_name(entries, name) {
                let i = choose|i: int| 0 <= i < entries.len() && (#[trigger] entries[i]).name == name;
                if i < entries.len() - 1 {
                    assert(init[i].name == name);
                    assert(has_name(init, name));
                }
            }
            if registry_of(entries).dom().contains(name) {
                if name != entries.last().name {
                    assert(has_name(init, name));
                    let i = choose|i: int| 0 <= i < init.len() && (#[trigger] init[i]).name == name;
                    assert(entries[i].name == name);
                } else {
                    assert(entries[entries.len() - 1].name == name);
                }
            }
        }
    }
}

/// With distinct names, each entry is what the mapping holds under its name.
pub proof fn lemma_registry_index(entries: Seq<CredentialView>, i: int)
    requires
        names_distinct(entries),
        0 <= i < entries.len(),
    ensures
        registry_of(entries).dom().contains(entries[i].name),
        registry_of(entries)[entries[i].name] == entries[i],
    decreases entries.len(),
{
    let init = entries.drop_last();
    if i < entries.len() - 1 {
        assert(names_distinct(init)) by {
            assert forall|a: int, b: int| 0 <= a < b < init.len() implies (#[trigger] init[a]).name
                != (#[trigger] init[b]).name by {
                assert(entries[a].name != entries[b].name);
            }
        }
        lemma_registry_index(init, i);
        assert(init[i] == entries[i]);
        assert(entries[i].name != entries[entries.len() - 1].name);
    }
}

/// With distinct names, taking out one entry takes its name out of the
/// mapping and leaves every other name as it was.
pub proof fn lemma_registry_remove(entries: Seq<CredentialView>, i: int)
    requires
        names_distinct(entries),
        0 <= i < entries.len(),
    ensures
        names_distinct(entries.remove(i)),
        registry_of(entries.remove(i)) == registry_of(entries).remove(entries[i].name),
    decreases entries.len(),
{
    let rest = entries.remove(i);
    assert(names_distinct(rest)) by {
        assert forall|a: int, b: int| 0 <= a < b < rest.len() implies (#[trigger] rest[a]).name != (
        #[trigger] rest[b]).name by {
            let a2 = if a < i { a } else { a + 1 };
            let b2 = if b < i { b } else { b + 1 };
            assert(rest[a] == entries[a2]);
            assert(rest[b] == entries[b2]);
            assert(entries[a2].name != entries[b2].name);
        }
    }
    let init = entries.drop_last();
    if i == entries.len() - 1 {
        assert(rest =~= init);
        lemma_registry_dom(init);
        if has_name(init, entries[i].name) {
            let j = choose|j: int| 0 <= j < init.len() && (#[trigger] init[j]).name == entries[i].name;
            assert(entries[j].name != entries[i].name);
        }
        assert(registry_of(init) =~= registry_of(entries).remove(entries[i].name));
    } else {
        assert(names_distinct(init)) by {
            assert forall|a: int, b: int| 0 <= a < b < init.len() implies (#[trigger] init[a]).name
                != (#[trigger] init[b]).name by {
                assert(entries[a].name != entries[b].name);
            }
        }
        lemma_registry_remove(init, i);
        assert(rest.drop_last() =~= init.remove(i));
        assert(rest.last() == entries.last());
        assert(init[i] == entries[i]);
        assert(entries[i].name != entries[entries.len() - 1].name);
        assert(registry_of(rest) =~= registry_of(entries).remove(entries[i].name));
    }
}

/// With distinct names, the mapping holds exactly the entries: its domain is
/// the names that occur, and under each name stands the entry that bears it.
pub proof fn lemma_registry_holds_entries(entries: Seq<CredentialView>)
    requires
        names_distinct(entries),
    ensures
        registry_of(entries).dom().finite(),
        forall|name: Seq<char>| #[trigger]
            registry_of(entries).dom().contains(name) <==> has_name(entries, name),
        forall|i: int|
            0 <= i < entries.len() ==> registry_of(entries).dom().contains(
                (#[trigger] entries[i]).name,
            ) && registry_of(entries)[entries[i].name] == entries[i],
{
    lemma_registry_dom(entries);
    assert forall|i: int| 0 <= i < entries.len() implies registry_of(entries).dom().contains(
        (#[trigger] entries[i]).name,
    ) && registry_of(entries)[entries[i].name] == entries[i] by {
        lemma_registry_index(entries, i);
    }
}

/// Whether no two of the credentials bear the same name.
fn distinct_names(credentials: &Vec<Credential>) -> (b: bool)
    ensures
        b == names_distinct(views_of(credentials@)),
{
    let ghost entries = views_of(credentials@);
    let mut j: usize = 0;
    while j < credentials.len()
        invariant
            j <= credentials@.len(),
            entries == views_of(credentials@),
            forall|a: int, b: int|
                0 <= a < b < j ==> (#[trigger] entries[a]).name != (#[trigger] entries[b]).name,
        decreases credentials@.len() - j,
    {
        let mut i: usize = 0;
        while i < j
            invariant
                i <= j < credentials@.len(),
                entries == views_of(credentials@),
                forall|a: int| 0 <= a < i ==> (#[trigger] entries[a]).name != entries[j as int].name,
            decreases j - i,
        {
            if credentials[i].name == credentials[j].name {
                assert(entries[i as int].name == entries[j as int].name);
                return false;
            }
            i += 1;
        }
        j += 1;
    }
    true
}

/// What loading a registry yields: the empty registry where there is no
/// vault file; `DecryptionError` where the file does not authenticate under
/// the passphrase; `VaultCorrupt` where it does but holds no registry; else
/// the credentials it holds.
pub open spec fn load_secrets_spec(contents: Option<Seq<u8>>, password: Seq<u8>) -> Result<
    Seq<CredentialView>,
    AppError,
> {
    match load_spec(contents, password) {
        Err(e) => Err(e),
        Ok(None) => Ok(Seq::empty()),
        Ok(Some(payload)) => match decode_registry(payload) {
            None => Err(AppError::VaultCorrupt),
            Some(entries) => Ok(entries),
        },
    }
}

/// A vault file whose payload is a written registry loads as that registry.
pub proof fn lemma_load_after_save(entries: Seq<CredentialView>, password: Seq<u8>, file: Seq<u8>)
    requires
        names_distinct(entries),
        encodable(entries),
        load_spec(Some(file), password) == Ok::<Option<Seq<u8>>, AppError>(
            Some(encode_entries(entries)),
        ),
    ensures
        load_secrets_spec(Some(file), password) == Ok::<Seq<CredentialView>, AppError>(entries),
{
    lemma_decode_encoded_registry(entries);
}

/// A vault file that does not authenticate under the passphrase never loads:
/// the answer is `DecryptionError`, whatever the file holds, and no registry.
pub proof fn lemma_load_fails_closed(file: Seq<u8>, password: Seq<u8>)
    requires
        match VaultBlobView::decode(file) {
            None => true,
            Some(blob) => blob.open(password) is None,
        },
    ensures
        load_secrets_spec(Some(file), password) == Err::<Seq<CredentialView>, AppError>(
            AppError::DecryptionError,
        ),
        AppError::DecryptionError.spec_kind() == ErrorKind::Crypto,
{
}

/// The registry of one-time-password credentials, keyed by name.
#[derive(Debug)]
pub struct SecretManager {
    credentials: Vec<Credential>,
}

impl View for SecretManager {
    type V = Map<Seq<char>, CredentialView>;

    /// The registry as a mapping from name to credential.
    closed spec fn view(&self) -> Map<Seq<char>, CredentialView> {
        registry_of(views_of(self.credentials@))
    }
}

impl Default for SecretManager {
    /// The empty registry.
    fn default() -> (m: SecretManager)
        ensures
            m@ == Map::<Seq<char>, CredentialView>::empty(),
            m.entries().len() == 0,
    {
        SecretManager { credentials: Vec::new() }
    }
}

impl SecretManager {
    #[verifier::type_invariant]
    spec fn unique_names(self) -> bool {
        names_distinct(views_of(self.credentials@))
    }

    /// The credentials in the order in which they are kept. The order carries
    /// no meaning; it is the order in which the names are listed.
    pub closed spec fn entries(&self) -> Seq<CredentialView> {
        views_of(self.credentials@)
    }

    /// The empty registry.
    pub fn new() -> (m: SecretManager)
        ensures
            m@ == Map::<Seq<char>, CredentialView>::empty(),
            m.entries().len() == 0,
    {
        SecretManager::default()
    }

    /// The registry is the mapping that its entries stand for, and the
    /// entries are what the mapping holds.
    pub proof fn lemma_view_of_entries(&self)
        ensures
            self@ == registry_of(self.entries()),
    {
    }

    /// How many credentials are registered.
    pub fn len(&self) -> (n: usize)
        ensures
            n == self.entries().len(),
    {
        self.credentials.len()
    }

    /// The registry written as bytes. Reading the bytes gives the registry
    /// back.
    pub fn to_bytes(&self) -> (out: Vec<u8>)
        ensures
            out@ == encode_entries(self.entries()),
            encodable(self.entries()),
            names_distinct(self.entries()),
            decode_registry(out@) == Some(self.entries()),
    {
        proof {
            use_type_invariant(self);
        }
        encode_credentials(&self.credentials)
    }

    /// The registry that the bytes hold, if they hold one: credentials written
    /// one after the other, no name twice.
    pub fn from_bytes(bytes: &[u8]) -> (res: Option<SecretManager>)
        ensures
            match decode_registry(bytes@) {
                Some(entries) => res matches Some(m) && m.entries() == entries && m@
                    == registry_of(entries),
                None => res is None,
            },
    {
        match decode_credentials(bytes) {
            None => None,
            Some(credentials) => if distinct_names(&credentials) {
                Some(SecretManager { credentials })
            } else {
                None
            },
        }
    }

    /// Encrypts the registry under the master passphrase with the salt and
    /// nonce given, and returns the bytes of the vault file.
    ///
    /// Succeeds exactly when the salt has 16 bytes, the nonce 12 and the
    /// written registry at most 2^36. Loading the bytes with the same
    /// passphrase yields this registry.
    pub fn save_secrets_with(&self, master_password: &str, salt: Vec<u8>, nonce: Vec<u8>) -> (res:
        Result<Vec<u8>, AppError>)
        ensures
            res is Ok <==> salt@.len() == SALT_SIZE && nonce@.len() == NONCE_SIZE
                && encode_entries(self.entries()).len() <= MAX_PLAINTEXT,
            res matches Ok(file) ==> {
                &&& file@ == salt@ + nonce@ + aes256_gcm_seal(
                    derive_key_spec(master_password.spec_bytes(), salt@),
                    nonce@,
                    encode_entries(self.entries()),
                )
                &&& load_secrets_spec(Some(file@), master_password.spec_bytes()) == Ok::<
                    Seq<CredentialView>,
                    AppError,
                >(self.entries())
            },
            res matches Err(e) ==> e == AppError::EncryptionError,
    {
        let payload = self.to_bytes();
        save_with(payload.as_slice(), master_password.as_bytes(), salt, nonce)
    }

    /// Encrypts the registry under the master passphrase and returns the
    /// bytes of the vault file, to replace the file wholesale.
    ///
    /// A fresh salt and a fresh nonce are drawn on every call. Whatever was
    /// drawn, loading the bytes with the same passphrase yields this
    /// registry. Fails with `EncryptionError` where the written registry is
    /// longer than 2^36 bytes or no randomness could be had. The registry
    /// itself is not changed.
    pub fn save_secrets(&self, master_password: &str) -> (res: Result<Vec<u8>, AppError>)
        ensures
            encode_entries(self.entries()).len() > MAX_PLAINTEXT ==> res is Err,
            res matches Ok(file) ==> load_secrets_spec(Some(file@), master_password.spec_bytes())
                == Ok::<Seq<CredentialView>, AppError>(self.entries()),
            res matches Err(e) ==> e == AppError::EncryptionError,
    {
        let payload = self.to_bytes();
        save_auth_entries_encrypted(payload.as_slice(), master_password.as_bytes())
    }

    /// Loads the registry from the bytes of the vault file, or the empty
    /// registry where no file exists (`None`), for which nothing is decrypted.
    ///
    /// A file that does not authenticate under the passphrase is
    /// `DecryptionError`, whether the passphrase is wrong or the file was
    /// altered. A file that authenticates but holds no registry is
    /// `VaultCorrupt`.
    pub fn load_secrets(contents: Option<&[u8]>, master_password: &str) -> (res: Result<
        SecretManager,
        AppError,
    >)
        ensures
            match load_secrets_spec(
                match contents {
                    Some(file) => Some(file@),
                    None => None,
                },
                master_password.spec_bytes(),
            ) {
                Ok(entries) => res matches Ok(m) && m.entries() == entries && m@ == registry_of(
                    entries,
                ),
                Err(e) => res matches Err(got) && got == e,
            },
            contents is None ==> (res matches Ok(m) && m@ == Map::<
                Seq<char>,
                CredentialView,
            >::empty()),
    {
        match load_auth_entries_encrypted(contents, master_password.as_bytes())? {
            None => Ok(SecretManager::new()),
            Some(payload) => match SecretManager::from_bytes(payload.as_slice()) {
                Some(manager) => Ok(manager),
                None => Err(AppError::VaultCorrupt),
            },
        }
    }

    /// Where the credential called `name` is kept, if it is registered.
    fn position(&self, name: &str) -> (r: Option<usize>)
        ensures
            match r {
                Some(i) => i < self.entries().len() && self.entries()[i as int].name == name@,
                None => !has_name(self.entries(), name@),
            },
    {
        let key = String::from_str(name);
        let mut i: usize = 0;
        while i < self.credentials.len()
            invariant
                i <= self.credentials@.len(),
                key@ == name@,
                forall|j: int| 0 <= j < i ==> (#[trigger] self.entries()[j]).name != name@,
            decreases self.credentials@.len() - i,
        {
            if self.credentials[i].name == key {
                return Some(i);
            }
            i += 1;
        }
        None
    }

    /// Registers a credential under `name`.
    ///
    /// Fails with `DuplicateName`, and changes nothing, where the name is
    /// taken. Otherwise the registry afterwards holds the new credential under
    /// `name` and everything it held before.
    pub fn add_credential(&mut self, name: String, ciphertext: Vec<u8>, nonce: Vec<u8>) -> (res:
        Result<(), AppError>)
        ensures
            match res {
                Ok(()) => {
                    &&& !old(self)@.dom().contains(name@)
                    &&& final(self)@ == old(self)@.insert(
                        name@,
                        CredentialView { name: name@, ciphertext: ciphertext@, nonce: nonce@ },
                    )
                    &&& final(self).entries() == old(self).entries().push(
                        CredentialView { name: name@, ciphertext: ciphertext@, nonce: nonce@ },
                    )
                },
                Err(e) => {
                    &&& e == AppError::DuplicateName
                    &&& old(self)@.dom().contains(name@)
                    &&& final(self)@ == old(self)@
                    &&& final(self).entries() == old(self).entries()
                },
            },
    {
        proof {
            use_type_invariant(&*self);
            lemma_registry_holds_entries(self.entries());
        }
        match self.position(name.as_str()) {
            Some(_) => Err(AppError::DuplicateName),
            None => {
                let ghost before = self.entries();
                let ghost added = CredentialView { name: name@, ciphertext: ciphertext@, nonce: nonce@ };
                proof {
                    assert(before.push(added).drop_last() =~= before);
                    assert(names_distinct(before.push(added))) by {
                        assert forall|a: int, b: int| 0 <= a < b < before.push(added).len() implies (
                        #[trigger] before.push(added)[a]).name != (#[trigger] before.push(added)[b]).name by {
                            if b == before.len() {
                                assert(before[a].name != name@);
                            } else {
                                assert(before[a].name != before[b].name);
                            }
                        }
                    }
                    assert(views_of(self.credentials@.push(Credential { name, ciphertext, nonce }))
                        =~= before.push(added));
                }
                let mut slots: Vec<Credential> = Vec::new();
                core::mem::swap(&mut slots, &mut self.credentials);
                slots.push(Credential { name, ciphertext, nonce });
                core::mem::swap(&mut slots, &mut self.credentials);
                Ok(())
            },
        }
    }

    /// The credential registered under `name`, if there is one.
    pub fn get_credential(&self, name: &str) -> (res: Option<&Credential>)
        ensures
            match res {
                Some(c) => self@.dom().contains(name@) && c@ == self@[name@],
                None => !self@.dom().contains(name@),
            },
    {
        proof {
            use_type_invariant(&*self);
            lemma_registry_holds_entries(self.entries());
        }
        match self.position(name) {
            Some(i) => {
                assert(self.entries()[i as int] == self.credentials@[i as int]@);
                Some(&self.credentials[i])
            },
            None => None,
        }
    }

    /// Removes the credential registered under `name` and returns it.
    ///
    /// Where no such credential exists, returns `None` and changes nothing.
    /// Otherwise exactly that name leaves the registry.
    pub fn delete_credential(&mut self, name: &str) -> (res: Option<Credential>)
        ensures
            match res {
                Some(c) => {
                    &&& old(self)@.dom().contains(name@)
                    &&& c@ == old(self)@[name@]
                    &&& final(self)@ == old(self)@.remove(name@)
                },
                None => {
                    &&& !old(self)@.dom().contains(name@)
                    &&& final(self)@ == old(self)@
                    &&& final(self).entries() == old(self).entries()
                },
            },
    {
        proof {
            use_type_invariant(&*self);
            lemma_registry_holds_entries(self.entries());
        }
        match self.position(name) {
            Some(i) => {
                let ghost before = self.entries();
                proof {
                    lemma_registry_remove(before, i as int);
                    assert(views_of(self.credentials@.remove(i as int)) =~= before.remove(i as int));
                    assert(before[i as int] == self.credentials@[i as int]@);
                }
                let mut slots: Vec<Credential> = Vec::new();
                core::mem::swap(&mut slots, &mut self.credentials);
                let removed = slots.remove(i);
                core::mem::swap(&mut slots, &mut self.credentials);
                Some(removed)
            },
            None => None,
        }
    }

    /// The names of all registered credentials, each once.
    pub fn list_credentials(&self) -> (names: Vec<&String>)
        ensures
            names@.len() == self.entries().len(),
            forall|i: int| 0 <= i < names@.len() ==> (#[trigger] names@[i])@ == self.entries()[i].name,
            forall|i: int, j: int| 0 <= i < j < names@.len() ==> (#[trigger] names@[i])@ != (#[trigger] names@[j])@,
            forall|name: Seq<char>| #[trigger]
                self@.dom().contains(name) <==> exists|i: int| 0 <= i < names@.len() && (#[trigger] names@[i])@ == name,
    {
        proof {
            use_type_invariant(&*self);
            lemma_registry_holds_entries(self.entries());
        }
        let mut names: Vec<&String> = Vec::new();
        let mut i: usize = 0;
        while i < self.credentials.len()
            invariant
                i <= self.credentials@.len(),
                names@.len() == i,
                forall|j: int| 0 <= j < i ==> (#[trigger] names@[j])@ == self.entries()[j].name,
            decreases self.credentials@.len() - i,
        {
            names.push(&self.credentials[i].name);
            i += 1;
        }
        proof {
            assert forall|a: int, b: int| 0 <= a < b < names@.len() implies (#[trigger] names@[a])@ != (
            #[trigger] names@[b])@ by {
                assert(self.entries()[a].name != self.entries()[b].name);
            }
            assert forall|name: Seq<char>| #[trigger]
                self@.dom().contains(name) <==> exists|i: int| 0 <= i < names@.len() && (#[trigger] names@[i])@ == name by {
                if has_name(self.entries(), name) {
                    let k = choose|k: int| 0 <= k < self.entries().len() && (#[trigger] self.entries()[k]).name == name;
                    assert(names@[k]@ == name);
                }
                if exists|i: int| 0 <= i < names@.len() && (#[trigger] names@[i])@ == name {
                    let k = choose|k: int| 0 <= k < names@.len() && (#[trigger] names@[k])@ == name;
                    assert(self.entries()[k].name == name);
                }
            }
        }
        names
    }
}

/// What unsealing one secret yields: the key is the SHA-256 digest of the
/// master key material, and a nonce of the wrong length opens nothing.
pub open spec fn decrypt_data_spec(
    master_key_material: Seq<u8>,
    ciphertext: Seq<u8>,
    nonce: Seq<u8>,
) -> Option<Seq<u8>> {
    aead_open_spec(sha256(master_key_material), nonce, ciphertext)
}

/// Seals one secret under the master key material with the nonce given.
///
/// Succeeds exactly when the nonce has 12 bytes and the secret at most 2^36.
/// The ciphertext is a function of the three inputs, and [`decrypt_data`]
/// with the same material and nonce gives the secret back.
pub fn encrypt_data_with_nonce(master_key_material: &[u8], data: &[u8], nonce: &[u8]) -> (res:
    Result<Vec<u8>, AppError>)
    ensures
        res is Ok <==> nonce@.len() == NONCE_SIZE && data@.len() <= MAX_PLAINTEXT,
        res matches Ok(c) ==> {
            &&& c@ == aes256_gcm_seal(sha256(master_key_material@), nonce@, data@)
            &&& c@.len() == data@.len() + 16
            &&& decrypt_data_spec(master_key_material@, c@, nonce@) == Some(data@)
        },
        res matches Err(e) ==> e == AppError::EncryptionError,
{
    let mut key = sha256_digest(master_key_material);
    let res = aead_encrypt(key.as_slice(), nonce, data);
    wipe(&mut key);
    res
}

/// Seals one secret under the master key material with a fresh random nonce,
/// and returns the ciphertext and the nonce.
///
/// Whatever nonce was drawn, it has 12 bytes, the ciphertext is the sealing of
/// the secret under it, and [`decrypt_data`] gives the secret back. Fails with
/// `EncryptionError` where the secret is longer than 2^36 bytes or no
/// randomness could be had.
pub fn encrypt_data(master_key_material: &[u8], data: &[u8]) -> (res: Result<
    (Vec<u8>, Vec<u8>),
    AppError,
>)
    ensures
        data@.len() > MAX_PLAINTEXT ==> res is Err,
        res matches Ok(sealed) ==> {
            &&& sealed.1@.len() == NONCE_SIZE
            &&& sealed.0@ == aes256_gcm_seal(sha256(master_key_material@), sealed.1@, data@)
            &&& decrypt_data_spec(master_key_material@, sealed.0@, sealed.1@) == Some(data@)
        },
        res matches Err(e) ==> e == AppError::EncryptionError,
{
    let nonce = random_bytes(NONCE_SIZE)?;
    let ciphertext = encrypt_data_with_nonce(master_key_material, data, nonce.as_slice())?;
    Ok((ciphertext, nonce))
}

/// Unseals one secret.
///
/// Returns the secret exactly when the ciphertext authenticates under the
/// material and nonce. A wrong passphrase, an altered ciphertext and a nonce
/// of the wrong length are the same `DecryptionError`.
pub fn decrypt_data(master_key_material: &[u8], ciphertext: &[u8], nonce_bytes: &[u8]) -> (res:
    Result<Vec<u8>, AppError>)
    ensures
        match res {
            Ok(p) => decrypt_data_spec(master_key_material@, ciphertext@, nonce_bytes@) == Some(p@),
            Err(e) => e == AppError::DecryptionError && decrypt_data_spec(
                master_key_material@,
                ciphertext@,
                nonce_bytes@,
            ) is None,
        },
{
    let mut key = sha256_digest(master_key_material);
    let res = aead_decrypt(key.as_slice(), nonce_bytes, ciphertext);
    wipe(&mut key);
    res
}

} // verus!
