//! The vault: sealed site passwords by site name, and the key data that
//! guards them.

use crate::crypto_utils::{gen_nonce, get_master_key, master_key_of};
use crate::error::VaultError;
use crate::master_key::{
    generate_master_keypair, seal_master_key, unseal_master_key, unsealed_master_key,
};
use crate::sealing::{lemma_sealed_secret_opens, open_secret, opened_secret, seal_secret, sealed_for};
use crate::sodium::{box_public_key, KEY_BYTES, MAC_BYTES};
use vstd::prelude::*;

verus! {

/// What is kept of the master key pair: the private key sealed under a key
/// derived from the master password, and the public key in the clear.
#[derive(Debug)]
pub struct KeyData {
    /// Salt from which, with the master password, the sealing key is derived.
    pub master_key_salt: [u8; 32],
    /// The master private key, sealed.
    pub sealed_master_privkey: Vec<u8>,
    /// Nonce under which the master private key was sealed.
    pub sealed_master_privkey_salt: [u8; 24],
    /// The master public key.
    pub master_pubkey: [u8; 32],
}

/// A `KeyData` as plain byte sequences.
pub ghost struct KeyDataView {
    pub master_key_salt: Seq<u8>,
    pub sealed_master_privkey: Seq<u8>,
    pub sealed_master_privkey_salt: Seq<u8>,
    pub master_pubkey: Seq<u8>,
}

impl View for KeyData {
    type V = KeyDataView;

    open spec fn view(&self) -> KeyDataView {
        KeyDataView {
            master_key_salt: self.master_key_salt@,
            sealed_master_privkey: self.sealed_master_privkey@,
            sealed_master_privkey_salt: self.sealed_master_privkey_salt@,
            master_pubkey: self.master_pubkey@,
        }
    }
}

/// One site's password, sealed for the master public key by a key pair that
/// was made for this one sealing.
#[derive(Debug)]
pub struct SiteData {
    /// Public half of the key pair that sealed the password.
    pub pubkey: [u8; 32],
    /// The password, sealed.
    pub sealed_password: Vec<u8>,
    /// Nonce under which the password was sealed.
    pub sealed_password_salt: [u8; 24],
}

/// A `SiteData` as plain byte sequences.
pub ghost struct SiteDataView {
    pub pubkey: Seq<u8>,
    pub sealed_password: Seq<u8>,
    pub sealed_password_salt: Seq<u8>,
}

impl View for SiteData {
    type V = SiteDataView;

    open spec fn view(&self) -> SiteDataView {
        SiteDataView {
            pubkey: self.pubkey@,
            sealed_password: self.sealed_password@,
            sealed_password_salt: self.sealed_password_salt@,
        }
    }
}

impl Clone for KeyData {
    fn clone(&self) -> (copy: KeyData)
        ensures
            copy@ == self@,
    {
        KeyData {
            master_key_salt: self.master_key_salt,
            sealed_master_privkey: self.sealed_master_privkey.clone(),
            sealed_master_privkey_salt: self.sealed_master_privkey_salt,
            master_pubkey: self.master_pubkey,
        }
    }
}

impl Clone for SiteData {
    fn clone(&self) -> (copy: SiteData)
        ensures
            copy@ == self@,
    {
        SiteData {
            pubkey: self.pubkey,
            sealed_password: self.sealed_password.clone(),
            sealed_password_salt: self.sealed_password_salt,
        }
    }
}

/// A site name with its sealed password.
#[derive(Debug)]
struct SiteEntry {
    name: String,
    data: SiteData,
}

/// Whether entry `i` of `entries` is the one named `name`.
spec fn names_entry(entries: Seq<SiteEntry>, name: Seq<char>, i: int) -> bool {
    0 <= i < entries.len() && entries[i].name@ == name
}

/// Whether no two entries share a name.
spec fn distinct_names(entries: Seq<SiteEntry>) -> bool {
    forall|i: int, j: int|
        0 <= i < j < entries.len() ==> #[trigger] entries[i].name@ != #[trigger] entries[j].name@
}

/// The mapping that a sequence of entries stands for.
spec fn map_of(entries: Seq<SiteEntry>) -> Map<Seq<char>, SiteDataView> {
    Map::new(
        |name: Seq<char>| exists|i: int| names_entry(entries, name, i),
        |name: Seq<char>| entries[choose|i: int| names_entry(entries, name, i)].data@,
    )
}

/// Appending an entry under a new name inserts it into the mapping.
proof fn lemma_map_of_push(entries: Seq<SiteEntry>, entry: SiteEntry)
    requires
        distinct_names(entries),
        forall|i: int| 0 <= i < entries.len() ==> entries[i].name@ != entry.name@,
    ensures
        distinct_names(entries.push(entry)),
        map_of(entries.push(entry)) == map_of(entries).insert(entry.name@, entry.data@),
{
    let longer = entries.push(entry);
    assert forall|i: int, j: int| 0 <= i < j < longer.len() implies #[trigger] longer[i].name@
        != #[trigger] longer[j].name@ by {
        assert(longer[i] == entries[i]);
        if j < entries.len() {
            assert(longer[j] == entries[j]);
            assert(entries[i].name@ != entries[j].name@);
        } else {
            assert(longer[j] == entry);
            assert(entries[i].name@ != entry.name@);
        }
    }
    assert forall|name: Seq<char>|
        map_of(longer).dom().contains(name) <==> map_of(entries).insert(
            entry.name@,
            entry.data@,
        ).dom().contains(name) by {
        if map_of(longer).dom().contains(name) {
            let i = choose|i: int| names_entry(longer, name, i);
            if i < entries.len() {
                assert(names_entry(entries, name, i));
            }
        }
        if map_of(entries).dom().contains(name) {
            let i = choose|i: int| names_entry(entries, name, i);
            assert(names_entry(longer, name, i));
        }
        if name == entry.name@ {
            assert(names_entry(longer, name, entries.len() as int));
        }
    }
    assert forall|name: Seq<char>| #[trigger]
        map_of(longer).dom().contains(name) implies map_of(longer)[name] == map_of(
        entries,
    ).insert(entry.name@, entry.data@)[name] by {
        let i = choose|i: int| names_entry(longer, name, i);
        if i < entries.len() {
            assert(names_entry(entries, name, i));
            let k = choose|k: int| names_entry(entries, name, k);
            assert(k == i);
        }
    }
    assert(map_of(longer) =~= map_of(entries).insert(entry.name@, entry.data@));
}

/// Taking an entry out removes its name from the mapping.
proof fn lemma_map_of_remove(entries: Seq<SiteEntry>, at: int)
    requires
        distinct_names(entries),
        0 <= at < entries.len(),
    ensures
        distinct_names(entries.remove(at)),
        map_of(entries.remove(at)) == map_of(entries).remove(entries[at].name@),
{
    let shorter = entries.remove(at);
    assert forall|i: int, j: int| 0 <= i < j < shorter.len() implies #[trigger] shorter[i].name@
        != #[trigger] shorter[j].name@ by {
        let i0 = if i < at { i } else { i + 1 };
        let j0 = if j < at { j } else { j + 1 };
        assert(shorter[i] == entries[i0]);
        assert(shorter[j] == entries[j0]);
        assert(entries[i0].name@ != entries[j0].name@);
    }
    assert forall|name: Seq<char>|
        map_of(shorter).dom().contains(name) <==> map_of(entries).remove(
            entries[at].name@,
        ).dom().contains(name) by {
        if map_of(shorter).dom().contains(name) {
            let i = choose|i: int| names_entry(shorter, name, i);
            let i0 = if i < at { i } else { i + 1 };
            assert(shorter[i] == entries[i0]);
            assert(names_entry(entries, name, i0));
        }
        if map_of(entries).dom().contains(name) && name != entries[at].name@ {
            let i = choose|i: int| names_entry(entries, name, i);
            let i1 = if i < at { i } else { i - 1 };
            assert(shorter[i1] == entries[i]);
            assert(names_entry(shorter, name, i1));
        }
    }
    assert forall|name: Seq<char>| #[trigger]
        map_of(shorter).dom().contains(name) implies map_of(shorter)[name] == map_of(
        entries,
    ).remove(entries[at].name@)[name] by {
        let i = choose|i: int| names_entry(shorter, name, i);
        let i0 = if i < at { i } else { i + 1 };
        assert(shorter[i] == entries[i0]);
        assert(names_entry(entries, name, i0));
        let k = choose|k: int| names_entry(entries, name, k);
        assert(k == i0);
    }
    assert(map_of(shorter) =~= map_of(entries).remove(entries[at].name@));
}

/// With distinct names the mapping has one key for each entry.
proof fn lemma_map_of_len(entries: Seq<SiteEntry>)
    requires
        distinct_names(entries),
    ensures
        map_of(entries).dom().finite(),
        map_of(entries).dom().len() == entries.len(),
    decreases entries.len(),
{
    if entries.len() == 0 {
        assert(map_of(entries).dom() =~= Set::<Seq<char>>::empty());
    } else {
        let shorter = entries.drop_last();
        let last = entries.last();
        assert forall|i: int, j: int| 0 <= i < j < shorter.len() implies #[trigger] shorter[i].name@
            != #[trigger] shorter[j].name@ by {
            assert(shorter[i] == entries[i]);
            assert(shorter[j] == entries[j]);
            assert(entries[i].name@ != entries[j].name@);
        }
        assert forall|i: int| 0 <= i < shorter.len() implies shorter[i].name@ != last.name@ by {
            assert(shorter[i] == entries[i]);
            assert(entries[i].name@ != entries[entries.len() - 1].name@);
        }
        lemma_map_of_len(shorter);
        lemma_map_of_push(shorter, last);
        assert(shorter.push(last) =~= entries);
        assert(!map_of(shorter).dom().contains(last.name@)) by {
            if map_of(shorter).dom().contains(last.name@) {
                let i = choose|i: int| names_entry(shorter, last.name@, i);
                assert(entries[i].name@ != entries[entries.len() - 1].name@);
            }
        }
    }
}

/// Sealed site passwords by site name. No name occurs twice.
#[derive(Debug)]
pub struct Vault {
    entries: Vec<SiteEntry>,
}

impl View for Vault {
    type V = Map<Seq<char>, SiteDataView>;

    closed spec fn view(&self) -> Map<Seq<char>, SiteDataView> {
        map_of(self.entries@)
    }
}

impl Vault {
    #[verifier::type_invariant]
    spec fn well_formed(&self) -> bool {
        distinct_names(self.entries@)
    }

    /// An empty vault.
    pub fn new() -> (vault: Vault)
        ensures
            vault@ == Map::<Seq<char>, SiteDataView>::empty(),
    {
        let vault = Vault { entries: Vec::new() };
        assert(vault@ =~= Map::<Seq<char>, SiteDataView>::empty());
        vault
    }

    /// Where the entry for `site` stands, if there is one.
    fn position(&self, site: &str) -> (found: Option<usize>)
        ensures
            match found {
                Some(at) => names_entry(self.entries@, site@, at as int),
                None => !self@.dom().contains(site@),
            },
    {
        let wanted = site.to_owned();
        let mut at: usize = 0;
        while at < self.entries.len()
            invariant
                at <= self.entries.len(),
                wanted@ == site@,
                forall|i: int| 0 <= i < at ==> self.entries@[i].name@ != site@,
            decreases self.entries.len() - at,
        {
            if self.entries[at].name == wanted {
                return Some(at);
            }
            at += 1;
        }
        None
    }

    /// The number of sites in the vault.
    pub fn len(&self) -> (count: usize)
        ensures
            self@.dom().finite(),
            count == self@.dom().len(),
    {
        proof {
            use_type_invariant(self);
            lemma_map_of_len(self.entries@);
        }
        self.entries.len()
    }

    /// Whether `site` has an entry.
    pub fn contains(&self, site: &str) -> (present: bool)
        ensures
            present == self@.dom().contains(site@),
    {
        self.position(site).is_some()
    }

    /// The sealed password of `site`.
    pub fn get(&self, site: &str) -> (found: Result<&SiteData, VaultError>)
        ensures
            match found {
                Ok(data) => self@.dom().contains(site@) && data@ == self@[site@],
                Err(error) => !self@.dom().contains(site@) && error == VaultError::SiteNotFound,
            },
    {
        proof {
            use_type_invariant(self);
        }
        match self.position(site) {
            Some(at) => {
                proof {
                    let k = choose|k: int| names_entry(self.entries@, site@, k);
                    assert(k == at);
                }
                Ok(&self.entries[at].data)
            },
            None => Err(VaultError::SiteNotFound),
        }
    }

    /// Puts a sealed password under a site name that has none yet.
    pub fn insert(&mut self, site: &str, data: SiteData) -> (outcome: Result<(), VaultError>)
        ensures
            old(self)@.dom().contains(site@) ==> outcome == Err::<(), VaultError>(
                VaultError::SiteAlreadyExists,
            ) && final(self)@ == old(self)@,
            !old(self)@.dom().contains(site@) ==> outcome.is_ok() && final(self)@ == old(
                self,
            )@.insert(site@, data@),
    {
        proof {
            use_type_invariant(&*self);
        }
        if self.position(site).is_some() {
            return Err(VaultError::SiteAlreadyExists);
        }
        let entry = SiteEntry { name: site.to_owned(), data };
        proof {
            assert forall|i: int| 0 <= i < self.entries@.len() implies self.entries@[i].name@
                != entry.name@ by {
                if self.entries@[i].name@ == site@ {
                    assert(names_entry(self.entries@, site@, i));
                }
            }
            lemma_map_of_push(self.entries@, entry);
        }
        // The entries change outside the vault, which is empty meanwhile:
        // whenever the vault is looked at, no name occurs twice in it.
        let mut entries = Vec::new();
        std::mem::swap(&mut entries, &mut self.entries);
        entries.push(entry);
        self.entries = entries;
        Ok(())
    }
}

/// The names in the vault, each once, in no promised order.
pub fn list(vault: &Vault) -> (names: Vec<String>)
    ensures
        vault@.dom().finite(),
        names@.len() == vault@.dom().len(),
        forall|i: int| 0 <= i < names@.len() ==> vault@.dom().contains(#[trigger] names@[i]@),
        forall|i: int, j: int|
            0 <= i < j < names@.len() ==> #[trigger] names@[i]@ != #[trigger] names@[j]@,
        forall|name: Seq<char>| vault@.dom().contains(name) ==> is_listed(names@, name),
{
    proof {
        use_type_invariant(vault);
        lemma_map_of_len(vault.entries@);
    }
    let mut names: Vec<String> = Vec::new();
    let mut at: usize = 0;
    while at < vault.entries.len()
        invariant
            at <= vault.entries.len(),
            names@.len() == at,
            forall|i: int| 0 <= i < at ==> #[trigger] names@[i]@ == vault.entries@[i].name@,
        decreases vault.entries.len() - at,
    {
        names.push(vault.entries[at].name.clone());
        at += 1;
    }
    proof {
        assert forall|i: int| 0 <= i < names@.len() implies vault@.dom().contains(
            #[trigger] names@[i]@,
        ) by {
            assert(names_entry(vault.entries@, names@[i]@, i));
        }
        assert forall|name: Seq<char>| vault@.dom().contains(name) implies is_listed(
            names@,
            name,
        ) by {
            let i = choose|i: int| names_entry(vault.entries@, name, i);
            assert(names@[i]@ == name);
        }
    }
    names
}

/// Whether `name` is one of `names`.
pub open spec fn is_listed(names: Seq<String>, name: Seq<char>) -> bool {
    exists|i: int| 0 <= i < names.len() && (#[trigger] names[i])@ == name
}

/// Takes the entry of `site` out of the vault.
pub fn remove(vault: &mut Vault, site: &str) -> (outcome: Result<(), VaultError>)
    ensures
        !old(vault)@.dom().contains(site@) ==> outcome == Err::<(), VaultError>(
            VaultError::SiteNotFound,
        ) && final(vault)@ == old(vault)@,
        old(vault)@.dom().contains(site@) ==> outcome.is_ok() && final(vault)@ == old(
            vault,
        )@.remove(site@),
{
    proof {
        use_type_invariant(&*vault);
    }
    match vault.position(site) {
        None => Err(VaultError::SiteNotFound),
        Some(at) => {
            proof {
                lemma_map_of_remove(vault.entries@, at as int);
            }
            // As in `insert`, the entries change outside the vault.
            let mut entries = Vec::new();
            std::mem::swap(&mut entries, &mut vault.entries);
            entries.remove(at);
            vault.entries = entries;
            Ok(())
        },
    }
}

/// The master private key that a password recovers from key data.
pub open spec fn unlocked_key(key_data: KeyDataView, password: Seq<u8>) -> Option<Seq<u8>> {
    unsealed_master_key(
        key_data.sealed_master_privkey,
        key_data.sealed_master_privkey_salt,
        master_key_of(password, key_data.master_key_salt),
    )
}

/// `password` recovers from `key_data` a private key, and it is the one
/// that belongs to the public key stored beside it.
pub open spec fn unlocks(key_data: KeyDataView, password: Seq<u8>) -> bool {
    match unlocked_key(key_data, password) {
        Some(private) => box_public_key(private) == key_data.master_pubkey,
        None => false,
    }
}

/// Whether both the vault and its key data were found.
pub fn is_initialized(vault: &Option<Vault>, key_data: &Option<KeyData>) -> (initialized: bool)
    ensures
        initialized == (vault.is_some() && key_data.is_some()),
{
    vault.is_some() && key_data.is_some()
}

/// Hands on the vault and its key data where both were found.
pub fn require_initialized(vault: Option<Vault>, key_data: Option<KeyData>) -> (outcome: Result<
    (Vault, KeyData),
    VaultError,
>)
    ensures
        match outcome {
            Ok(found) => vault == Some(found.0) && key_data == Some(found.1),
            Err(error) => error == VaultError::NotInitialized && !(vault.is_some()
                && key_data.is_some()),
        },
{
    match (vault, key_data) {
        (Some(vault), Some(key_data)) => Ok((vault, key_data)),
        _ => Err(VaultError::NotInitialized),
    }
}

/// Makes the key data of a new vault: a fresh salt and master key pair, the
/// private key sealed under the key that `master_password` derives.
/// Refuses where a vault exists already.
pub fn init(initialized: bool, master_password: Vec<u8>) -> (outcome: Result<KeyData, VaultError>)
    ensures
        initialized ==> outcome == Err::<KeyData, VaultError>(VaultError::AlreadyInitialized),
        !initialized ==> outcome.is_ok(),
        outcome matches Ok(key_data) ==> unlocks(key_data@, master_password@)
            && key_data@.sealed_master_privkey.len() == KEY_BYTES + MAC_BYTES,
{
    if initialized {
        return Err(VaultError::AlreadyInitialized);
    }
    let master_key_salt = gen_nonce();
    let master_key = get_master_key(master_password, master_key_salt);
    let (pubkey, privkey) = generate_master_keypair();
    let (sealed_master_privkey, sealed_master_privkey_salt) = seal_master_key(
        &privkey,
        &master_key,
    );
    Ok(
        KeyData {
            sealed_master_privkey,
            sealed_master_privkey_salt,
            master_key_salt,
            master_pubkey: pubkey,
        },
    )
}

/// Seals `password` for the master public key and puts it into the vault
/// under `site`. Refuses, and seals nothing, where `site` has an entry.
pub fn add(vault: &mut Vault, site: &str, password: &[u8], master_pubkey: &[u8; 32]) -> (outcome:
    Result<(), VaultError>)
    requires
        password@.len() + MAC_BYTES <= isize::MAX,
    ensures
        old(vault)@.dom().contains(site@) ==> outcome == Err::<(), VaultError>(
            VaultError::SiteAlreadyExists,
        ) && final(vault)@ == old(vault)@,
        !old(vault)@.dom().contains(site@) ==> {
            &&& outcome.is_ok()
            &&& final(vault)@.dom().contains(site@)
            &&& final(vault)@ == old(vault)@.insert(site@, final(vault)@[site@])
            &&& final(vault)@[site@].sealed_password.len() == password@.len() + MAC_BYTES
            &&& sealed_for(final(vault)@[site@], master_pubkey@, password@)
        },
{
    if vault.contains(site) {
        return Err(VaultError::SiteAlreadyExists);
    }
    let site_data = seal_secret(password, master_pubkey);
    vault.insert(site, site_data)
}

/// What `show` gives for a vault, a site, a master password and key data.
pub open spec fn revealed(
    vault: Map<Seq<char>, SiteDataView>,
    site: Seq<char>,
    master_password: Seq<u8>,
    key_data: KeyDataView,
) -> Result<Seq<u8>, VaultError> {
    if !vault.dom().contains(site) {
        Err(VaultError::SiteNotFound)
    } else {
        match unlocked_key(key_data, master_password) {
            None => Err(VaultError::AuthenticationFailure),
            Some(private) => match opened_secret(vault[site], private) {
                None => Err(VaultError::AuthenticationFailure),
                Some(secret) => Ok(secret),
            },
        }
    }
}

/// Recovers the password of `site`: unseals the master private key with the
/// key that `master_password` derives, and opens the site's sealed password
/// with it.
pub fn show(vault: &Vault, site: &str, master_password: Vec<u8>, key_data: &KeyData) -> (outcome:
    Result<Vec<u8>, VaultError>)
    ensures
        match outcome {
            Ok(password) => revealed(vault@, site@, master_password@, key_data@) == Ok::<
                Seq<u8>,
                VaultError,
            >(password@),
            Err(error) => revealed(vault@, site@, master_password@, key_data@) == Err::<
                Seq<u8>,
                VaultError,
            >(error),
        },
        outcome matches Ok(password) ==> password@.len() + MAC_BYTES
            == vault@[site@].sealed_password.len(),
        outcome.is_ok() ==> key_data@.sealed_master_privkey.len() == KEY_BYTES + MAC_BYTES,
{
    let site_data = match vault.get(site) {
        Ok(site_data) => site_data,
        Err(error) => {
            return Err(error);
        },
    };
    let master_key = get_master_key(master_password, key_data.master_key_salt);
    let master_privkey = match unseal_master_key(
        key_data.sealed_master_privkey.as_slice(),
        &key_data.sealed_master_privkey_salt,
        &master_key,
    ) {
        Ok(master_privkey) => master_privkey,
        Err(error) => {
            return Err(error);
        },
    };
    open_secret(site_data, &master_privkey)
}

/// `show` fails in two ways only: the site has no entry, or authentication
/// failed. Which of the two sealed values did not authenticate is not told.
pub proof fn lemma_show_fails_closed(
    vault: Map<Seq<char>, SiteDataView>,
    site: Seq<char>,
    master_password: Seq<u8>,
    key_data: KeyDataView,
)
    ensures
        !vault.dom().contains(site) <==> revealed(vault, site, master_password, key_data)
            == Err::<Seq<u8>, VaultError>(VaultError::SiteNotFound),
        vault.dom().contains(site) ==> revealed(vault, site, master_password, key_data).is_ok()
            || revealed(vault, site, master_password, key_data) == Err::<Seq<u8>, VaultError>(
            VaultError::AuthenticationFailure,
        ),
{
}

/// A password that was sealed into the vault for the master public key is
/// what `show` recovers, given the master password that unlocks the key data.
pub proof fn lemma_show_recovers_added(
    vault: Map<Seq<char>, SiteDataView>,
    site: Seq<char>,
    password: Seq<u8>,
    master_password: Seq<u8>,
    key_data: KeyDataView,
)
    requires
        unlocks(key_data, master_password),
        vault.dom().contains(site),
        sealed_for(vault[site], key_data.master_pubkey, password),
    ensures
        revealed(vault, site, master_password, key_data) == Ok::<Seq<u8>, VaultError>(password),
{
    let private = unlocked_key(key_data, master_password).unwrap();
    lemma_sealed_secret_opens(vault[site], key_data.master_pubkey, private, password);
}

} // verus!
