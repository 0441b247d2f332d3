//! The credential vault: a store interface for the durable secret storage,
//! a verified in-memory store, and the vault operations that keep the
//! persisted account data and the shared in-memory credential view
//! consistent. The durable write always precedes publishing into the view.

use vstd::prelude::*;
use vstd::string::StringExecFns;
use crate::accounts::Account;
use crate::accounts::AccountView;
use crate::accounts::AccountsData;
use crate::accounts::AccountsDataView;
use crate::accounts::AppState;
use crate::accounts::Credentials;
use crate::accounts::CredentialsView;
use crate::errors::AuthError;

verus! {

/// The stored data, or an empty vault when no entry exists.
pub open spec fn stored_or_empty(o: Option<AccountsDataView>) -> AccountsDataView {
    match o {
        Some(v) => v,
        None => AccountsDataView { accounts: Seq::empty(), active_account_id: None },
    }
}

/// Whether an error is one a store itself may report.
pub open spec fn is_store_error(e: AuthError) -> bool {
    e is KeyringError || e is SerializationError
}

/// The durable secret storage, an injectable capability: one slot for the
/// serialized account data, one secret per account id, and one legacy
/// credential record. An operation may fail with a store error; a failed
/// operation leaves the slot it addresses unchanged, and no operation
/// touches the slots it does not address.
pub trait SecretStore: Sized {
    /// The stored account data, `None` when no entry exists.
    open spec fn accounts_data(&self) -> Option<AccountsDataView> {
        None
    }

    /// The stored secrets, keyed by account id.
    open spec fn secrets(&self) -> Map<Seq<char>, Seq<char>> {
        Map::empty()
    }

    /// The stored legacy credential record, if any.
    open spec fn legacy(&self) -> Option<CredentialsView> {
        None
    }

    fn load_accounts_data(&self) -> (r: Result<AccountsData, AuthError>)
        ensures
            r matches Ok(d) ==> d@ == stored_or_empty(self.accounts_data()),
            r matches Err(e) ==> is_store_error(e),
    ;

    fn save_accounts_data(&mut self, data: &AccountsData) -> (r: Result<(), AuthError>)
        ensures
            r is Ok ==> final(self).accounts_data() == Some(data@),
            r matches Err(e) ==> is_store_error(e) && final(self).accounts_data()
                == old(self).accounts_data(),
            final(self).secrets() == old(self).secrets(),
            final(self).legacy() == old(self).legacy(),
    ;

    fn get_secret(&self, account_id: &str) -> (r: Result<Option<String>, AuthError>)
        ensures
            r matches Ok(Some(s)) ==> self.secrets().contains_key(account_id@) && s@
                == self.secrets()[account_id@],
            r matches Ok(None) ==> !self.secrets().contains_key(account_id@),
            r matches Err(e) ==> is_store_error(e),
    ;

    fn set_secret(&mut self, account_id: &str, value: &str) -> (r: Result<(), AuthError>)
        ensures
            r is Ok ==> final(self).secrets() == old(self).secrets().insert(account_id@, value@),
            r matches Err(e) ==> is_store_error(e) && final(self).secrets() == old(self).secrets(),
            final(self).accounts_data() == old(self).accounts_data(),
            final(self).legacy() == old(self).legacy(),
    ;

    fn delete_secret(&mut self, account_id: &str) -> (r: Result<(), AuthError>)
        ensures
            r is Ok ==> final(self).secrets() == old(self).secrets().remove(account_id@),
            r matches Err(e) ==> is_store_error(e) && final(self).secrets() == old(self).secrets(),
            final(self).accounts_data() == old(self).accounts_data(),
            final(self).legacy() == old(self).legacy(),
    ;

    fn get_credentials(&self) -> (r: Result<Option<Credentials>, AuthError>)
        ensures
            r matches Ok(Some(c)) ==> self.legacy() == Some(c@),
            r matches Ok(None) ==> self.legacy() is None,
            r matches Err(e) ==> is_store_error(e),
    ;

    fn set_credentials(&mut self, creds: &Credentials) -> (r: Result<(), AuthError>)
        ensures
            r is Ok ==> final(self).legacy() == Some(creds@),
            r matches Err(e) ==> is_store_error(e) && final(self).legacy() == old(self).legacy(),
            final(self).accounts_data() == old(self).accounts_data(),
            final(self).secrets() == old(self).secrets(),
    ;

    fn clear_credentials_entry(&mut self) -> (r: Result<(), AuthError>)
        ensures
            r is Ok ==> final(self).legacy() is None,
            r matches Err(e) ==> is_store_error(e) && final(self).legacy() == old(self).legacy(),
            final(self).accounts_data() == old(self).accounts_data(),
            final(self).secrets() == old(self).secrets(),
    ;
}

/// The map denoted by an association list, later entries overriding earlier
/// ones.
pub open spec fn assoc_map(entries: Seq<(Seq<char>, Seq<char>)>) -> Map<Seq<char>, Seq<char>>
    decreases entries.len(),
{
    if entries.len() == 0 {
        Map::empty()
    } else {
        assoc_map(entries.drop_last()).insert(entries.last().0, entries.last().1)
    }
}

/// Entries kept when the given key is removed.
pub open spec fn assoc_without(entries: Seq<(Seq<char>, Seq<char>)>, key: Seq<char>) -> Seq<
    (Seq<char>, Seq<char>),
> {
    entries.filter(|p: (Seq<char>, Seq<char>)| p.0 != key)
}

proof fn lemma_assoc_map_no_key(entries: Seq<(Seq<char>, Seq<char>)>, key: Seq<char>)
    requires
        forall|t: int| 0 <= t < entries.len() ==> (#[trigger] entries[t]).0 != key,
    ensures
        !assoc_map(entries).contains_key(key),
    decreases entries.len(),
{
    if entries.len() > 0 {
        assert(entries.last() == entries[entries.len() - 1]);
        assert(forall|t: int|
            0 <= t < entries.drop_last().len() ==> entries.drop_last()[t] == entries[t]);
        lemma_assoc_map_no_key(entries.drop_last(), key);
    }
}

proof fn lemma_assoc_map_last_match(entries: Seq<(Seq<char>, Seq<char>)>, key: Seq<char>, i: int)
    requires
        0 <= i < entries.len(),
        entries[i].0 == key,
        forall|t: int| i < t < entries.len() ==> (#[trigger] entries[t]).0 != key,
    ensures
        assoc_map(entries).contains_key(key),
        assoc_map(entries)[key] == entries[i].1,
    decreases entries.len(),
{
    if i == entries.len() - 1 {
    } else {
        assert(entries.last().0 != key);
        assert(forall|t: int|
            0 <= t < entries.drop_last().len() ==> entries.drop_last()[t] == entries[t]);
        lemma_assoc_map_last_match(entries.drop_last(), key, i);
    }
}

proof fn lemma_assoc_without(entries: Seq<(Seq<char>, Seq<char>)>, key: Seq<char>)
    ensures
        assoc_map(assoc_without(entries, key)) == assoc_map(entries).remove(key),
    decreases entries.len(),
{
    reveal(Seq::filter);
    if entries.len() == 0 {
        assert(assoc_map(entries).remove(key) =~= Map::<Seq<char>, Seq<char>>::empty());
        assert(assoc_without(entries, key) =~= entries);
    } else {
        let e = entries.last();
        let front = entries.drop_last();
        lemma_assoc_without(front, key);
        assert(assoc_without(entries, key) == assoc_without(front, key) + (if e.0 != key {
            seq![e]
        } else {
            Seq::<(Seq<char>, Seq<char>)>::empty()
        }));
        if e.0 == key {
            assert(assoc_without(entries, key) =~= assoc_without(front, key));
            assert(assoc_map(entries).remove(key) =~= assoc_map(front).remove(key));
        } else {
            let kept = assoc_without(front, key) + seq![e];
            assert(kept.drop_last() =~= assoc_without(front, key));
            assert(kept.last() == e);
            assert(assoc_map(kept) == assoc_map(assoc_without(front, key)).insert(e.0, e.1));
            assert(assoc_map(entries).remove(key) =~= assoc_map(front).remove(key).insert(
                e.0,
                e.1,
            ));
        }
    }
}

/// An in-memory secret store: the verified implementation of the store
/// interface, also used to exercise the vault logic without an OS keychain.
pub struct MemSecretStore {
    pub accounts_entry: Option<AccountsData>,
    pub secret_entries: Vec<(String, String)>,
    pub legacy_entry: Option<Credentials>,
}

impl MemSecretStore {
    /// A store with no entries at all.
    pub fn new() -> (r: Self)
        ensures
            r.accounts_data() is None,
            r.secrets() == Map::<Seq<char>, Seq<char>>::empty(),
            r.legacy() is None,
    {
        let r = MemSecretStore { accounts_entry: None, secret_entries: Vec::new(), legacy_entry: None };
        proof {
            assert(r.secret_entries.deep_view() =~= Seq::<(Seq<char>, Seq<char>)>::empty());
        }
        r
    }
}

impl SecretStore for MemSecretStore {
    open spec fn accounts_data(&self) -> Option<AccountsDataView> {
        match self.accounts_entry {
            Some(d) => Some(d@),
            None => None,
        }
    }

    open spec fn secrets(&self) -> Map<Seq<char>, Seq<char>> {
        assoc_map(self.secret_entries.deep_view())
    }

    open spec fn legacy(&self) -> Option<CredentialsView> {
        match self.legacy_entry {
            Some(c) => Some(c@),
            None => None,
        }
    }

    fn load_accounts_data(&self) -> (r: Result<AccountsData, AuthError>) {
        match &self.accounts_entry {
            Some(d) => {
                let copy = AccountsData {
                    accounts: clone_accounts_vec(&d.accounts),
                    active_account_id: clone_opt_string(&d.active_account_id),
                };
                proof {
                    assert(copy@ =~~= d@);
                }
                Ok(copy)
            },
            None => {
                let empty = AccountsData { accounts: Vec::new(), active_account_id: None };
                proof {
                    assert(empty@.accounts =~= Seq::<AccountView>::empty());
                    assert(empty@ =~~= stored_or_empty(self.accounts_data()));
                }
                Ok(empty)
            },
        }
    }

    fn save_accounts_data(&mut self, data: &AccountsData) -> (r: Result<(), AuthError>) {
        let copy = AccountsData {
            accounts: clone_accounts_vec(&data.accounts),
            active_account_id: clone_opt_string(&data.active_account_id),
        };
        proof {
            assert(copy@ =~~= data@);
        }
        self.accounts_entry = Some(copy);
        Ok(())
    }

    fn get_secret(&self, account_id: &str) -> (r: Result<Option<String>, AuthError>) {
        let key = String::from_str(account_id);
        let n: usize = self.secret_entries.len();
        let ghost entries = self.secret_entries.deep_view();
        proof {
            assert(entries.len() == n);
        }
        let mut i: usize = n;
        while i > 0
            invariant
                n == self.secret_entries@.len(),
                entries == self.secret_entries.deep_view(),
                entries.len() == n,
                i <= n,
                key@ == account_id@,
                forall|t: int| i <= t < n ==> (#[trigger] entries[t]).0 != account_id@,
            decreases i,
        {
            let pair = &self.secret_entries[i - 1];
            proof {
                assert(entries[i - 1] == (pair.0@, pair.1@));
            }
            if pair.0 == key {
                proof {
                    lemma_assoc_map_last_match(entries, account_id@, i - 1);
                }
                return Ok(Some(pair.1.clone()));
            }
            i = i - 1;
        }
        proof {
            lemma_assoc_map_no_key(entries, account_id@);
        }
        Ok(None)
    }

    fn set_secret(&mut self, account_id: &str, value: &str) -> (r: Result<(), AuthError>) {
        let ghost entries = old(self).secret_entries.deep_view();
        self.secret_entries.push((String::from_str(account_id), String::from_str(value)));
        proof {
            let now_entries = self.secret_entries.deep_view();
            assert(now_entries =~~= entries.push((account_id@, value@)));
            assert(now_entries.drop_last() =~~= entries);
            assert(now_entries.last() == (account_id@, value@));
        }
        Ok(())
    }

    fn delete_secret(&mut self, account_id: &str) -> (r: Result<(), AuthError>) {
        let key = String::from_str(account_id);
        let ghost entries = old(self).secret_entries.deep_view();
        let n: usize = self.secret_entries.len();
        let mut kept: Vec<(String, String)> = Vec::new();
        let mut i: usize = 0;
        proof {
            reveal(Seq::filter);
            assert(entries.take(0) =~= Seq::<(Seq<char>, Seq<char>)>::empty());
            assert(kept.deep_view() =~= assoc_without(entries.take(0), account_id@));
        }
        while i < n
            invariant
                n == self.secret_entries@.len(),
                entries == self.secret_entries.deep_view(),
                entries.len() == n,
                i <= n,
                key@ == account_id@,
                kept.deep_view() == assoc_without(entries.take(i as int), account_id@),
            decreases n - i,
        {
            let pair = &self.secret_entries[i];
            let ghost kept_before = kept.deep_view();
            proof {
                assert(entries[i as int] == (pair.0@, pair.1@));
            }
            if !(pair.0 == key) {
                kept.push((pair.0.clone(), pair.1.clone()));
            }
            proof {
                reveal(Seq::filter);
                let t = entries.take(i + 1);
                assert(t.drop_last() =~= entries.take(i as int));
                assert(t.last() == entries[i as int]);
                assert(assoc_without(t, account_id@) == assoc_without(
                    entries.take(i as int),
                    account_id@,
                ) + (if entries[i as int].0 != account_id@ {
                    seq![entries[i as int]]
                } else {
                    Seq::<(Seq<char>, Seq<char>)>::empty()
                }));
                if entries[i as int].0 != account_id@ {
                    assert(kept.deep_view() =~~= kept_before.push(entries[i as int]));
                    assert(kept_before.push(entries[i as int]) =~= kept_before + seq![
                        entries[i as int],
                    ]);
                } else {
                    assert(kept.deep_view() =~~= kept_before + Seq::<
                        (Seq<char>, Seq<char>),
                    >::empty());
                }
            }
            i = i + 1;
        }
        proof {
            assert(entries.take(n as int) =~= entries);
            lemma_assoc_without(entries, account_id@);
        }
        self.secret_entries = kept;
        Ok(())
    }

    fn get_credentials(&self) -> (r: Result<Option<Credentials>, AuthError>) {
        match &self.legacy_entry {
            Some(c) => Ok(
                Some(
                    Credentials {
                        server_url: c.server_url.clone(),
                        api_key: c.api_key.clone(),
                        user_email: c.user_email.clone(),
                    },
                ),
            ),
            None => Ok(None),
        }
    }

    fn set_credentials(&mut self, creds: &Credentials) -> (r: Result<(), AuthError>) {
        self.legacy_entry = Some(
            Credentials {
                server_url: creds.server_url.clone(),
                api_key: creds.api_key.clone(),
                user_email: creds.user_email.clone(),
            },
        );
        Ok(())
    }

    fn clear_credentials_entry(&mut self) -> (r: Result<(), AuthError>) {
        self.legacy_entry = None;
        Ok(())
    }
}

/// Copies a vector of accounts, keeping every element's value.
pub fn clone_accounts_vec(v: &Vec<Account>) -> (r: Vec<Account>)
    ensures
        crate::accounts::accounts_views(r@) == crate::accounts::accounts_views(v@),
        r@.len() == v@.len(),
{
    let mut r: Vec<Account> = Vec::new();
    let n: usize = v.len();
    let mut i: usize = 0;
    while i < n
        invariant
            n == v@.len(),
            i <= n,
            r@.len() == i,
            forall|k: int| 0 <= k < i ==> (#[trigger] r@[k])@ == v@[k]@,
        decreases n - i,
    {
        r.push(v[i].clone());
        i = i + 1;
    }
    proof {
        assert(crate::accounts::accounts_views(r@) =~~= crate::accounts::accounts_views(v@));
    }
    r
}

/// Copies an optional string, keeping its value.
pub fn clone_opt_string(v: &Option<String>) -> (r: Option<String>)
    ensures
        r.deep_view() == v.deep_view(),
{
    match v {
        Some(s) => Some(s.clone()),
        None => None,
    }
}

/// Stores an account's API key under its id.
pub fn save_api_key_for_account<S: SecretStore>(store: &mut S, account_id: &str, api_key: &str) -> (r:
    Result<(), AuthError>)
    ensures
        r is Ok ==> final(store).secrets() == old(store).secrets().insert(account_id@, api_key@),
        r matches Err(e) ==> is_store_error(e) && final(store).secrets() == old(store).secrets(),
        final(store).accounts_data() == old(store).accounts_data(),
        final(store).legacy() == old(store).legacy(),
{
    store.set_secret(account_id, api_key)
}

/// Removes an account's stored API key; a missing entry is already-satisfied.
pub fn delete_api_key_for_account<S: SecretStore>(store: &mut S, account_id: &str) -> (r: Result<
    (),
    AuthError,
>)
    ensures
        r is Ok ==> final(store).secrets() == old(store).secrets().remove(account_id@),
        r matches Err(e) ==> is_store_error(e) && final(store).secrets() == old(store).secrets(),
        final(store).accounts_data() == old(store).accounts_data(),
        final(store).legacy() == old(store).legacy(),
{
    store.delete_secret(account_id)
}

/// The stored API key of an account, if any.
pub fn get_account_api_key<S: SecretStore>(store: &S, account_id: &str) -> (r: Result<
    Option<String>,
    AuthError,
>)
    ensures
        r matches Ok(Some(s)) ==> store.secrets().contains_key(account_id@) && s@
            == store.secrets()[account_id@],
        r matches Ok(None) ==> !store.secrets().contains_key(account_id@),
        r matches Err(e) ==> is_store_error(e),
{
    store.get_secret(account_id)
}

/// Stores the legacy credential record and publishes it into the shared
/// view; the durable write precedes the publish.
pub fn save_credentials<S: SecretStore>(
    store: &mut S,
    view: &mut AppState,
    server_url: String,
    api_key: String,
    user_email: String,
) -> (r: Result<(), AuthError>)
    ensures
        r is Ok ==> final(store).legacy() == Some(
            CredentialsView { server_url: server_url@, api_key: api_key@, user_email: user_email@ },
        ) && final(view).server_url.deep_view() == Some(server_url@)
            && final(view).api_key.deep_view() == Some(api_key@),
        r matches Err(e) ==> is_store_error(e) && *final(view) == *old(view)
            && final(store).legacy() == old(store).legacy(),
        final(store).accounts_data() == old(store).accounts_data(),
        final(store).secrets() == old(store).secrets(),
{
    let creds = Credentials {
        server_url: server_url.clone(),
        api_key: api_key.clone(),
        user_email,
    };
    match store.set_credentials(&creds) {
        Ok(()) => {},
        Err(e) => {
            return Err(e);
        },
    }
    view.server_url = Some(server_url);
    view.api_key = Some(api_key);
    Ok(())
}

/// Loads the legacy credential record; when one exists, publishes it into
/// the shared view.
pub fn load_credentials<S: SecretStore>(store: &S, view: &mut AppState) -> (r: Result<
    Option<Credentials>,
    AuthError,
>)
    ensures
        r matches Ok(Some(c)) ==> store.legacy() == Some(c@) && final(view).server_url.deep_view()
            == Some(c@.server_url) && final(view).api_key.deep_view() == Some(c@.api_key),
        r matches Ok(None) ==> store.legacy() is None && *final(view) == *old(view),
        r matches Err(e) ==> is_store_error(e) && *final(view) == *old(view),
{
    match store.get_credentials() {
        Ok(Some(c)) => {
            view.server_url = Some(c.server_url.clone());
            view.api_key = Some(c.api_key.clone());
            Ok(Some(c))
        },
        Ok(None) => Ok(None),
        Err(e) => Err(e),
    }
}

/// Removes the legacy credential record and clears the shared view.
pub fn clear_credentials<S: SecretStore>(store: &mut S, view: &mut AppState) -> (r: Result<
    (),
    AuthError,
>)
    ensures
        r is Ok ==> final(store).legacy() is None && final(view).server_url is None
            && final(view).api_key is None,
        r matches Err(e) ==> is_store_error(e) && *final(view) == *old(view) && final(store).legacy()
            == old(store).legacy(),
        final(store).accounts_data() == old(store).accounts_data(),
        final(store).secrets() == old(store).secrets(),
{
    match store.clear_credentials_entry() {
        Ok(()) => {},
        Err(e) => {
            return Err(e);
        },
    }
    view.server_url = None;
    view.api_key = None;
    Ok(())
}

/// A lowercase hex digit, as the canonical identifier text is written.
pub open spec fn is_lower_hex_char(c: char) -> bool {
    ('0' <= c && c <= '9') || ('a' <= c && c <= 'f')
}

/// Relies on uuid's Uuid::new_v4 and its hyphenated text form: a fresh
/// 128-bit random identifier in the canonical shape — 36 characters, hyphens
/// at 8, 13, 18 and 23, the version digit 4 at 14, lowercase hex elsewhere.
/// Nothing is assumed of the random bits.
#[verifier::external_body]
pub fn generate_account_id() -> (r: String)
    ensures
        r@.len() == 36,
        r@[8] == '-' && r@[13] == '-' && r@[18] == '-' && r@[23] == '-',
        r@[14] == '4',
        forall|i: int|
            0 <= i < 36 && i != 8 && i != 13 && i != 18 && i != 23 ==> is_lower_hex_char(
                #[trigger] r@[i],
            ),
{
    uuid::Uuid::new_v4().to_string()
}

/// Relies on chrono's Utc::now and to_rfc3339: the current UTC time in a
/// sortable textual form. The value depends on the clock, so nothing is
/// assumed of it.
#[verifier::external_body]
fn now_rfc3339() -> (r: String) {
    chrono::Utc::now().to_rfc3339()
}

/// Loads the account data. When accounts exist but none is active, the first
/// becomes active and that choice is persisted. The active account's
/// credentials are then published into the shared view; a found active
/// account whose secret is missing clears the view instead.
pub fn load_accounts<S: SecretStore>(store: &mut S, view: &mut AppState) -> (r: Result<
    AccountsData,
    AuthError,
>)
    ensures
        r matches Ok(d) ==> ({
            let base = stored_or_empty(old(store).accounts_data());
            &&& d@.accounts == base.accounts
            &&& (if base.active_account_id is None && base.accounts.len() > 0 {
                d@.active_account_id == Some(base.accounts[0].id) && final(store).accounts_data()
                    == Some(d@)
            } else {
                d@.active_account_id == base.active_account_id && final(store).accounts_data()
                    == old(store).accounts_data()
            })
            &&& (match d@.active_account_id {
                Some(id) => {
                    let i = crate::accounts::first_id_idx(d@.accounts, id);
                    if i >= 0 {
                        if old(store).secrets().contains_key(id) {
                            final(view).server_url.deep_view() == Some(d@.accounts[i].server_url)
                                && final(view).api_key.deep_view() == Some(
                                old(store).secrets()[id],
                            )
                        } else {
                            final(view).server_url is None && final(view).api_key is None
                        }
                    } else {
                        *final(view) == *old(view)
                    }
                },
                None => *final(view) == *old(view),
            })
        }),
        r matches Err(e) ==> is_store_error(e) && *final(view) == *old(view),
        final(store).secrets() == old(store).secrets(),
        final(store).legacy() == old(store).legacy(),
{
    let mut data = match store.load_accounts_data() {
        Ok(d) => d,
        Err(e) => {
            return Err(e);
        },
    };
    if data.active_account_id.is_none() && data.accounts.len() > 0 {
        let first_id = data.accounts[0].id.clone();
        data.active_account_id = Some(first_id);
        match store.save_accounts_data(&data) {
            Ok(()) => {},
            Err(e) => {
                return Err(e);
            },
        }
    }
    let idx_opt = match &data.active_account_id {
        Some(active_id) => crate::accounts::find_account_by_id(&data.accounts, active_id),
        None => None,
    };
    if let Some(i) = idx_opt {
        proof {
            match data@.active_account_id {
                Some(id) => crate::accounts::lemma_first_id_idx_props(data@.accounts, id),
                None => (),
            }
        }
        let secret = match store.get_secret(data.accounts[i].id.as_str()) {
            Ok(s) => s,
            Err(e) => {
                return Err(e);
            },
        };
        match secret {
            Some(key) => {
                view.server_url = Some(data.accounts[i].server_url.clone());
                view.api_key = Some(key);
            },
            None => {
                view.server_url = None;
                view.api_key = None;
            },
        }
    }
    Ok(data)
}

/// Upserts an account: an account with the same `(server_url, user_email)`
/// takes the new fields but keeps its id; otherwise the account is appended
/// as given. The resolved account's secret is stored, it becomes active, the
/// data is persisted, and only then are its credentials published into the
/// shared view.
pub fn save_account<S: SecretStore>(
    store: &mut S,
    view: &mut AppState,
    account: Account,
    api_key: String,
) -> (r: Result<AccountsData, AuthError>)
    ensures
        r matches Ok(d) ==> ({
            let base = stored_or_empty(old(store).accounts_data());
            let rid = crate::accounts::upsert_id_spec(base.accounts, account@);
            &&& d@.accounts == crate::accounts::upsert_accounts_spec(base.accounts, account@)
            &&& d@.active_account_id == Some(rid)
            &&& final(store).accounts_data() == Some(d@)
            &&& final(store).secrets() == old(store).secrets().insert(rid, api_key@)
            &&& final(view).server_url.deep_view() == Some(account.server_url@)
            &&& final(view).api_key.deep_view() == Some(api_key@)
        }),
        r matches Err(e) ==> is_store_error(e) && *final(view) == *old(view)
            && final(store).accounts_data() == old(store).accounts_data(),
        final(store).legacy() == old(store).legacy(),
{
    let ghost av = account@;
    let mut data = match store.load_accounts_data() {
        Ok(d) => d,
        Err(e) => {
            return Err(e);
        },
    };
    let ghost base_accounts = data@.accounts;
    let server_url_copy = account.server_url.clone();
    let idx = crate::accounts::find_account_by_key(
        &data.accounts,
        &account.server_url,
        &account.user_email,
    );
    match idx {
        Some(i) => {
            let existing_id = data.accounts[i].id.clone();
            let updated = Account {
                id: existing_id.clone(),
                display_name: account.display_name,
                server_url: account.server_url,
                user_email: account.user_email,
                api_key_id: account.api_key_id,
                scopes: account.scopes,
                created_at: account.created_at,
                last_used_at: account.last_used_at,
            };
            proof {
                assert(updated@ =~~= crate::accounts::with_id(av, base_accounts[i as int].id));
            }
            data.accounts.set(i, updated);
            match store.set_secret(existing_id.as_str(), api_key.as_str()) {
                Ok(()) => {},
                Err(e) => {
                    return Err(e);
                },
            }
            data.active_account_id = Some(existing_id);
            proof {
                assert(data@.accounts =~~= crate::accounts::upsert_accounts_spec(
                    base_accounts,
                    av,
                ));
            }
        },
        None => {
            match store.set_secret(account.id.as_str(), api_key.as_str()) {
                Ok(()) => {},
                Err(e) => {
                    return Err(e);
                },
            }
            data.active_account_id = Some(account.id.clone());
            data.accounts.push(account);
            proof {
                assert(data@.accounts =~~= crate::accounts::upsert_accounts_spec(
                    base_accounts,
                    av,
                ));
            }
        },
    }
    match store.save_accounts_data(&data) {
        Ok(()) => {},
        Err(e) => {
            return Err(e);
        },
    }
    view.server_url = Some(server_url_copy);
    view.api_key = Some(api_key);
    Ok(data)
}

/// Removes the account with the given id and its stored secret. When the
/// removed account was active, the first remaining account is promoted (its
/// secret, when present, is published into the shared view), or, when none
/// remain, the active pointer and the shared view are cleared. The durable
/// write precedes the publish.
pub fn delete_account<S: SecretStore>(store: &mut S, view: &mut AppState, account_id: String) -> (r:
    Result<AccountsData, AuthError>)
    ensures
        r matches Ok(d) ==> ({
            let base = stored_or_empty(old(store).accounts_data());
            let remaining = crate::accounts::remove_accounts_spec(base.accounts, account_id@);
            &&& d@.accounts == remaining
            &&& final(store).secrets() == old(store).secrets().remove(account_id@)
            &&& final(store).accounts_data() == Some(d@)
            &&& (if base.active_account_id == Some(account_id@) {
                if remaining.len() > 0 {
                    d@.active_account_id == Some(remaining[0].id)
                        && (if final(store).secrets().contains_key(remaining[0].id) {
                        final(view).server_url.deep_view() == Some(remaining[0].server_url)
                            && final(view).api_key.deep_view() == Some(
                            final(store).secrets()[remaining[0].id],
                        )
                    } else {
                        *final(view) == *old(view)
                    })
                } else {
                    d@.active_account_id is None && final(view).server_url is None
                        && final(view).api_key is None
                }
            } else {
                d@.active_account_id == base.active_account_id && *final(view) == *old(view)
            })
        }),
        r matches Err(e) ==> is_store_error(e) && *final(view) == *old(view)
            && final(store).accounts_data() == old(store).accounts_data(),
        final(store).legacy() == old(store).legacy(),
{
    let mut data = match store.load_accounts_data() {
        Ok(d) => d,
        Err(e) => {
            return Err(e);
        },
    };
    let ghost base = data@;
    let was_active = match &data.active_account_id {
        Some(a) => *a == account_id,
        None => false,
    };
    let ghost vs = crate::accounts::accounts_views(data.accounts@);
    let n: usize = data.accounts.len();
    let mut kept: Vec<Account> = Vec::new();
    let mut i: usize = 0;
    proof {
        reveal(Seq::filter);
        assert(vs.take(0) =~= Seq::<AccountView>::empty());
        assert(crate::accounts::accounts_views(kept@) =~= crate::accounts::remove_accounts_spec(
            vs.take(0),
            account_id@,
        ));
    }
    while i < n
        invariant
            n == data.accounts@.len(),
            vs == crate::accounts::accounts_views(data.accounts@),
            vs.len() == n,
            i <= n,
            crate::accounts::accounts_views(kept@) == crate::accounts::remove_accounts_spec(
                vs.take(i as int),
                account_id@,
            ),
        decreases n - i,
    {
        let ghost kept_views = crate::accounts::accounts_views(kept@);
        proof {
            assert(vs[i as int] == data.accounts@[i as int]@);
        }
        if !(data.accounts[i].id == account_id) {
            let a = data.accounts[i].clone();
            kept.push(a);
        }
        proof {
            reveal(Seq::filter);
            let t = vs.take(i + 1);
            assert(t.drop_last() =~= vs.take(i as int));
            assert(t.last() == vs[i as int]);
            assert(crate::accounts::remove_accounts_spec(t, account_id@)
                == crate::accounts::remove_accounts_spec(vs.take(i as int), account_id@) + (if vs[
                i as int
            ].id != account_id@ {
                seq![vs[i as int]]
            } else {
                Seq::<AccountView>::empty()
            }));
            if vs[i as int].id != account_id@ {
                assert(crate::accounts::accounts_views(kept@) =~~= kept_views + seq![
                    vs[i as int],
                ]);
            } else {
                assert(crate::accounts::accounts_views(kept@) =~~= kept_views + Seq::<
                    AccountView,
                >::empty());
            }
        }
        i = i + 1;
    }
    proof {
        assert(vs.take(n as int) =~= vs);
    }
    data.accounts = kept;
    match store.delete_secret(account_id.as_str()) {
        Ok(()) => {},
        Err(e) => {
            return Err(e);
        },
    }
    let mut promoted: Option<(String, String)> = None;
    if was_active {
        if data.accounts.len() > 0 {
            let new_id = data.accounts[0].id.clone();
            data.active_account_id = Some(new_id);
            let secret = match store.get_secret(data.accounts[0].id.as_str()) {
                Ok(s) => s,
                Err(e) => {
                    return Err(e);
                },
            };
            match secret {
                Some(key) => {
                    promoted = Some((data.accounts[0].server_url.clone(), key));
                },
                None => {},
            }
        } else {
            data.active_account_id = None;
        }
    }
    match store.save_accounts_data(&data) {
        Ok(()) => {},
        Err(e) => {
            return Err(e);
        },
    }
    if was_active {
        if data.accounts.len() > 0 {
            match promoted {
                Some((server_url, key)) => {
                    view.server_url = Some(server_url);
                    view.api_key = Some(key);
                },
                None => {},
            }
        } else {
            view.server_url = None;
            view.api_key = None;
        }
    }
    Ok(data)
}

/// Makes the account with the given id active, stamping its last-used time
/// with `now`: the account must exist (`AccountNotFound`) and its secret must
/// be retrievable (activation never publishes a credential it cannot fetch).
/// The durable write precedes the publish; the returned account carries the
/// fields as they were before the stamp.
pub fn set_active_account_at<S: SecretStore>(
    store: &mut S,
    view: &mut AppState,
    account_id: String,
    now: String,
) -> (r: Result<Account, AuthError>)
    ensures
        r matches Ok(acct) ==> ({
            let base = stored_or_empty(old(store).accounts_data());
            let i = crate::accounts::first_id_idx(base.accounts, account_id@);
            &&& i >= 0
            &&& acct@ == base.accounts[i]
            &&& old(store).secrets().contains_key(account_id@)
            &&& final(store).accounts_data() == Some(
                AccountsDataView {
                    accounts: base.accounts.update(
                        i,
                        crate::accounts::with_last_used(base.accounts[i], now@),
                    ),
                    active_account_id: Some(account_id@),
                },
            )
            &&& final(view).server_url.deep_view() == Some(base.accounts[i].server_url)
            &&& final(view).api_key.deep_view() == Some(old(store).secrets()[account_id@])
        }),
        crate::accounts::first_id_idx(
            stored_or_empty(old(store).accounts_data()).accounts,
            account_id@,
        ) == -1 ==> r is Err,
        !old(store).secrets().contains_key(account_id@) ==> r is Err,
        r matches Err(e) ==> (e matches AuthError::AccountNotFound(s) ==> s@ == account_id@
            && crate::accounts::first_id_idx(
            stored_or_empty(old(store).accounts_data()).accounts,
            account_id@,
        ) == -1),
        r matches Err(e) ==> e is AccountNotFound || is_store_error(e),
        r is Err ==> *final(view) == *old(view)
            && final(store).accounts_data() == old(store).accounts_data(),
        final(store).secrets() == old(store).secrets(),
        final(store).legacy() == old(store).legacy(),
{
    let mut data = match store.load_accounts_data() {
        Ok(d) => d,
        Err(e) => {
            return Err(e);
        },
    };
    let ghost base_accounts = data@.accounts;
    let idx = crate::accounts::find_account_by_id(&data.accounts, &account_id);
    let i = match idx {
        Some(i) => i,
        None => {
            return Err(AuthError::AccountNotFound(account_id));
        },
    };
    proof {
        crate::accounts::lemma_first_id_idx_props(base_accounts, account_id@);
    }
    let acct = data.accounts[i].clone();
    let api_key = match store.get_secret(account_id.as_str()) {
        Ok(Some(k)) => k,
        Ok(None) => {
            return Err(AuthError::KeyringError(String::from_str("API key not found")));
        },
        Err(e) => {
            return Err(e);
        },
    };
    let stamped = Account {
        id: acct.id.clone(),
        display_name: acct.display_name.clone(),
        server_url: acct.server_url.clone(),
        user_email: acct.user_email.clone(),
        api_key_id: acct.api_key_id.clone(),
        scopes: crate::accounts::clone_string_vec(&acct.scopes),
        created_at: acct.created_at.clone(),
        last_used_at: now,
    };
    data.accounts.set(i, stamped);
    data.active_account_id = Some(account_id);
    proof {
        assert(data@.accounts =~~= base_accounts.update(
            i as int,
            crate::accounts::with_last_used(base_accounts[i as int], now@),
        ));
    }
    match store.save_accounts_data(&data) {
        Ok(()) => {},
        Err(e) => {
            return Err(e);
        },
    }
    view.server_url = Some(acct.server_url.clone());
    view.api_key = Some(api_key);
    Ok(acct)
}

/// Makes the account with the given id active, stamping its last-used time
/// with the current clock time; otherwise exactly `set_active_account_at`.
pub fn set_active_account<S: SecretStore>(store: &mut S, view: &mut AppState, account_id: String) -> (r:
    Result<Account, AuthError>)
    ensures
        r matches Ok(acct) ==> ({
            let base = stored_or_empty(old(store).accounts_data());
            let i = crate::accounts::first_id_idx(base.accounts, account_id@);
            &&& i >= 0
            &&& acct@ == base.accounts[i]
            &&& old(store).secrets().contains_key(account_id@)
            &&& exists|t: Seq<char>| final(store).accounts_data() == Some(
                AccountsDataView {
                    accounts: base.accounts.update(
                        i,
                        crate::accounts::with_last_used(base.accounts[i], t),
                    ),
                    active_account_id: Some(account_id@),
                },
            )
            &&& final(view).server_url.deep_view() == Some(base.accounts[i].server_url)
            &&& final(view).api_key.deep_view() == Some(old(store).secrets()[account_id@])
        }),
        crate::accounts::first_id_idx(
            stored_or_empty(old(store).accounts_data()).accounts,
            account_id@,
        ) == -1 ==> r is Err,
        !old(store).secrets().contains_key(account_id@) ==> r is Err,
        r matches Err(e) ==> (e matches AuthError::AccountNotFound(s) ==> s@ == account_id@
            && crate::accounts::first_id_idx(
            stored_or_empty(old(store).accounts_data()).accounts,
            account_id@,
        ) == -1),
        r matches Err(e) ==> e is AccountNotFound || is_store_error(e),
        r is Err ==> *final(view) == *old(view)
            && final(store).accounts_data() == old(store).accounts_data(),
        final(store).secrets() == old(store).secrets(),
        final(store).legacy() == old(store).legacy(),
{
    let now = now_rfc3339();
    set_active_account_at(store, view, account_id, now)
}

} // verus!
