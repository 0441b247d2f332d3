//! The account data model of the credential vault: accounts, the persisted
//! account list with its active pointer, the legacy credential record, and
//! the shared in-memory credential view, together with the pure replacement
//! and removal logic that the vault operations are specified by.

use vstd::prelude::*;

verus! {

/// One stored account. The identity key is `id`; `(server_url, user_email)`
/// identifies "the same account" for upsert purposes.
pub struct Account {
    pub id: String,
    pub display_name: String,
    pub server_url: String,
    pub user_email: String,
    pub api_key_id: String,
    pub scopes: Vec<String>,
    pub created_at: String,
    pub last_used_at: String,
}

/// The mathematical value of an account: every field as a sequence.
pub struct AccountView {
    pub id: Seq<char>,
    pub display_name: Seq<char>,
    pub server_url: Seq<char>,
    pub user_email: Seq<char>,
    pub api_key_id: Seq<char>,
    pub scopes: Seq<Seq<char>>,
    pub created_at: Seq<char>,
    pub last_used_at: Seq<char>,
}

impl View for Account {
    type V = AccountView;

    open spec fn view(&self) -> AccountView {
        AccountView {
            id: self.id@,
            display_name: self.display_name@,
            server_url: self.server_url@,
            user_email: self.user_email@,
            api_key_id: self.api_key_id@,
            scopes: self.scopes.deep_view(),
            created_at: self.created_at@,
            last_used_at: self.last_used_at@,
        }
    }
}

/// Copies a vector of strings, keeping every element's value.
pub fn clone_string_vec(v: &Vec<String>) -> (r: Vec<String>)
    ensures
        r@ == v@,
{
    let mut r: Vec<String> = Vec::new();
    let n: usize = v.len();
    let mut i: usize = 0;
    while i < n
        invariant
            n == v@.len(),
            i <= n,
            r@ == v@.take(i as int),
        decreases n - i,
    {
        r.push(v[i].clone());
        proof {
            assert(r@ =~= v@.take(i + 1));
        }
        i = i + 1;
    }
    proof {
        assert(v@.take(n as int) =~= v@);
    }
    r
}

impl Clone for Account {
    fn clone(&self) -> (r: Self)
        ensures
            r@ == self@,
    {
        let r = Account {
            id: self.id.clone(),
            display_name: self.display_name.clone(),
            server_url: self.server_url.clone(),
            user_email: self.user_email.clone(),
            api_key_id: self.api_key_id.clone(),
            scopes: clone_string_vec(&self.scopes),
            created_at: self.created_at.clone(),
            last_used_at: self.last_used_at.clone(),
        };
        proof {
            assert(r.scopes.deep_view() =~~= self.scopes.deep_view());
        }
        r
    }
}

/// The persisted account list and active pointer.
pub struct AccountsData {
    pub accounts: Vec<Account>,
    pub active_account_id: Option<String>,
}

/// The mathematical value of the persisted data.
pub struct AccountsDataView {
    pub accounts: Seq<AccountView>,
    pub active_account_id: Option<Seq<char>>,
}

/// The views of a sequence of accounts, in order.
pub open spec fn accounts_views(accounts: Seq<Account>) -> Seq<AccountView> {
    accounts.map_values(|a: Account| a@)
}

impl View for AccountsData {
    type V = AccountsDataView;

    open spec fn view(&self) -> AccountsDataView {
        AccountsDataView {
            accounts: accounts_views(self.accounts@),
            active_account_id: self.active_account_id.deep_view(),
        }
    }
}

impl Default for AccountsData {
    /// An empty vault: no accounts, no active pointer.
    fn default() -> (r: Self)
        ensures
            r@.accounts.len() == 0,
            r@.active_account_id is None,
    {
        AccountsData { accounts: Vec::new(), active_account_id: None }
    }
}

/// The legacy single-credential record kept for migration.
pub struct Credentials {
    pub server_url: String,
    pub api_key: String,
    pub user_email: String,
}

/// The mathematical value of the legacy record.
pub struct CredentialsView {
    pub server_url: Seq<char>,
    pub api_key: Seq<char>,
    pub user_email: Seq<char>,
}

impl View for Credentials {
    type V = CredentialsView;

    open spec fn view(&self) -> CredentialsView {
        CredentialsView {
            server_url: self.server_url@,
            api_key: self.api_key@,
            user_email: self.user_email@,
        }
    }
}

/// The shared in-memory credential view: the server URL and API key that the
/// rest of the application currently uses. Both fields are always changed
/// together, through `&mut` exclusive access; the surrounding application
/// wraps the whole value in one lock.
pub struct AppState {
    pub server_url: Option<String>,
    pub api_key: Option<String>,
}

impl AppState {
    /// The pair of published values.
    pub open spec fn published(&self) -> (Option<Seq<char>>, Option<Seq<char>>) {
        (self.server_url.deep_view(), self.api_key.deep_view())
    }
}

impl Default for AppState {
    /// Empty at startup: nothing published.
    fn default() -> (r: Self)
        ensures
            r.server_url is None,
            r.api_key is None,
    {
        AppState { server_url: None, api_key: None }
    }
}

/// Whether `a` is "the same account" as the given coordinates for upsert
/// purposes.
pub open spec fn acct_key_matches(a: AccountView, server_url: Seq<char>, user_email: Seq<char>) -> bool {
    a.server_url == server_url && a.user_email == user_email
}

/// The index of the first account matching `(server_url, user_email)`, or -1.
pub open spec fn first_match_idx(accounts: Seq<AccountView>, su: Seq<char>, ue: Seq<char>) -> int
    decreases accounts.len(),
{
    if accounts.len() == 0 {
        -1
    } else if acct_key_matches(accounts[0], su, ue) {
        0
    } else {
        let r = first_match_idx(accounts.skip(1), su, ue);
        if r < 0 {
            -1
        } else {
            r + 1
        }
    }
}

pub proof fn lemma_first_match_idx_props(accounts: Seq<AccountView>, su: Seq<char>, ue: Seq<char>)
    ensures
        first_match_idx(accounts, su, ue) == -1 ==> forall|k: int|
            0 <= k < accounts.len() ==> !acct_key_matches(accounts[k], su, ue),
        first_match_idx(accounts, su, ue) >= 0 ==> {
            let i = first_match_idx(accounts, su, ue);
            &&& i < accounts.len()
            &&& acct_key_matches(accounts[i], su, ue)
            &&& forall|k: int| 0 <= k < i ==> !acct_key_matches(accounts[k], su, ue)
        },
    decreases accounts.len(),
{
    if accounts.len() == 0 {
    } else if acct_key_matches(accounts[0], su, ue) {
    } else {
        lemma_first_match_idx_props(accounts.skip(1), su, ue);
        assert(forall|k: int|
            1 <= k < accounts.len() ==> accounts[k] == accounts.skip(1)[k - 1]);
    }
}

/// The first index is the only index that matches and has no earlier match.
pub proof fn lemma_first_match_idx_is(accounts: Seq<AccountView>, su: Seq<char>, ue: Seq<char>, i: int)
    requires
        0 <= i < accounts.len(),
        acct_key_matches(accounts[i], su, ue),
        forall|k: int| 0 <= k < i ==> !acct_key_matches(accounts[k], su, ue),
    ensures
        first_match_idx(accounts, su, ue) == i,
{
    lemma_first_match_idx_props(accounts, su, ue);
    let m = first_match_idx(accounts, su, ue);
    if m == -1 {
        assert(!acct_key_matches(accounts[i], su, ue));
    } else if m < i {
        assert(!acct_key_matches(accounts[m], su, ue));
    } else if m > i {
        assert(!acct_key_matches(accounts[i], su, ue));
    }
}

/// `a` with its identifier replaced.
pub open spec fn with_id(a: AccountView, id: Seq<char>) -> AccountView {
    AccountView {
        id: id,
        display_name: a.display_name,
        server_url: a.server_url,
        user_email: a.user_email,
        api_key_id: a.api_key_id,
        scopes: a.scopes,
        created_at: a.created_at,
        last_used_at: a.last_used_at,
    }
}

/// The account list after an upsert of `acct`: when an account with the same
/// `(server_url, user_email)` exists, the first such account takes `acct`'s
/// fields but keeps its own id; otherwise `acct` is appended as given.
pub open spec fn upsert_accounts_spec(accounts: Seq<AccountView>, acct: AccountView) -> Seq<
    AccountView,
> {
    let i = first_match_idx(accounts, acct.server_url, acct.user_email);
    if i >= 0 {
        accounts.update(i, with_id(acct, accounts[i].id))
    } else {
        accounts.push(acct)
    }
}

/// The identifier the upsert resolves to: the existing account's id when one
/// matches, else `acct`'s own id.
pub open spec fn upsert_id_spec(accounts: Seq<AccountView>, acct: AccountView) -> Seq<char> {
    let i = first_match_idx(accounts, acct.server_url, acct.user_email);
    if i >= 0 {
        accounts[i].id
    } else {
        acct.id
    }
}

/// The account list after removing every account with the given id.
pub open spec fn remove_accounts_spec(accounts: Seq<AccountView>, id: Seq<char>) -> Seq<
    AccountView,
> {
    accounts.filter(|a: AccountView| a.id != id)
}

/// Upserting twice with the same `(server_url, user_email)` leaves exactly as
/// many accounts as upserting once: the second upsert replaces the slot the
/// first one filled, keeps the id the first one resolved to, and stores the
/// second account's other fields there.
pub proof fn lemma_upsert_idempotent(accounts: Seq<AccountView>, a1: AccountView, a2: AccountView)
    requires
        a1.server_url == a2.server_url,
        a1.user_email == a2.user_email,
    ensures
        ({
            let mid = upsert_accounts_spec(accounts, a1);
            let id1 = upsert_id_spec(accounts, a1);
            let i = first_match_idx(accounts, a1.server_url, a1.user_email);
            let j = if i >= 0 { i } else { accounts.len() as int };
            &&& upsert_accounts_spec(mid, a2).len() == mid.len()
            &&& upsert_id_spec(mid, a2) == id1
            &&& upsert_accounts_spec(mid, a2) == mid.update(j, with_id(a2, id1))
        }),
{
    let su = a1.server_url;
    let ue = a1.user_email;
    let mid = upsert_accounts_spec(accounts, a1);
    let id1 = upsert_id_spec(accounts, a1);
    let i = first_match_idx(accounts, su, ue);
    lemma_first_match_idx_props(accounts, su, ue);
    let j: int = if i >= 0 { i } else { accounts.len() as int };
    assert(mid.len() == if i >= 0 { accounts.len() as int } else { accounts.len() as int + 1 });
    assert(acct_key_matches(mid[j], su, ue));
    assert(mid[j].id == id1);
    assert forall|k: int| 0 <= k < j implies !acct_key_matches(mid[k], su, ue) by {
        assert(mid[k] == accounts[k]);
    }
    lemma_first_match_idx_is(mid, su, ue, j);
}

/// The index of the first account with the given id, or -1.
pub open spec fn first_id_idx(accounts: Seq<AccountView>, id: Seq<char>) -> int
    decreases accounts.len(),
{
    if accounts.len() == 0 {
        -1
    } else if accounts[0].id == id {
        0
    } else {
        let r = first_id_idx(accounts.skip(1), id);
        if r < 0 {
            -1
        } else {
            r + 1
        }
    }
}

pub proof fn lemma_first_id_idx_props(accounts: Seq<AccountView>, id: Seq<char>)
    ensures
        first_id_idx(accounts, id) == -1 ==> forall|k: int|
            0 <= k < accounts.len() ==> accounts[k].id != id,
        first_id_idx(accounts, id) >= 0 ==> {
            let i = first_id_idx(accounts, id);
            &&& i < accounts.len()
            &&& accounts[i].id == id
            &&& forall|k: int| 0 <= k < i ==> accounts[k].id != id
        },
    decreases accounts.len(),
{
    if accounts.len() == 0 {
    } else if accounts[0].id == id {
    } else {
        lemma_first_id_idx_props(accounts.skip(1), id);
        assert(forall|k: int|
            1 <= k < accounts.len() ==> accounts[k] == accounts.skip(1)[k - 1]);
    }
}

/// `a` with its last-used timestamp replaced.
pub open spec fn with_last_used(a: AccountView, t: Seq<char>) -> AccountView {
    AccountView {
        id: a.id,
        display_name: a.display_name,
        server_url: a.server_url,
        user_email: a.user_email,
        api_key_id: a.api_key_id,
        scopes: a.scopes,
        created_at: a.created_at,
        last_used_at: t,
    }
}

/// Finds the first account with the given `(server_url, user_email)`.
pub fn find_account_by_key(accounts: &Vec<Account>, server_url: &String, user_email: &String) -> (r:
    Option<usize>)
    ensures
        match r {
            Some(i) => i < accounts@.len() && first_match_idx(
                accounts_views(accounts@),
                server_url@,
                user_email@,
            ) == i as int,
            None => first_match_idx(accounts_views(accounts@), server_url@, user_email@) == -1,
        },
{
    let ghost views = accounts_views(accounts@);
    let n: usize = accounts.len();
    let mut i: usize = 0;
    while i < n
        invariant
            n == accounts@.len(),
            i <= n,
            views == accounts_views(accounts@),
            views.len() == n,
            forall|k: int| 0 <= k < i ==> !acct_key_matches(views[k], server_url@, user_email@),
        decreases n - i,
    {
        let a = &accounts[i];
        if a.server_url == *server_url && a.user_email == *user_email {
            proof {
                assert(views[i as int] == accounts@[i as int]@);
                lemma_first_match_idx_is(views, server_url@, user_email@, i as int);
            }
            return Some(i);
        }
        proof {
            assert(views[i as int] == accounts@[i as int]@);
        }
        i = i + 1;
    }
    proof {
        lemma_first_match_idx_props(views, server_url@, user_email@);
        if first_match_idx(views, server_url@, user_email@) >= 0 {
            let m = first_match_idx(views, server_url@, user_email@);
            assert(!acct_key_matches(views[m], server_url@, user_email@));
        }
    }
    None
}

/// Finds the first account with the given id.
pub fn find_account_by_id(accounts: &Vec<Account>, id: &String) -> (r: Option<usize>)
    ensures
        match r {
            Some(i) => i < accounts@.len() && first_id_idx(accounts_views(accounts@), id@)
                == i as int,
            None => first_id_idx(accounts_views(accounts@), id@) == -1,
        },
{
    let ghost views = accounts_views(accounts@);
    let n: usize = accounts.len();
    let mut i: usize = 0;
    while i < n
        invariant
            n == accounts@.len(),
            i <= n,
            views == accounts_views(accounts@),
            views.len() == n,
            forall|k: int| 0 <= k < i ==> views[k].id != id@,
        decreases n - i,
    {
        let a = &accounts[i];
        if a.id == *id {
            proof {
                assert(views[i as int] == accounts@[i as int]@);
                lemma_first_id_idx_is(views, id@, i as int);
            }
            return Some(i);
        }
        proof {
            assert(views[i as int] == accounts@[i as int]@);
        }
        i = i + 1;
    }
    proof {
        lemma_first_id_idx_props(views, id@);
        if first_id_idx(views, id@) >= 0 {
            let m = first_id_idx(views, id@);
            assert(views[m].id != id@);
        }
    }
    None
}

/// The first id-index is the only index with that id and no earlier one.
pub proof fn lemma_first_id_idx_is(accounts: Seq<AccountView>, id: Seq<char>, i: int)
    requires
        0 <= i < accounts.len(),
        accounts[i].id == id,
        forall|k: int| 0 <= k < i ==> accounts[k].id != id,
    ensures
        first_id_idx(accounts, id) == i,
{
    lemma_first_id_idx_props(accounts, id);
    let m = first_id_idx(accounts, id);
    if m == -1 {
        assert(accounts[i].id != id);
    } else if m < i {
        assert(accounts[m].id != id);
    } else if m > i {
        assert(accounts[i].id != id);
    }
}

/// Removal leaves no account with the removed id: after the active account
/// is deleted and the first remaining account promoted, the active pointer
/// names an account that is still present, never the removed one.
pub proof fn lemma_removed_id_gone(accounts: Seq<AccountView>, id: Seq<char>)
    ensures
        forall|i: int|
            0 <= i < remove_accounts_spec(accounts, id).len() ==> (#[trigger] remove_accounts_spec(
                accounts,
                id,
            )[i]).id != id,
    decreases accounts.len(),
{
    reveal(Seq::filter);
    if accounts.len() == 0 {
    } else {
        let front = accounts.drop_last();
        lemma_removed_id_gone(front, id);
        let kept = remove_accounts_spec(accounts, id);
        let kept_front = remove_accounts_spec(front, id);
        assert(kept == kept_front + (if accounts.last().id != id {
            seq![accounts.last()]
        } else {
            Seq::<AccountView>::empty()
        }));
        assert forall|i: int| 0 <= i < kept.len() implies (#[trigger] kept[i]).id != id by {
            if i < kept_front.len() {
                assert(kept[i] == kept_front[i]);
            } else {
                assert(kept[i] == accounts.last());
            }
        }
    }
}

} // verus!
