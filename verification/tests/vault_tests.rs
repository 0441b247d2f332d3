use relate_mail_core::accounts::Account;
use relate_mail_core::accounts::AppState;
use relate_mail_core::errors::AuthError;
use relate_mail_core::vault::delete_account;
use relate_mail_core::vault::delete_api_key_for_account;
use relate_mail_core::vault::generate_account_id;
use relate_mail_core::vault::get_account_api_key;
use relate_mail_core::vault::load_accounts;
use relate_mail_core::vault::load_credentials;
use relate_mail_core::vault::save_account;
use relate_mail_core::vault::save_api_key_for_account;
use relate_mail_core::vault::save_credentials;
use relate_mail_core::vault::set_active_account;
use relate_mail_core::vault::clear_credentials;
use relate_mail_core::vault::MemSecretStore;
use relate_mail_core::vault::SecretStore;

fn account(id: &str, name: &str, server: &str, email: &str) -> Account {
    Account {
        id: id.to_string(),
        display_name: name.to_string(),
        server_url: server.to_string(),
        user_email: email.to_string(),
        api_key_id: format!("key-{id}"),
        scopes: vec!["mail".to_string()],
        created_at: "2024-01-01T00:00:00+00:00".to_string(),
        last_used_at: "2024-01-01T00:00:00+00:00".to_string(),
    }
}

fn empty_view() -> AppState {
    AppState { server_url: None, api_key: None }
}

#[test]
fn save_account_publishes_credentials() {
    let mut store = MemSecretStore::new();
    let mut view = empty_view();
    let a = account("id1", "Alice", "https://s1.example", "alice@example.com");
    let data = save_account(&mut store, &mut view, a, "secret1".to_string()).unwrap();
    assert_eq!(data.accounts.len(), 1);
    assert_eq!(data.active_account_id, Some("id1".to_string()));
    assert_eq!(view.server_url, Some("https://s1.example".to_string()));
    assert_eq!(view.api_key, Some("secret1".to_string()));
}

#[test]
fn upsert_same_server_and_email_keeps_one_account_and_id() {
    let mut store = MemSecretStore::new();
    let mut view = empty_view();
    let first = account("id1", "Old Name", "https://s1.example", "alice@example.com");
    save_account(&mut store, &mut view, first, "k1".to_string()).unwrap();

    // A second save for the same (server_url, user_email) carries a fresh
    // caller-supplied id and a different display name.
    let second = account("id2", "New Name", "https://s1.example", "alice@example.com");
    let data = save_account(&mut store, &mut view, second, "k2".to_string()).unwrap();

    assert_eq!(data.accounts.len(), 1);
    assert_eq!(data.accounts[0].id, "id1");
    assert_eq!(data.accounts[0].display_name, "New Name");
    assert_eq!(data.active_account_id, Some("id1".to_string()));
    assert_eq!(
        get_account_api_key(&store, "id1").unwrap(),
        Some("k2".to_string())
    );
}

#[test]
fn delete_active_account_promotes_first_remaining() {
    let mut store = MemSecretStore::new();
    let mut view = empty_view();
    let a1 = account("id1", "One", "https://s1.example", "one@example.com");
    let a2 = account("id2", "Two", "https://s2.example", "two@example.com");
    let a3 = account("id3", "Three", "https://s3.example", "three@example.com");
    save_account(&mut store, &mut view, a1, "k1".to_string()).unwrap();
    save_account(&mut store, &mut view, a2, "k2".to_string()).unwrap();
    save_account(&mut store, &mut view, a3, "k3".to_string()).unwrap();
    set_active_account(&mut store, &mut view, "id2".to_string()).unwrap();

    let data = delete_account(&mut store, &mut view, "id2".to_string()).unwrap();
    assert_eq!(data.accounts.len(), 2);
    // The active pointer names a remaining account — the first one.
    assert_eq!(data.active_account_id, Some("id1".to_string()));
    assert!(data.accounts.iter().any(|a| Some(&a.id) == data.active_account_id.as_ref()));
    // The shared view reflects the promoted account's secret.
    assert_eq!(view.server_url, Some("https://s1.example".to_string()));
    assert_eq!(view.api_key, Some("k1".to_string()));
    // The removed account's secret is gone.
    assert_eq!(get_account_api_key(&store, "id2").unwrap(), None);
}

#[test]
fn delete_last_account_clears_pointer_and_view() {
    let mut store = MemSecretStore::new();
    let mut view = empty_view();
    let a = account("id1", "Only", "https://s1.example", "one@example.com");
    save_account(&mut store, &mut view, a, "k1".to_string()).unwrap();

    let data = delete_account(&mut store, &mut view, "id1".to_string()).unwrap();
    assert!(data.accounts.is_empty());
    assert_eq!(data.active_account_id, None);
    assert_eq!(view.server_url, None);
    assert_eq!(view.api_key, None);
}

#[test]
fn delete_inactive_account_leaves_view_alone() {
    let mut store = MemSecretStore::new();
    let mut view = empty_view();
    let a1 = account("id1", "One", "https://s1.example", "one@example.com");
    let a2 = account("id2", "Two", "https://s2.example", "two@example.com");
    save_account(&mut store, &mut view, a1, "k1".to_string()).unwrap();
    save_account(&mut store, &mut view, a2, "k2".to_string()).unwrap();
    // id2 is active; delete id1.
    let data = delete_account(&mut store, &mut view, "id1".to_string()).unwrap();
    assert_eq!(data.active_account_id, Some("id2".to_string()));
    assert_eq!(view.server_url, Some("https://s2.example".to_string()));
    assert_eq!(view.api_key, Some("k2".to_string()));
}

#[test]
fn load_accounts_selects_first_when_none_active() {
    let mut store = MemSecretStore::new();
    let mut view = empty_view();
    let a1 = account("id1", "One", "https://s1.example", "one@example.com");
    let a2 = account("id2", "Two", "https://s2.example", "two@example.com");
    save_account(&mut store, &mut view, a1, "k1".to_string()).unwrap();
    save_account(&mut store, &mut view, a2, "k2".to_string()).unwrap();
    // Forget the active pointer, as a store written by an older version
    // might have it.
    let mut data = store.load_accounts_data().unwrap();
    data.active_account_id = None;
    store.save_accounts_data(&data).unwrap();

    let mut view2 = empty_view();
    let loaded = load_accounts(&mut store, &mut view2).unwrap();
    assert_eq!(loaded.active_account_id, Some("id1".to_string()));
    assert_eq!(view2.server_url, Some("https://s1.example".to_string()));
    assert_eq!(view2.api_key, Some("k1".to_string()));
    // The auto-selection was persisted.
    assert_eq!(
        store.accounts_entry.as_ref().unwrap().active_account_id,
        Some("id1".to_string())
    );
}

#[test]
fn load_accounts_on_empty_store() {
    let mut store = MemSecretStore::new();
    let mut view = empty_view();
    let data = load_accounts(&mut store, &mut view).unwrap();
    assert!(data.accounts.is_empty());
    assert_eq!(data.active_account_id, None);
    assert_eq!(view.server_url, None);
}

#[test]
fn load_accounts_clears_view_when_secret_missing() {
    let mut store = MemSecretStore::new();
    let mut view = empty_view();
    let a = account("id1", "One", "https://s1.example", "one@example.com");
    save_account(&mut store, &mut view, a, "k1".to_string()).unwrap();
    delete_api_key_for_account(&mut store, "id1").unwrap();

    let mut view2 = AppState {
        server_url: Some("stale".to_string()),
        api_key: Some("stale".to_string()),
    };
    load_accounts(&mut store, &mut view2).unwrap();
    assert_eq!(view2.server_url, None);
    assert_eq!(view2.api_key, None);
}

#[test]
fn set_active_account_stamps_last_used_and_publishes() {
    let mut store = MemSecretStore::new();
    let mut view = empty_view();
    let a1 = account("id1", "One", "https://s1.example", "one@example.com");
    let a2 = account("id2", "Two", "https://s2.example", "two@example.com");
    save_account(&mut store, &mut view, a1, "k1".to_string()).unwrap();
    save_account(&mut store, &mut view, a2, "k2".to_string()).unwrap();

    let returned = set_active_account(&mut store, &mut view, "id1".to_string()).unwrap();
    // The returned account carries the fields as they were before the stamp.
    assert_eq!(returned.id, "id1");
    assert_eq!(returned.last_used_at, "2024-01-01T00:00:00+00:00");
    assert_eq!(view.server_url, Some("https://s1.example".to_string()));
    assert_eq!(view.api_key, Some("k1".to_string()));
    // The stored copy was stamped with a later time.
    let stored = store.accounts_entry.as_ref().unwrap();
    let stamped = stored.accounts.iter().find(|a| a.id == "id1").unwrap();
    assert_ne!(stamped.last_used_at, "2024-01-01T00:00:00+00:00");
    assert_eq!(stored.active_account_id, Some("id1".to_string()));
}

#[test]
fn set_active_account_unknown_id_errors() {
    let mut store = MemSecretStore::new();
    let mut view = empty_view();
    let r = set_active_account(&mut store, &mut view, "missing".to_string());
    match r {
        Err(AuthError::AccountNotFound(id)) => assert_eq!(id, "missing"),
        _ => panic!("expected AccountNotFound"),
    }
}

#[test]
fn set_active_account_without_secret_errors() {
    let mut store = MemSecretStore::new();
    let mut view = empty_view();
    let a = account("id1", "One", "https://s1.example", "one@example.com");
    save_account(&mut store, &mut view, a, "k1".to_string()).unwrap();
    delete_api_key_for_account(&mut store, "id1").unwrap();
    let r = set_active_account(&mut store, &mut view, "id1".to_string());
    match r {
        Err(e) => assert_eq!(e.message(), "Keyring error: API key not found"),
        _ => panic!("expected an error"),
    }
}

#[test]
fn api_key_store_and_delete_round_trip() {
    let mut store = MemSecretStore::new();
    save_api_key_for_account(&mut store, "acct", "sekrit").unwrap();
    assert_eq!(get_account_api_key(&store, "acct").unwrap(), Some("sekrit".to_string()));
    save_api_key_for_account(&mut store, "acct", "sekrit2").unwrap();
    assert_eq!(get_account_api_key(&store, "acct").unwrap(), Some("sekrit2".to_string()));
    delete_api_key_for_account(&mut store, "acct").unwrap();
    assert_eq!(get_account_api_key(&store, "acct").unwrap(), None);
}

#[test]
fn legacy_credentials_round_trip() {
    let mut store = MemSecretStore::new();
    let mut view = empty_view();
    save_credentials(
        &mut store,
        &mut view,
        "https://s1.example".to_string(),
        "legacy-key".to_string(),
        "user@example.com".to_string(),
    )
    .unwrap();
    assert_eq!(view.server_url, Some("https://s1.example".to_string()));
    assert_eq!(view.api_key, Some("legacy-key".to_string()));

    let mut view2 = empty_view();
    let loaded = load_credentials(&store, &mut view2).unwrap().unwrap();
    assert_eq!(loaded.server_url, "https://s1.example");
    assert_eq!(loaded.api_key, "legacy-key");
    assert_eq!(loaded.user_email, "user@example.com");
    assert_eq!(view2.api_key, Some("legacy-key".to_string()));

    clear_credentials(&mut store, &mut view2).unwrap();
    assert_eq!(view2.server_url, None);
    assert_eq!(view2.api_key, None);
    assert!(load_credentials(&store, &mut view2).unwrap().is_none());
}

#[test]
fn generated_account_ids_are_unique_and_36_chars() {
    let a = generate_account_id();
    let b = generate_account_id();
    assert_eq!(a.len(), 36);
    assert_eq!(b.len(), 36);
    assert_ne!(a, b);
}
