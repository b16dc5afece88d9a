use dt_fetcher::auth::Auth;
use dt_fetcher::ids::AccountId;
use dt_fetcher::models::CurrencyType;
use dt_fetcher::storage::InMemoryAuthStorage;

fn auth_for(sub: u128, name: &str) -> Auth {
    Auth {
        access_token: String::from("at"),
        account_name: String::from(name),
        expires_in: 60,
        refresh_at: Some(1_000),
        refresh_token: String::from("rt"),
        sub: AccountId(sub),
    }
}

#[test]
fn empty_store_knows_nothing() {
    let s = InMemoryAuthStorage::new();
    assert!(!s.contains(&AccountId(1)));
    assert!(s.get(AccountId(1)).is_none());
    assert!(s.get_single().is_none());
    assert!(s.entries().is_empty());
}

#[test]
fn insert_then_read_back() {
    let mut s = InMemoryAuthStorage::new();
    s.insert(AccountId(1), auth_for(1, "one"));
    assert!(s.contains(&AccountId(1)));
    let got = s.get(AccountId(1)).expect("stored");
    assert_eq!(got.account_name, "one");
    assert_eq!(got.refresh_at, Some(1_000));
    assert_eq!(s.get_single().unwrap().0, 1);
}

#[test]
fn insert_replaces_prior_value() {
    let mut s = InMemoryAuthStorage::new();
    s.insert(AccountId(1), auth_for(1, "old"));
    s.insert(AccountId(1), auth_for(1, "new"));
    assert_eq!(s.get(AccountId(1)).unwrap().account_name, "new");
    assert_eq!(s.entries().len(), 1);
}

#[test]
fn remove_forgets_the_account() {
    let mut s = InMemoryAuthStorage::new();
    s.insert(AccountId(1), auth_for(1, "one"));
    s.insert(AccountId(2), auth_for(2, "two"));
    s.remove(&AccountId(1));
    assert!(!s.contains(&AccountId(1)));
    assert!(s.contains(&AccountId(2)));
    assert_eq!(s.get_single().unwrap().0, 2);
}

#[test]
fn entries_snapshot_every_account_once() {
    let mut s = InMemoryAuthStorage::new();
    s.insert(AccountId(1), auth_for(1, "one"));
    s.insert(AccountId(2), auth_for(2, "two"));
    s.insert(AccountId(3), auth_for(3, "three"));
    let mut entries = s.entries();
    assert_eq!(entries.len(), 3);
    entries.sort_by_key(|(id, _)| id.0);
    let keys: Vec<u128> = entries.iter().map(|(id, _)| id.0).collect();
    assert_eq!(keys, vec![1, 2, 3]);
    assert_eq!(entries[2].1.account_name, "three");
}

#[test]
fn currency_labels() {
    assert_eq!(CurrencyType::Marks.label(), "marks");
    assert_eq!(CurrencyType::Credits.label(), "credits");
}
