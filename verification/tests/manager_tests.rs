use std::collections::HashMap;

use dt_fetcher::auth::Auth;
use dt_fetcher::cache::{AccountData, Accounts};
use dt_fetcher::ids::{AccountId, CharacterId};
use dt_fetcher::manager::{AuthManager, DeadlineOutcome, NewAuthOutcome, StartOutcome};
use dt_fetcher::codec::{decode_auth, encode_auth};
use dt_fetcher::laws::{cancelled_ingestion_changes_nothing, failed_refresh_evicts,
    ingest_and_populate, scheduled_refresh_cycle};
use dt_fetcher::models::{Email, Gender, LinkedAccounts, MarketingPreferences, MasterData,
    PlayerItems, Summary};

fn auth_for(sub: u128, expires_in: u64, refresh_at: Option<i64>) -> Auth {
    Auth {
        access_token: String::from("at1"),
        account_name: String::from("acct"),
        expires_in,
        refresh_at,
        refresh_token: String::from("rt1"),
        sub: AccountId(sub),
    }
}

fn summary_with(characters: Vec<dt_fetcher::models::Character>) -> Summary {
    Summary {
        links: Vec::new(),
        username: String::from("user"),
        name: String::from("name"),
        discriminator: String::from("0001"),
        allow_rename: false,
        characters,
        email: Email { verified: true },
        linked_accounts: LinkedAccounts { steam: String::new(), twitch: String::new() },
        marketing_preferences: MarketingPreferences {
            newsletter_subscribe: false,
            opt_in: false,
            terms_agreed: true,
        },
    }
}

fn character(id: u128) -> dt_fetcher::models::Character {
    dt_fetcher::models::Character {
        id: CharacterId(id),
        name: String::from("char"),
        gender: Gender::Female,
        archetype: String::from("zealot"),
        specialization: String::from("base"),
        level: 1,
    }
}

fn master_data() -> MasterData {
    MasterData {
        links: Vec::new(),
        player_items: PlayerItems { href: String::from("h"), version: String::from("v") },
    }
}

fn bundle(now_ms: i64) -> AccountData {
    AccountData::new(
        summary_with(vec![character(77)]),
        HashMap::new(),
        HashMap::new(),
        master_data(),
        now_ms,
    )
}

#[test]
fn cold_ingestion_schedules_and_populates() {
    let mut m = AuthManager::new();
    let mut accounts = Accounts::new();
    let a = AccountId(1);
    let now = 1_000_000i64;

    let outcome = m.on_new_auth(auth_for(1, 3600, None), now);
    assert!(matches!(outcome, NewAuthOutcome::FetchBundle));
    // deadline = now + 3600 s - 300 s buffer
    assert_eq!(m.deadline_of(&a), Some(4_300_000));
    // not stored until the populate pass commits
    assert!(!m.contains(&a));

    let persist = m.on_populate_success(&mut accounts, bundle(now));
    assert!(persist.is_some());
    assert_eq!(persist.unwrap().sub.0, 1);
    assert!(m.contains(&a));
    assert!(accounts.get(&a).is_some());
}

#[test]
fn repeated_ingestion_is_ignored() {
    let mut m = AuthManager::new();
    let mut accounts = Accounts::new();
    let now = 1_000_000i64;

    assert!(matches!(m.on_new_auth(auth_for(1, 3600, None), now), NewAuthOutcome::FetchBundle));
    m.on_populate_success(&mut accounts, bundle(now));
    // second ingestion of the same account: no new fetch, nothing changes
    let again = m.on_new_auth(auth_for(1, 7200, None), now + 5);
    assert!(matches!(again, NewAuthOutcome::AlreadyKnown));
    assert_eq!(m.deadline_of(&AccountId(1)), Some(4_300_000));
}

#[test]
fn scheduled_refresh_rewrites_deadline() {
    let mut m = AuthManager::new();
    let mut accounts = Accounts::new();
    let now = 1_000_000i64;
    // seed a stored credential due shortly after the refresh buffer
    let seeded = auth_for(2, 3600, Some(now + 400_000));
    assert!(matches!(m.start_stored_auth(seeded, now), StartOutcome::FetchBundle));
    m.on_populate_success(&mut accounts, bundle(now));
    assert_eq!(m.next_deadline(), Some(now + 400_000));

    // the deadline fires; upstream returns a fresh credential
    let outcome = m.on_deadline();
    let popped = match outcome {
        DeadlineOutcome::Refresh(auth) => auth,
        _ => panic!("expected a refresh"),
    };
    assert_eq!(popped.sub.0, 2);
    let fire = now + 400_000;
    let stored = m.on_refresh_success(auth_for(2, 7200, None), fire);
    assert_eq!(stored.refresh_at, Some(fire + 7_200_000 - 300_000));
    assert_eq!(m.deadline_of(&AccountId(2)), Some(fire + 6_900_000));
    let kept = m.get(AccountId(2)).unwrap();
    assert_eq!(kept.expires_in, 7200);
    assert_eq!(kept.refresh_at, Some(fire + 6_900_000));
}

#[test]
fn failed_refresh_evicts_the_account() {
    let mut m = AuthManager::new();
    let mut accounts = Accounts::new();
    let now = 1_000_000i64;
    let seeded = auth_for(3, 3600, Some(now + 400_000));
    m.start_stored_auth(seeded, now);
    m.on_populate_success(&mut accounts, bundle(now));
    assert!(m.contains(&AccountId(3)));

    assert!(matches!(m.on_deadline(), DeadlineOutcome::Refresh(_)));
    let evicted = m.on_refresh_failure();
    assert_eq!(evicted.0, 3);
    assert!(!m.contains(&AccountId(3)));
    assert_eq!(m.deadline_of(&AccountId(3)), None);
    assert!(m.get(AccountId(3)).is_none());
}

#[test]
fn startup_drops_expired_credentials() {
    let mut m = AuthManager::new();
    let now = 10_000_000i64;
    // deadline in the past: dropped
    let past = auth_for(4, 3600, Some(now - 1));
    assert!(matches!(m.start_stored_auth(past, now), StartOutcome::Expired));
    assert!(!m.contains(&AccountId(4)));
    assert_eq!(m.deadline_of(&AccountId(4)), None);
    // deadline inside the refresh buffer: also counts as expired
    let near = auth_for(5, 3600, Some(now + 200_000));
    assert!(matches!(m.start_stored_auth(near, now), StartOutcome::Expired));
    // no deadline at all: expired
    let bare = auth_for(6, 3600, None);
    assert!(matches!(m.start_stored_auth(bare, now), StartOutcome::Expired));
    // deadline beyond the buffer: taken over
    let good = auth_for(7, 3600, Some(now + 300_001));
    assert!(matches!(m.start_stored_auth(good, now), StartOutcome::FetchBundle));
}

#[test]
fn failed_ingestion_leaves_orphan_entry() {
    let mut m = AuthManager::new();
    let now = 1_000_000i64;
    assert!(matches!(m.on_new_auth(auth_for(8, 3600, None), now), NewAuthOutcome::FetchBundle));
    let removed = m.on_populate_failure();
    assert!(removed.is_none());
    // the credential was never stored, but its queue entry remains ...
    assert!(!m.contains(&AccountId(8)));
    assert_eq!(m.deadline_of(&AccountId(8)), Some(4_300_000));
    // ... and is dropped as an orphan when its deadline fires
    match m.on_deadline() {
        DeadlineOutcome::Orphan(id) => assert_eq!(id.0, 8),
        _ => panic!("expected orphan cleanup"),
    }
    assert_eq!(m.deadline_of(&AccountId(8)), None);
}

#[test]
fn failed_startup_populate_evicts() {
    let mut m = AuthManager::new();
    let now = 1_000_000i64;
    let seeded = auth_for(9, 3600, Some(now + 500_000));
    assert!(matches!(m.start_stored_auth(seeded, now), StartOutcome::FetchBundle));
    assert!(m.contains(&AccountId(9)));
    let removed = m.on_populate_failure();
    assert_eq!(removed.unwrap().0, 9);
    assert!(!m.contains(&AccountId(9)));
}

#[test]
fn cancellation_rejects_new_credentials() {
    let mut m = AuthManager::new();
    let mut accounts = Accounts::new();
    let now = 1_000_000i64;
    m.on_new_auth(auth_for(10, 3600, None), now);
    m.on_populate_success(&mut accounts, bundle(now));

    m.on_cancel();
    let outcome = m.on_new_auth(auth_for(11, 3600, None), now + 1);
    assert!(matches!(outcome, NewAuthOutcome::Rejected));
    // nothing new was stored, scheduled, or put in flight
    assert!(!m.contains(&AccountId(11)));
    assert_eq!(m.deadline_of(&AccountId(11)), None);
    assert!(accounts.get(&AccountId(11)).is_none());
    // reads still serve what was there before cancellation
    assert!(m.contains(&AccountId(10)));
}

#[test]
fn durable_restart_repopulates() {
    // first run: ingest an account, persist what the manager hands back
    let mut m1 = AuthManager::new();
    let mut accounts1 = Accounts::new();
    let now = 1_000_000i64;
    m1.on_new_auth(auth_for(12, 3600, None), now);
    let persisted = m1.on_populate_success(&mut accounts1, bundle(now)).unwrap();
    let disk_value = encode_auth(&persisted);

    // restart: decode the durable record and run the startup pass
    let mut m2 = AuthManager::new();
    let mut accounts2 = Accounts::new();
    let recovered = decode_auth(&disk_value).expect("durable record decodes");
    assert_eq!(recovered.sub.0, 12);
    let later = now + 60_000;
    assert!(matches!(m2.start_stored_auth(recovered, later), StartOutcome::FetchBundle));
    m2.on_populate_success(&mut accounts2, bundle(later));
    assert!(m2.contains(&AccountId(12)));
    assert!(accounts2.get(&AccountId(12)).is_some());
    // the persisted deadline (ingestion at 1,000,000 + 3600 s - buffer) is kept
    assert_eq!(m2.deadline_of(&AccountId(12)), Some(4_300_000));
}

#[test]
fn law_functions_run_on_concrete_values() {
    let mut m = AuthManager::new();
    let mut accounts = Accounts::new();
    let now = 1_000_000i64;
    let (persisted, second) = ingest_and_populate(
        &mut m,
        &mut accounts,
        auth_for(20, 3600, None),
        bundle(now),
        now,
    );
    assert_eq!(persisted.unwrap().sub.0, 20);
    assert!(matches!(second, NewAuthOutcome::AlreadyKnown));

    let stored = scheduled_refresh_cycle(&mut m, auth_for(20, 1800, None), 4_300_000);
    assert_eq!(stored.refresh_at, Some(4_300_000 + 1_800_000 - 300_000));

    let evicted = failed_refresh_evicts(&mut m);
    assert_eq!(evicted.0, 20);
    assert!(!m.contains(&AccountId(20)));

    m.on_cancel();
    let rejected = cancelled_ingestion_changes_nothing(&mut m, auth_for(21, 3600, None), 5);
    assert!(matches!(rejected, NewAuthOutcome::Rejected));
    assert!(!m.contains(&AccountId(21)));
}
