use dt_fetcher::auth::{refresh_deadline, Auth, REFRESH_BUFFER_MS};
use dt_fetcher::ids::AccountId;

fn sample_auth() -> Auth {
    Auth {
        access_token: String::from("at1-SECRET-ACCESS"),
        account_name: String::from("player one"),
        expires_in: 3600,
        refresh_at: None,
        refresh_token: String::from("rt1-SECRET-REFRESH"),
        sub: AccountId(0x123e4567_e89b_12d3_a456_426614174000u128),
    }
}

#[test]
fn expired_when_no_deadline() {
    let auth = sample_auth();
    assert!(auth.expired(REFRESH_BUFFER_MS, 0));
    assert!(auth.expired(0, 1_000_000));
}

#[test]
fn expired_at_buffer_boundary() {
    let mut auth = sample_auth();
    let now = 10_000_000i64;
    auth.refresh_at = Some(now + REFRESH_BUFFER_MS);
    assert!(auth.expired(REFRESH_BUFFER_MS, now));
    auth.refresh_at = Some(now + REFRESH_BUFFER_MS + 1);
    assert!(!auth.expired(REFRESH_BUFFER_MS, now));
}

#[test]
fn expired_in_past() {
    let mut auth = sample_auth();
    auth.refresh_at = Some(5_000);
    assert!(auth.expired(REFRESH_BUFFER_MS, 10_000));
}

#[test]
fn refresh_deadline_formula() {
    // 1,000,000 ms + 3600 s * 1000 - 300,000 ms
    assert_eq!(refresh_deadline(1_000_000, 3600), 4_300_000);
    assert_eq!(refresh_deadline(0, 0), -300_000);
}

#[test]
fn well_formed_bounds() {
    let mut auth = sample_auth();
    assert!(auth.is_well_formed());
    auth.expires_in = 2_000_000_000;
    assert!(!auth.is_well_formed());
    auth.expires_in = 60;
    auth.refresh_at = Some(i64::MAX);
    assert!(!auth.is_well_formed());
}

#[test]
fn redacted_label_hides_tokens() {
    let auth = sample_auth();
    let label = auth.redacted_label();
    assert!(!label.contains("SECRET-ACCESS"));
    assert!(!label.contains("SECRET-REFRESH"));
    assert!(!label.contains(&auth.access_token));
    assert!(!label.contains(&auth.refresh_token));
    assert!(label.contains("player one"));
    assert!(label.contains("123e4567-e89b-12d3-a456-426614174000"));
    assert_eq!(label, "account 123e4567-e89b-12d3-a456-426614174000 (player one)");
}

#[test]
fn hyphenated_id_format() {
    let id = AccountId(0x123e4567_e89b_12d3_a456_426614174000u128);
    assert_eq!(id.hyphenated(), "123e4567-e89b-12d3-a456-426614174000");
    let zero = AccountId(0);
    assert_eq!(zero.hyphenated(), "00000000-0000-0000-0000-000000000000");
    let max = AccountId(u128::MAX);
    assert_eq!(max.hyphenated(), "ffffffff-ffff-ffff-ffff-ffffffffffff");
}
