use dt_fetcher::auth::Auth;
use dt_fetcher::codec::{decode_auth, encode_auth};
use dt_fetcher::ids::AccountId;

fn sample(refresh_at: Option<i64>) -> Auth {
    Auth {
        access_token: String::from("access-token-xyz"),
        account_name: String::from("nameful"),
        expires_in: 3600,
        refresh_at,
        refresh_token: String::from("refresh-token-abc"),
        sub: AccountId(42),
    }
}

fn assert_same(a: &Auth, b: &Auth) {
    assert_eq!(a.access_token, b.access_token);
    assert_eq!(a.account_name, b.account_name);
    assert_eq!(a.expires_in, b.expires_in);
    assert_eq!(a.refresh_at, b.refresh_at);
    assert_eq!(a.refresh_token, b.refresh_token);
    assert_eq!(a.sub.0, b.sub.0);
}

#[test]
fn round_trip_with_deadline() {
    let auth = sample(Some(1_700_000_000_000));
    let bytes = encode_auth(&auth);
    let back = decode_auth(&bytes).expect("decodes");
    assert_same(&auth, &back);
}

#[test]
fn round_trip_without_deadline() {
    let auth = sample(None);
    let bytes = encode_auth(&auth);
    let back = decode_auth(&bytes).expect("decodes");
    assert_same(&auth, &back);
}

#[test]
fn round_trip_negative_deadline() {
    let auth = sample(Some(-250_000));
    let bytes = encode_auth(&auth);
    let back = decode_auth(&bytes).expect("decodes");
    assert_same(&auth, &back);
}

#[test]
fn round_trip_empty_strings() {
    let auth = Auth {
        access_token: String::new(),
        account_name: String::new(),
        expires_in: 0,
        refresh_at: None,
        refresh_token: String::new(),
        sub: AccountId(u128::MAX),
    };
    let bytes = encode_auth(&auth);
    let back = decode_auth(&bytes).expect("decodes");
    assert_same(&auth, &back);
}

#[test]
fn encode_layout_prefix() {
    let auth = sample(None);
    let bytes = encode_auth(&auth);
    assert_eq!(&bytes[0..16], &42u128.to_le_bytes());
    assert_eq!(&bytes[16..24], &3600u64.to_le_bytes());
    assert_eq!(bytes[24], 0);
}

#[test]
fn decode_rejects_truncation() {
    let auth = sample(Some(1_700_000_000_000));
    let bytes = encode_auth(&auth);
    assert!(decode_auth(&[]).is_none());
    assert!(decode_auth(&bytes[..10]).is_none());
    assert!(decode_auth(&bytes[..bytes.len() - 1]).is_none());
}

#[test]
fn decode_rejects_trailing_bytes() {
    let auth = sample(None);
    let mut bytes = encode_auth(&auth);
    bytes.push(0);
    assert!(decode_auth(&bytes).is_none());
}

#[test]
fn decode_rejects_bad_deadline_flag() {
    let auth = sample(None);
    let mut bytes = encode_auth(&auth);
    bytes[24] = 7;
    assert!(decode_auth(&bytes).is_none());
}

#[test]
fn decode_rejects_oversized_validity() {
    let auth = sample(None);
    let mut bytes = encode_auth(&auth);
    // validity period far above the well-formed bound
    bytes[16..24].copy_from_slice(&u64::MAX.to_le_bytes());
    assert!(decode_auth(&bytes).is_none());
}

#[test]
fn decode_rejects_invalid_utf8() {
    let auth = sample(None);
    let mut bytes = encode_auth(&auth);
    // first byte of the access token, which starts after the 33-byte
    // header and the 8-byte length field
    bytes[41] = 0xff;
    assert!(decode_auth(&bytes).is_none());
}
