//! Tests of the grant/token lifecycle engine: issuance, one-time exchange,
//! validation with expiry enforcement, and the error kinds.

use oauth_core::db::get_auth_grant_db;
use oauth_core::db::get_token_db;
use oauth_core::oauth::check_token;
use oauth_core::oauth::exchange_auth_grant;
use oauth_core::oauth::generate_auth_grant;
use oauth_core::oauth::AuthError;
use oauth_core::oauth::AUTH_CODE_LIFETIME;
use oauth_core::oauth::TOKEN_LIFETIME;

#[test]
fn issue_grant_carries_fields_and_expiry() {
    let mut grant_db = get_auth_grant_db();
    let grant = generate_auth_grant(
        &mut grant_db,
        "client-7".to_string(),
        "https://example.test/cb".to_string(),
        "code-abc".to_string(),
        100,
    )
    .unwrap();
    assert_eq!(grant.code, "code-abc");
    assert_eq!(grant.client_id, "client-7");
    assert_eq!(grant.redirect_uri, "https://example.test/cb");
    assert_eq!(AUTH_CODE_LIFETIME, 900);
    assert_eq!(grant.expires_at, "1000");
}

#[test]
fn issued_code_exchanges_exactly_once() {
    let mut grant_db = get_auth_grant_db();
    let mut token_db = get_token_db();
    generate_auth_grant(
        &mut grant_db,
        "c".to_string(),
        "u".to_string(),
        "one-shot".to_string(),
        0,
    )
    .unwrap();
    let first = exchange_auth_grant(
        &mut grant_db,
        &mut token_db,
        "one-shot".to_string(),
        "tok-1".to_string(),
        5,
    );
    assert!(first.is_ok());
    let second = exchange_auth_grant(
        &mut grant_db,
        &mut token_db,
        "one-shot".to_string(),
        "tok-2".to_string(),
        6,
    );
    assert!(matches!(second, Err(AuthError::NoAuthGrantFound)));
}

#[test]
fn token_round_trip_until_expiry_then_purged() {
    let mut grant_db = get_auth_grant_db();
    let mut token_db = get_token_db();
    generate_auth_grant(
        &mut grant_db,
        "c".to_string(),
        "u".to_string(),
        "code-rt".to_string(),
        0,
    )
    .unwrap();
    let access = exchange_auth_grant(
        &mut grant_db,
        &mut token_db,
        "code-rt".to_string(),
        "tok-rt".to_string(),
        0,
    )
    .unwrap();
    assert_eq!(access.expires_at, TOKEN_LIFETIME);

    // valid until the expiry instant, for repeat use
    let ok = check_token(&mut token_db, "tok-rt".to_string(), access.expires_at - 1);
    assert_eq!(ok.unwrap(), "tok-rt");
    let again = check_token(&mut token_db, "tok-rt".to_string(), access.expires_at - 1);
    assert!(again.is_ok());

    // at the expiry instant: rejected and purged
    let expired = check_token(&mut token_db, "tok-rt".to_string(), access.expires_at);
    assert!(matches!(expired, Err(AuthError::AccessTokenExpired)));

    // purged: a further check finds no record at all
    let gone = check_token(&mut token_db, "tok-rt".to_string(), access.expires_at);
    assert!(matches!(gone, Err(AuthError::NoAccessTokenFound)));
}

#[test]
fn token_store_never_holds_plaintext() {
    let mut grant_db = get_auth_grant_db();
    let mut token_db = get_token_db();
    generate_auth_grant(
        &mut grant_db,
        "c".to_string(),
        "u".to_string(),
        "code-p".to_string(),
        0,
    )
    .unwrap();
    let access = exchange_auth_grant(
        &mut grant_db,
        &mut token_db,
        "code-p".to_string(),
        "tok-secret".to_string(),
        0,
    )
    .unwrap();
    // the store has no entry under the plaintext: only under its hash
    assert!(token_db.get(access.token.clone()).is_none());
    let key = oauth_core::hash(access.token.clone()).unwrap();
    assert_ne!(key, access.token);
    assert!(token_db.get(key).is_some());
}

#[test]
fn contended_exchange_has_one_winner() {
    // store operations serialize, so contending exchanges of one code run
    // as consecutive attempts: exactly one succeeds
    let mut grant_db = get_auth_grant_db();
    let mut token_db = get_token_db();
    generate_auth_grant(
        &mut grant_db,
        "c".to_string(),
        "u".to_string(),
        "contested".to_string(),
        0,
    )
    .unwrap();
    let mut successes = 0;
    let mut not_found = 0;
    for i in 0..5 {
        let r = exchange_auth_grant(
            &mut grant_db,
            &mut token_db,
            "contested".to_string(),
            format!("tok-{i}"),
            1,
        );
        match r {
            Ok(_) => successes += 1,
            Err(AuthError::NoAuthGrantFound) => not_found += 1,
            Err(e) => panic!("unexpected error: {e:?}"),
        }
    }
    assert_eq!(successes, 1);
    assert_eq!(not_found, 4);
}

#[test]
fn acme_scenario() {
    let mut grant_db = get_auth_grant_db();
    let mut token_db = get_token_db();
    let now = 1_700_000_000;
    let grant = generate_auth_grant(
        &mut grant_db,
        "acme".to_string(),
        "https://acme.test/cb".to_string(),
        "acme-code-1".to_string(),
        now,
    )
    .unwrap();
    assert!(!grant.code.is_empty());

    let access = exchange_auth_grant(
        &mut grant_db,
        &mut token_db,
        grant.code.clone(),
        "acme-token-1".to_string(),
        now,
    )
    .unwrap();
    assert_eq!(access.expires_at, now + 86400);

    let valid = check_token(&mut token_db, access.token.clone(), now + 1);
    assert!(valid.is_ok());

    let unrelated = check_token(&mut token_db, "definitely not a token".to_string(), now + 1);
    assert!(matches!(unrelated, Err(AuthError::NoAccessTokenFound)));
}

#[test]
fn unknown_code_is_rejected() {
    let mut grant_db = get_auth_grant_db();
    let mut token_db = get_token_db();
    let r = exchange_auth_grant(
        &mut grant_db,
        &mut token_db,
        "ghost".to_string(),
        "tok-g".to_string(),
        0,
    );
    assert!(matches!(r, Err(AuthError::NoAuthGrantFound)));
}

#[test]
fn expiry_overflow_fails_without_side_effects() {
    let mut grant_db = get_auth_grant_db();
    let mut token_db = get_token_db();

    // issuing at the end of time: the grant expiry cannot be computed
    let r = generate_auth_grant(
        &mut grant_db,
        "c".to_string(),
        "u".to_string(),
        "code-late".to_string(),
        i64::MAX,
    );
    assert!(matches!(r, Err(AuthError::InternalError)));

    // a pending grant survives an exchange whose token expiry overflows
    generate_auth_grant(
        &mut grant_db,
        "c".to_string(),
        "u".to_string(),
        "code-kept".to_string(),
        0,
    )
    .unwrap();
    let r = exchange_auth_grant(
        &mut grant_db,
        &mut token_db,
        "code-kept".to_string(),
        "tok-k".to_string(),
        i64::MAX - 1,
    );
    assert!(matches!(r, Err(AuthError::InternalError)));
    let r = exchange_auth_grant(
        &mut grant_db,
        &mut token_db,
        "code-kept".to_string(),
        "tok-k".to_string(),
        7,
    );
    assert!(r.is_ok());
}
