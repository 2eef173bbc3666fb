//! The grant/token lifecycle engine: issuance of short-lived authorization
//! grants, one-time exchange of a grant for an access token, and validation
//! of presented tokens against their expiry.
//!
//! The engine performs no I/O of its own: the caller supplies the current
//! time and the freshly generated unguessable identifiers, and passes the
//! two stores in explicitly; the contracts say exactly how each operation
//! reads and rewrites the stores' views.

use vstd::prelude::*;

verus! {

use crate::db::DummyDB;
use crate::db::TokenHash;
use crate::decimal::i64_dec_seq;
use crate::decimal::i64_to_dec_string;
use crate::hash::hash;
use crate::hash::token_hash_seq;
use crate::hash::HashErr;

/// The time in seconds after which an auth grant expires, counted from the
/// time of grant generation: 15 minutes.
pub const AUTH_CODE_LIFETIME: i64 = 900;

/// The time in seconds after which an access token expires: 24 hours.
pub const TOKEN_LIFETIME: i64 = 86400;

/// A single pending authorization: the one-time code together with the
/// client data it was issued for and its absolute expiry time.
#[derive(Debug, Clone)]
pub struct AuthGrant {
    pub code: String,
    pub client_id: String,
    pub redirect_uri: String,
    /// Absolute expiry timestamp (seconds since epoch), rendered in decimal.
    pub expires_at: String,
}

/// The error kinds of the lifecycle engine.
#[derive(Debug)]
pub enum AuthError {
    /// A store could not be accessed.
    DatabaseError,
    /// Computing an expiry time overflowed the time representation.
    InternalError,
    /// The presented grant code is absent: never issued, already exchanged,
    /// or expired and purged.
    NoAuthGrantFound,
    /// The presented token's hash is absent from the token store.
    NoAccessTokenFound,
    /// The presented token was found but is past its expiry.
    AccessTokenExpired,
}

/// An issued access token, returned to the caller and never stored: the
/// plaintext is shown exactly once.
#[derive(Debug, Clone)]
pub struct AccessToken {
    pub token: String,
    pub expires_at: i64,
}

/// Generate an `AuthGrant` that expires `AUTH_CODE_LIFETIME` seconds after
/// `now`, and record it in the grant store under its code.
///
/// The caller supplies the current time `now` and a freshly generated
/// unguessable `code`; `client_id` and `redirect_uri` are carried through
/// unchanged and not validated here. The one failure is an overflow of the
/// expiry computation; a failed call leaves the store untouched.
pub fn generate_auth_grant(
    db: &mut DummyDB<AuthGrant>,
    client_id: String,
    redirect_uri: String,
    code: String,
    now: i64,
) -> (r: Result<AuthGrant, AuthError>)
    requires
        old(db).wf(),
    ensures
        final(db).wf(),
        now + AUTH_CODE_LIFETIME > i64::MAX ==> (r matches Err(AuthError::InternalError)
            && final(db)@ == old(db)@),
        now + AUTH_CODE_LIFETIME <= i64::MAX ==> (r matches Ok(g) && g.code@ == code@
            && g.client_id@ == client_id@ && g.redirect_uri@ == redirect_uri@ && g.expires_at@
            == i64_dec_seq(now + AUTH_CODE_LIFETIME) && final(db)@ == old(db)@.insert(code@, g)),
{
    if now > i64::MAX - AUTH_CODE_LIFETIME {
        return Err(AuthError::InternalError);
    }
    let expires_at = i64_to_dec_string(now + AUTH_CODE_LIFETIME);
    let grant = AuthGrant {
        code: code.clone(),
        client_id: client_id.clone(),
        redirect_uri: redirect_uri.clone(),
        expires_at: expires_at.clone(),
    };
    let stored = AuthGrant { code: code.clone(), client_id, redirect_uri, expires_at };
    proof {
        assert(stored == grant);
    }
    // save the grant to the db
    db.insert(code, stored);
    Ok(grant)
}

/// Wrap a freshly generated plaintext into an `AccessToken` that expires
/// `TOKEN_LIFETIME` seconds after `now`.
fn generate_token(token: String, now: i64) -> (r: Result<AccessToken, AuthError>)
    ensures
        now + TOKEN_LIFETIME > i64::MAX ==> (r matches Err(AuthError::InternalError)),
        now + TOKEN_LIFETIME <= i64::MAX ==> (r matches Ok(t) && t.token == token && t.expires_at
            == now + TOKEN_LIFETIME),
{
    if now > i64::MAX - TOKEN_LIFETIME {
        return Err(AuthError::InternalError);
    }
    Ok(AccessToken { token, expires_at: now + TOKEN_LIFETIME })
}

/// The grant-store side of one exchange attempt: a pending code is consumed
/// and the attempt succeeds; an absent code leaves the store unchanged and
/// the attempt fails. `exchange_auth_grant` ensures exactly this behaviour
/// on its grant store.
pub open spec fn exchange_step(grants: Map<Seq<char>, AuthGrant>, code: Seq<char>) -> (
    Map<Seq<char>, AuthGrant>,
    bool,
) {
    if grants.contains_key(code) {
        (grants.remove(code), true)
    } else {
        (grants, false)
    }
}

/// Exchange an auth grant code for an access token.
///
/// The grant is consumed: a successful exchange removes it from the grant
/// store, atomically with respect to other operations on that store, and
/// records the new token's metadata in the token store under the token's
/// hash — never under the plaintext. The caller supplies the current time
/// `now` and a freshly generated unguessable plaintext `token`. A failed
/// call leaves both stores untouched.
///
/// Grant expiry is enforced lazily, by absence alone: exchange does not
/// re-check the grant's `expires_at`, so a grant that outlived its expiry
/// without being purged is still exchangeable. The only rejections are an
/// absent code and an overflowing token-expiry computation.
pub fn exchange_auth_grant(
    auth_grant_db: &mut DummyDB<AuthGrant>,
    token_db: &mut DummyDB<TokenHash>,
    code: String,
    token: String,
    now: i64,
) -> (r: Result<AccessToken, AuthError>)
    requires
        old(auth_grant_db).wf(),
        old(token_db).wf(),
    ensures
        final(auth_grant_db).wf(),
        final(token_db).wf(),
        !old(auth_grant_db)@.contains_key(code@) ==> (r matches Err(AuthError::NoAuthGrantFound)
            && final(auth_grant_db)@ == old(auth_grant_db)@ && final(token_db)@ == old(token_db)@),
        old(auth_grant_db)@.contains_key(code@) && now + TOKEN_LIFETIME > i64::MAX ==> (r matches
        Err(AuthError::InternalError) && final(auth_grant_db)@ == old(auth_grant_db)@
            && final(token_db)@ == old(token_db)@),
        old(auth_grant_db)@.contains_key(code@) && now + TOKEN_LIFETIME <= i64::MAX ==> (r matches
        Ok(t) && t.token@ == token@ && t.expires_at == now + TOKEN_LIFETIME
            && final(auth_grant_db)@ == old(auth_grant_db)@.remove(code@) && final(token_db)@
            == old(token_db)@.insert(
            token_hash_seq(token@),
            (TokenHash { expires_at: (now + TOKEN_LIFETIME) as i64 }),
        )),
        now + TOKEN_LIFETIME <= i64::MAX ==> final(auth_grant_db)@ == exchange_step(
            old(auth_grant_db)@,
            code@,
        ).0 && ((r matches Ok(t)) <==> exchange_step(old(auth_grant_db)@, code@).1),
{
    // look the grant up before touching anything, so that a failure of the
    // expiry computation leaves both stores as they were
    if auth_grant_db.get(code.clone()).is_none() {
        return Err(AuthError::NoAuthGrantFound);
    }
    let access = match generate_token(token, now) {
        Ok(t) => t,
        Err(e) => {
            return Err(e);
        },
    };
    let _grant = auth_grant_db.remove(code);
    let token_hash = hash(access.token.clone())?;
    token_db.insert(token_hash, TokenHash { expires_at: access.expires_at });
    Ok(access)
}

/// Validate a presented token against the token store.
///
/// The presented plaintext is hashed and the hash is looked up. A token
/// that is found and not yet past its expiry is accepted, and the store is
/// left unchanged, so the token stays valid for repeat use until expiry. A
/// token found past its expiry is rejected and its record is purged, so the
/// store does not grow without bound with dead tokens.
pub fn check_token(token_db: &mut DummyDB<TokenHash>, token: String, now: i64) -> (r: Result<
    String,
    AuthError,
>)
    requires
        old(token_db).wf(),
    ensures
        final(token_db).wf(),
        !old(token_db)@.contains_key(token_hash_seq(token@)) ==> (r matches Err(
            AuthError::NoAccessTokenFound,
        ) && final(token_db)@ == old(token_db)@),
        old(token_db)@.contains_key(token_hash_seq(token@)) && old(token_db)@[token_hash_seq(
            token@,
        )].expires_at > now ==> (r matches Ok(t) && t@ == token@ && final(token_db)@ == old(
            token_db,
        )@),
        old(token_db)@.contains_key(token_hash_seq(token@)) && old(token_db)@[token_hash_seq(
            token@,
        )].expires_at <= now ==> (r matches Err(AuthError::AccessTokenExpired) && final(token_db)@
            == old(token_db)@.remove(token_hash_seq(token@))),
{
    let token_hash = hash(token.clone())?;
    let expires_at: i64 = match token_db.get(token_hash.clone()) {
        Some(t) => t.expires_at,
        None => {
            return Err(AuthError::NoAccessTokenFound);
        },
    };
    if expires_at > now {
        return Ok(token);
    }
    // remove the token once it is expired, so only live records remain
    let _record = token_db.remove(token_hash);
    Err(AuthError::AccessTokenExpired)
}

/// Single use: a grant freshly recorded under `code` is pending in the
/// grant store, so the first `exchange_auth_grant` of that code finds it and
/// succeeds; the exchange removes the grant, so a second exchange of the
/// same code finds nothing and fails with `NoAuthGrantFound`. A grant is
/// exchanged exactly once.
pub proof fn lemma_grant_exchanged_exactly_once(
    grants: Map<Seq<char>, AuthGrant>,
    code: Seq<char>,
    g: AuthGrant,
)
    ensures
        grants.insert(code, g).contains_key(code),
        !grants.insert(code, g).remove(code).contains_key(code),
{
}

/// How many of `n` consecutive exchange attempts of the same code succeed,
/// starting from the given grant store.
pub open spec fn exchange_successes(
    grants: Map<Seq<char>, AuthGrant>,
    code: Seq<char>,
    n: nat,
) -> nat
    decreases n,
{
    if n == 0 {
        0
    } else {
        let step = exchange_step(grants, code);
        (if step.1 {
            1nat
        } else {
            0nat
        }) + exchange_successes(step.0, code, (n - 1) as nat)
    }
}

/// An absent code stays absent: every exchange attempt of it fails and
/// leaves the grant store unchanged.
proof fn lemma_absent_code_never_succeeds(
    grants: Map<Seq<char>, AuthGrant>,
    code: Seq<char>,
    n: nat,
)
    requires
        !grants.contains_key(code),
    ensures
        exchange_successes(grants, code, n) == 0,
    decreases n,
{
    if n > 0 {
        lemma_absent_code_never_succeeds(grants, code, (n - 1) as nat);
    }
}

/// One winner under contention: operations on the grant store serialize, so
/// `n` concurrent exchanges of one freshly issued code run as `n`
/// consecutive attempts in some order; exactly one of them — the first —
/// succeeds, and the other `n - 1` fail with `NoAuthGrantFound`.
pub proof fn lemma_concurrent_exchange_single_winner(
    grants: Map<Seq<char>, AuthGrant>,
    code: Seq<char>,
    g: AuthGrant,
    n: nat,
)
    requires
        n >= 1,
    ensures
        exchange_successes(grants.insert(code, g), code, n) == 1,
{
    let issued = grants.insert(code, g);
    assert(exchange_step(issued, code).1);
    lemma_absent_code_never_succeeds(issued.remove(code), code, (n - 1) as nat);
}

/// Round trip: exchanging a grant at time `issued_at` stores the new
/// token's record under the token's hash key with expiry `issued_at +
/// TOKEN_LIFETIME`. `check_token` at any instant before that expiry finds
/// the record unexpired and accepts; at or after the expiry it rejects with
/// `AccessTokenExpired` and purges the record, after which a further
/// `check_token` finds no record at all and fails with
/// `NoAccessTokenFound`.
pub proof fn lemma_token_round_trip(
    tokens: Map<Seq<char>, TokenHash>,
    token: Seq<char>,
    issued_at: i64,
    now: i64,
)
    requires
        issued_at + TOKEN_LIFETIME <= i64::MAX,
    ensures
        ({
            let key = token_hash_seq(token);
            let stored = tokens.insert(
                key,
                (TokenHash { expires_at: (issued_at + TOKEN_LIFETIME) as i64 }),
            );
            &&& stored.contains_key(key)
            &&& now < issued_at + TOKEN_LIFETIME ==> stored[key].expires_at > now
            &&& now >= issued_at + TOKEN_LIFETIME ==> stored[key].expires_at <= now
            &&& !stored.remove(key).contains_key(key)
        }),
{
}

/// Hash privacy at the token store: the record written by an exchange is
/// keyed by the token's hash, which differs from the plaintext for every
/// plaintext holding a character that is not a decimal digit; so a store
/// that did not hold the plaintext as a key before the exchange does not
/// hold it after.
pub proof fn lemma_exchange_stores_no_plaintext(
    tokens: Map<Seq<char>, TokenHash>,
    token: Seq<char>,
    record: TokenHash,
)
    requires
        !tokens.contains_key(token),
        exists|i: int| 0 <= i < token.len() && !crate::decimal::is_dec_digit(token[i]),
    ensures
        !tokens.insert(token_hash_seq(token), record).contains_key(token),
{
    crate::hash::lemma_hash_key_not_plaintext(token);
}

impl From<HashErr> for AuthError {
    fn from(_e: HashErr) -> (r: AuthError) {
        AuthError::InternalError
    }
}

impl vstd::std_specs::convert::FromSpecImpl<HashErr> for AuthError {
    open spec fn obeys_from_spec() -> bool {
        true
    }

    open spec fn from_spec(_e: HashErr) -> AuthError {
        AuthError::InternalError
    }
}

} // verus!
