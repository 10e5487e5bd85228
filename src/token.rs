//! Session tokens: compact HS256-signed claim sets that carry a user identifier (`sub`) and an
//! absolute expiry in Unix seconds (`exp`).
//!
//! Tokens are stateless and there is no revocation: a token whose signature holds is accepted
//! until its expiry, also after its user changed the password. Keep the lifetime short.
use vstd::prelude::*;
use hmac::{Hmac, Mac};
use jwt::{RegisteredClaims, SignWithKey, VerifyWithKey};
use sha2::Sha256;
use crate::decimal::{decimal_of, format_i64, i64_of_text, lemma_i64_of_decimal, parse_i64};
use crate::user::User;

verus! {

/// The identity and expiry read from a token whose signature holds.
#[derive(Debug, Clone, Copy, PartialEq, Eq, Structural)]
pub struct ApiKey {
    pub sub: i64,
    pub exp: u64,
}

/// Settings fixed at start-up: the signing secret and the lifetime of a token in seconds.
#[derive(Debug, Clone)]
pub struct Extras {
    pub jwt_key: String,
    pub jwt_exp: u64,
}

/// Why a token was not issued or not accepted.
#[derive(Debug, Clone, Copy, PartialEq, Eq, Structural)]
pub enum TokenError {
    /// Not a token, or its signature does not hold under the secret.
    Invalid,
    /// Signed, but without a subject.
    MissingSubject,
    /// Signed, but the subject is not the decimal text of a user identifier.
    BadSubject,
    /// Signed, but without an expiry.
    MissingExpiry,
    /// Signed and well-formed, but its expiry is not after the time of validation.
    Expired,
    /// The expiry would not fit in 64 bits.
    ExpiryOverflow,
    /// The signing library refused the claims; `issue_token_at` shows that it never does.
    Signing,
    /// The system clock reads before the Unix epoch.
    Clock,
}

/// The compact token that HS256 signing of the claims `sub` and `exp` under `key` produces.
pub uninterp spec fn hs256_token(subject: Seq<char>, expiration: u64, key: Seq<char>) -> Seq<char>;

/// The subject and expiry claims of `token` if it parses and its HS256 signature holds under
/// `key`; `None` otherwise.
pub uninterp spec fn hs256_claims(token: Seq<char>, key: Seq<char>) -> Option<
    (Option<Seq<char>>, Option<u64>),
>;

pub open spec fn opt_string_view(s: Option<String>) -> Option<Seq<char>> {
    match s {
        Some(x) => Some(x@),
        None => None,
    }
}

pub open spec fn claims_view(c: Option<(Option<String>, Option<u64>)>) -> Option<
    (Option<Seq<char>>, Option<u64>),
> {
    match c {
        Some((s, e)) => Some((opt_string_view(s), e)),
        None => None,
    }
}

/// Relies on `jwt::SignWithKey::sign_with_key` for `RegisteredClaims` under an `Hmac<Sha256>`
/// key: `Hmac::new_from_slice` accepts a key of any length, and signing builds the header from
/// the key's own algorithm, serializes fields that cannot fail and signs with `Ok`, so a token
/// always comes back. The token is a function of the claims and the key, and
/// `verify_with_key` under the same key gives back the same claims.
#[verifier::external_body]
fn sign_claims(subject: String, expiration: u64, key: &str) -> (r: Option<String>)
    ensures
        r is Some,
        r is Some ==> r->0@ == hs256_token(subject@, expiration, key@),
        r is Some ==> hs256_claims(r->0@, key@) == Some((Some(subject@), Some(expiration))),
{
    let k: Hmac<Sha256> = Hmac::new_from_slice(key.as_bytes()).ok()?;
    let claims = RegisteredClaims {
        subject: Some(subject),
        expiration: Some(expiration),
        ..Default::default()
    };
    claims.sign_with_key(&k).ok()
}

/// Relies on `jwt::VerifyWithKey::verify_with_key` into `RegisteredClaims` under an
/// `Hmac<Sha256>` key: it parses the three parts, checks the algorithm and the signature, and
/// returns the claims.
#[verifier::external_body]
fn verify_claims(token: &str, key: &str) -> (r: Option<(Option<String>, Option<u64>)>)
    ensures
        claims_view(r) == hs256_claims(token@, key@),
{
    let k: Hmac<Sha256> = Hmac::new_from_slice(key.as_bytes()).ok()?;
    let claims: RegisteredClaims = token.verify_with_key(&k).ok()?;
    Some((claims.subject, claims.expiration))
}

/// Relies on `std::time::SystemTime::now`, measured from `UNIX_EPOCH` in whole seconds; `None`
/// when the clock reads before the epoch.
#[verifier::external_body]
pub(crate) fn unix_time_now() -> (r: Option<u64>) {
    std::time::SystemTime::now().duration_since(std::time::UNIX_EPOCH).ok().map(|d| d.as_secs())
}

/// The user identifier that the subject text `s` stands for, read as `str::parse::<i64>`
/// reads it.
pub open spec fn subject_id(s: Seq<char>) -> Option<i64> {
    i64_of_text(s)
}

/// What the claims of a verified token make: a key, or the reason there is none.
pub open spec fn api_key_of(claims: Option<(Option<Seq<char>>, Option<u64>)>) -> Result<
    ApiKey,
    TokenError,
> {
    match claims {
        None => Err(TokenError::Invalid),
        Some((None, _)) => Err(TokenError::MissingSubject),
        Some((Some(s), e)) => match subject_id(s) {
            None => Err(TokenError::BadSubject),
            Some(id) => match e {
                None => Err(TokenError::MissingExpiry),
                Some(x) => Ok(ApiKey { sub: id, exp: x }),
            },
        },
    }
}

/// Reading `token` under `secret`, before its expiry is looked at.
pub open spec fn read_outcome(token: Seq<char>, secret: Seq<char>) -> Result<ApiKey, TokenError> {
    api_key_of(hs256_claims(token, secret))
}

/// Validating `token` under `secret` at time `now`: it must read, and `now` must be strictly
/// before its expiry.
pub open spec fn validation_outcome(token: Seq<char>, secret: Seq<char>, now: u64) -> Result<
    ApiKey,
    TokenError,
> {
    match read_outcome(token, secret) {
        Ok(k) => if now < k.exp {
            Ok(k)
        } else {
            Err(TokenError::Expired)
        },
        Err(e) => Err(e),
    }
}

proof fn lemma_subject_id(n: i64)
    ensures
        subject_id(decimal_of(n as int)) == Some(n),
{
    lemma_i64_of_decimal(n);
}

/// Turns the claims of a verified token into a key.
pub fn api_key_from_claims(subject: Option<String>, expiration: Option<u64>) -> (r: Result<
    ApiKey,
    TokenError,
>)
    ensures
        r == api_key_of(claims_view(Some((subject, expiration)))),
{
    let s = match subject {
        Some(s) => s,
        None => return Err(TokenError::MissingSubject),
    };
    let id = match parse_i64(s.as_str()) {
        Some(id) => id,
        None => return Err(TokenError::BadSubject),
    };
    match expiration {
        Some(exp) => Ok(ApiKey { sub: id, exp }),
        None => Err(TokenError::MissingExpiry),
    }
}

/// Parses `key` and checks its signature under `secret`; the expiry is not looked at.
pub fn read_token(key: &str, secret: &String) -> (r: Result<ApiKey, TokenError>)
    ensures
        r == read_outcome(key@, secret@),
{
    match verify_claims(key, secret.as_str()) {
        Some((subject, expiration)) => api_key_from_claims(subject, expiration),
        None => Err(TokenError::Invalid),
    }
}

/// Whether a key is still valid at time `now`: its expiry must be strictly later.
pub fn is_token_valid_at(key: &ApiKey, now: u64) -> (r: bool)
    ensures
        r == (now < key.exp),
{
    now < key.exp
}

/// Whether a key is still valid by the system clock. A clock that reads before the epoch makes
/// every key invalid.
pub fn is_token_valid(key: &ApiKey) -> (r: bool)
    ensures
        r ==> key.exp > 0,
{
    match unix_time_now() {
        Some(now) => is_token_valid_at(key, now),
        None => false,
    }
}

/// Validates a token under `secret` at time `now`: signature first, then expiry.
pub fn validate_token_at(token: &str, secret: &String, now: u64) -> (r: Result<ApiKey, TokenError>)
    ensures
        r == validation_outcome(token@, secret@, now),
{
    match read_token(token, secret) {
        Ok(k) => if is_token_valid_at(&k, now) {
            Ok(k)
        } else {
            Err(TokenError::Expired)
        },
        Err(e) => Err(e),
    }
}

/// Validates a token under `secret` by the system clock.
pub fn validate_token(token: &str, secret: &String) -> (r: Result<ApiKey, TokenError>)
    ensures
        r is Ok ==> read_outcome(token@, secret@) == r,
        read_outcome(token@, secret@) is Err ==> r == read_outcome(token@, secret@),
        read_outcome(token@, secret@) is Ok ==> r is Ok || r == Err::<ApiKey, TokenError>(
            TokenError::Expired,
        ) || r == Err::<ApiKey, TokenError>(TokenError::Clock),
{
    match unix_time_now() {
        Some(now) => validate_token_at(token, secret, now),
        None => match read_token(token, secret) {
            Ok(_) => Err(TokenError::Clock),
            Err(e) => Err(e),
        },
    }
}

/// Issues the token of user `user_id` at time `now`, expiring `ttl` seconds later. The token
/// reads back as that user and that expiry, so it validates at any time before the expiry.
pub fn issue_token_at(user_id: i64, ttl: u64, secret: &String, now: u64) -> (r: Result<
    String,
    TokenError,
>)
    ensures
        now + ttl > u64::MAX <==> r == Err::<String, TokenError>(TokenError::ExpiryOverflow),
        now + ttl <= u64::MAX ==> r is Ok,
        r is Ok ==> r->Ok_0@ == hs256_token(decimal_of(user_id as int), (now + ttl) as u64, secret@),
        r is Ok ==> read_outcome(r->Ok_0@, secret@) == Ok::<ApiKey, TokenError>(
            ApiKey { sub: user_id, exp: (now + ttl) as u64 },
        ),
        r is Ok && ttl > 0 ==> validation_outcome(r->Ok_0@, secret@, now) == Ok::<
            ApiKey,
            TokenError,
        >(ApiKey { sub: user_id, exp: (now + ttl) as u64 }),
{
    let exp = match now.checked_add(ttl) {
        Some(e) => e,
        None => return Err(TokenError::ExpiryOverflow),
    };
    let subject = format_i64(user_id);
    proof {
        lemma_subject_id(user_id);
    }
    match sign_claims(subject, exp, secret.as_str()) {
        Some(t) => Ok(t),
        None => Err(TokenError::Signing),
    }
}

/// Issues the session token of `user` by the system clock, with the configured lifetime.
pub fn create_token(user: &User, extra: &Extras) -> (r: Result<String, TokenError>)
    ensures
        r is Ok ==> exists|now: u64|
            now + extra.jwt_exp <= u64::MAX && r->Ok_0@ == #[trigger] hs256_token(
                decimal_of(user.id as int),
                (now + extra.jwt_exp) as u64,
                extra.jwt_key@,
            ),
        r is Err ==> r == Err::<String, TokenError>(TokenError::Clock) || r == Err::<
            String,
            TokenError,
        >(TokenError::ExpiryOverflow),
        r is Ok ==> read_outcome(r->Ok_0@, extra.jwt_key@) is Ok,
        r is Ok ==> read_outcome(r->Ok_0@, extra.jwt_key@)->Ok_0.sub == user.id,
{
    match unix_time_now() {
        Some(now) => issue_token_at(user.id, extra.jwt_exp, &extra.jwt_key, now),
        None => Err(TokenError::Clock),
    }
}

/// A token whose verified claims are the decimal text of `uid` and the expiry `exp` validates
/// as `uid` at any time before `exp`.
pub proof fn lemma_token_round_trip(token: Seq<char>, secret: Seq<char>, uid: i64, exp: u64, now: u64)
    requires
        hs256_claims(token, secret) == Some((Some(decimal_of(uid as int)), Some(exp))),
        now < exp,
    ensures
        validation_outcome(token, secret, now) == Ok::<ApiKey, TokenError>(
            ApiKey { sub: uid, exp },
        ),
{
    lemma_subject_id(uid);
}

/// A token issued at `issued_at` with lifetime `ttl` is refused as expired at any time from
/// `issued_at + ttl` on.
pub proof fn lemma_token_expires(
    token: Seq<char>,
    secret: Seq<char>,
    uid: i64,
    issued_at: u64,
    ttl: u64,
    now: u64,
)
    requires
        issued_at + ttl <= u64::MAX,
        read_outcome(token, secret) == Ok::<ApiKey, TokenError>(
            ApiKey { sub: uid, exp: (issued_at + ttl) as u64 },
        ),
        now >= issued_at + ttl,
    ensures
        validation_outcome(token, secret, now) == Err::<ApiKey, TokenError>(TokenError::Expired),
{
}

} // verus!
