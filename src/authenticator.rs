//! The request authenticator: from the values of the authentication header to the user that
//! the request acts for, or the reason it is refused.
use vstd::prelude::*;
use crate::store::{Store, StoreView};
use crate::token::{read_outcome, validate_token, validate_token_at, validation_outcome, ApiKey, Extras};
use crate::user::{User, UserView};

verus! {

/// Why a request was not authenticated. All four are answered with the same unauthorized
/// status; they differ only for the operator.
#[derive(Debug, Clone, Copy, PartialEq, Eq, Structural)]
pub enum ApiKeyError {
    /// More than one authentication header value.
    BadCount,
    /// No authentication header value.
    Missing,
    /// The token does not parse, its signature fails, or it has expired.
    Invalid,
    /// The token is valid but its user no longer exists.
    Broken,
}

pub open spec fn header_views(keys: Seq<String>) -> Seq<Seq<char>> {
    keys.map_values(|s: String| s@)
}

/// The key that the header values give at time `now`.
pub open spec fn key_outcome(keys: Seq<Seq<char>>, secret: Seq<char>, now: u64) -> Result<
    ApiKey,
    ApiKeyError,
> {
    if keys.len() == 0 {
        Err(ApiKeyError::Missing)
    } else if keys.len() > 1 {
        Err(ApiKeyError::BadCount)
    } else {
        match validation_outcome(keys[0], secret, now) {
            Ok(k) => Ok(k),
            Err(_) => Err(ApiKeyError::Invalid),
        }
    }
}

/// The user that a key resolves to in `store`.
pub open spec fn identity_outcome(store: StoreView, key: Result<ApiKey, ApiKeyError>) -> Result<
    UserView,
    ApiKeyError,
> {
    match key {
        Err(e) => Err(e),
        Ok(k) => if store.has_user(k.sub) {
            Ok(store.user(k.sub))
        } else {
            Err(ApiKeyError::Broken)
        },
    }
}

pub open spec fn user_result_view(r: Result<User, ApiKeyError>) -> Result<UserView, ApiKeyError> {
    match r {
        Ok(u) => Ok(u@),
        Err(e) => Err(e),
    }
}

/// Reads the key from the authentication header values at time `now`: none is `Missing`,
/// several are `BadCount`, and one that does not validate is `Invalid`.
pub fn api_key_from_request_at(keys: &Vec<String>, extra: &Extras, now: u64) -> (r: Result<
    ApiKey,
    ApiKeyError,
>)
    ensures
        r == key_outcome(header_views(keys@), extra.jwt_key@, now),
{
    if keys.len() == 0 {
        return Err(ApiKeyError::Missing);
    }
    if keys.len() > 1 {
        return Err(ApiKeyError::BadCount);
    }
    match validate_token_at(keys[0].as_str(), &extra.jwt_key, now) {
        Ok(k) => Ok(k),
        Err(_) => Err(ApiKeyError::Invalid),
    }
}

/// Reads the key from the authentication header values by the system clock.
pub fn api_key_from_request(keys: &Vec<String>, extra: &Extras) -> (r: Result<ApiKey, ApiKeyError>)
    ensures
        keys@.len() == 0 ==> r == Err::<ApiKey, ApiKeyError>(ApiKeyError::Missing),
        keys@.len() > 1 ==> r == Err::<ApiKey, ApiKeyError>(ApiKeyError::BadCount),
        keys@.len() == 1 && read_outcome(keys@[0]@, extra.jwt_key@) is Err ==> r == Err::<
            ApiKey,
            ApiKeyError,
        >(ApiKeyError::Invalid),
        keys@.len() == 1 ==> r is Ok || r == Err::<ApiKey, ApiKeyError>(ApiKeyError::Invalid),
        r is Ok ==> keys@.len() == 1 && read_outcome(keys@[0]@, extra.jwt_key@) == Ok::<
            ApiKey,
            crate::token::TokenError,
        >(r->Ok_0),
{
    if keys.len() == 0 {
        return Err(ApiKeyError::Missing);
    }
    if keys.len() > 1 {
        return Err(ApiKeyError::BadCount);
    }
    match validate_token(keys[0].as_str(), &extra.jwt_key) {
        Ok(k) => Ok(k),
        Err(_) => Err(ApiKeyError::Invalid),
    }
}

/// Resolves a key to its user; a key whose user no longer exists is `Broken`, and a refusal
/// of the key is passed on.
pub fn user_from_key(store: &Store, key: Result<ApiKey, ApiKeyError>) -> (r: Result<User, ApiKeyError>)
    requires
        store@.wf(),
    ensures
        user_result_view(r) == identity_outcome(store@, key),
{
    match key {
        Err(e) => Err(e),
        Ok(k) => match store.read_user(k.sub) {
            Some(u) => Ok(u),
            None => Err(ApiKeyError::Broken),
        },
    }
}

/// Authenticates a request from its authentication header values at time `now`.
pub fn authenticate_at(store: &Store, keys: &Vec<String>, extra: &Extras, now: u64) -> (r: Result<
    User,
    ApiKeyError,
>)
    requires
        store@.wf(),
    ensures
        user_result_view(r) == identity_outcome(
            store@,
            key_outcome(header_views(keys@), extra.jwt_key@, now),
        ),
{
    let key = api_key_from_request_at(keys, extra, now);
    user_from_key(store, key)
}

/// Authenticates a request from its authentication header values by the system clock.
pub fn authenticate(store: &Store, keys: &Vec<String>, extra: &Extras) -> (r: Result<User, ApiKeyError>)
    requires
        store@.wf(),
    ensures
        keys@.len() == 0 ==> r == Err::<User, ApiKeyError>(ApiKeyError::Missing),
        keys@.len() > 1 ==> r == Err::<User, ApiKeyError>(ApiKeyError::BadCount),
        keys@.len() == 1 && read_outcome(keys@[0]@, extra.jwt_key@) is Err ==> r == Err::<
            User,
            ApiKeyError,
        >(ApiKeyError::Invalid),
        r is Ok ==> keys@.len() == 1 && read_outcome(keys@[0]@, extra.jwt_key@) is Ok
            && r->Ok_0.id == read_outcome(keys@[0]@, extra.jwt_key@)->Ok_0.sub && store@.has_user(
            r->Ok_0.id,
        ),        keys@.len() == 1 && read_outcome(keys@[0]@, extra.jwt_key@) is Ok && store@.has_user(
            read_outcome(keys@[0]@, extra.jwt_key@)->Ok_0.sub,
        ) ==> r is Ok || r == Err::<User, ApiKeyError>(ApiKeyError::Invalid),
        keys@.len() == 1 && read_outcome(keys@[0]@, extra.jwt_key@) is Ok && !store@.has_user(
            read_outcome(keys@[0]@, extra.jwt_key@)->Ok_0.sub,
        ) ==> r is Err,
{
    let key = api_key_from_request(keys, extra);
    let r = user_from_key(store, key);
    proof {
        if r is Ok {
            let k = key->Ok_0;
            let i = choose|i: int| 0 <= i < store@.users.len() && #[trigger] store@.users[i].id == k.sub;
            assert(store@.user(k.sub).id == k.sub);
        }
    }
    r
}

} // verus!
