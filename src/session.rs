//! Credential requests: registering a credential, logging in for a session token, and
//! reading, replacing or removing one's own credential.
use vstd::prelude::*;
use vstd::string::StringSliceAdditionalSpecFns;
use crate::credential::{
    create_auth, fresh_credential, login, login_outcome, mask, Auth, AuthView, CredentialError,
};
use crate::hasher::{CREDENTIAL_LEN, DEFAULT_ITERATION};
use crate::ownership::Status;
use crate::store::{Store, StoreError, StoreView};
use crate::token::{issue_token_at, read_outcome, unix_time_now, ApiKey, Extras, TokenError};

verus! {

/// The store after a successful login of user `id` at `now`.
pub open spec fn after_login(s: StoreView, id: i64, now: u64) -> StoreView {
    StoreView {
        credentials: s.credentials.update(
            s.credential_index(id),
            AuthView { last_login: Some(now), ..s.credential(id) },
        ),
        ..s
    }
}

/// The response status of a refused credential write: a missing user is `NotFound`, a taken
/// key or email is an ordinary `Conflict`.
pub fn store_error_status(e: StoreError) -> (r: Status)
    ensures
        e == StoreError::UnknownUser || e == StoreError::UnknownAccount ==> r == Status::NotFound,
        e == StoreError::DuplicateKey || e == StoreError::EmailTaken ==> r == Status::Conflict,
{
    match e {
        StoreError::UnknownUser => Status::NotFound,
        StoreError::UnknownAccount => Status::NotFound,
        StoreError::DuplicateKey => Status::Conflict,
        StoreError::EmailTaken => Status::Conflict,
    }
}

/// Logs in with `email` and `password` at time `now` and returns a session token. An unknown
/// email and a wrong password get the same `Unauthorized`; a damaged credential is an internal
/// error. On success the time of login is recorded and the token reads back as the user.
pub fn login_user_at(store: &mut Store, email: &str, password: &str, extra: &Extras, now: u64) -> (r:
    Result<String, Status>)
    requires
        old(store)@.wf(),
    ensures
        final(store)@.wf(),
        !old(store)@.email_taken(email@) ==> r == Err::<String, Status>(Status::Unauthorized)
            && final(store)@ == old(store)@,
        old(store)@.email_taken(email@) && login_outcome(
            old(store)@.credential_by_email(email@),
            password.spec_bytes(),
        ) == Err::<bool, CredentialError>(CredentialError::Corrupt) ==> r == Err::<String, Status>(
            Status::InternalServerError,
        ) && final(store)@ == old(store)@,
        old(store)@.email_taken(email@) && (login_outcome(
            old(store)@.credential_by_email(email@),
            password.spec_bytes(),
        ) == Err::<bool, CredentialError>(CredentialError::TooLong) || login_outcome(
            old(store)@.credential_by_email(email@),
            password.spec_bytes(),
        ) == Ok::<bool, CredentialError>(false)) ==> r == Err::<String, Status>(Status::Unauthorized)
            && final(store)@ == old(store)@,
        r is Ok ==> old(store)@.email_taken(email@) && login_outcome(
            old(store)@.credential_by_email(email@),
            password.spec_bytes(),
        ) == Ok::<bool, CredentialError>(true),
        old(store)@.email_taken(email@) && login_outcome(
            old(store)@.credential_by_email(email@),
            password.spec_bytes(),
        ) == Ok::<bool, CredentialError>(true) ==> final(store)@ == after_login(
            old(store)@,
            old(store)@.credential_by_email(email@).id,
            now,
        ) && (r is Err ==> r == Err::<String, Status>(Status::InternalServerError)),
        old(store)@.email_taken(email@) && login_outcome(
            old(store)@.credential_by_email(email@),
            password.spec_bytes(),
        ) == Ok::<bool, CredentialError>(true) && now + extra.jwt_exp <= u64::MAX ==> r is Ok,
        r is Ok ==> read_outcome(r->Ok_0@, extra.jwt_key@) == Ok::<ApiKey, TokenError>(
            ApiKey {
                sub: old(store)@.credential_by_email(email@).id,
                exp: (now + extra.jwt_exp) as u64,
            },
        ),
{
    let auth = match store.read_credential_by_email(email) {
        Some(a) => a,
        None => return Err(Status::Unauthorized),
    };
    proof {
        let s = store@;
        let i = choose|i: int|
            0 <= i < s.credentials.len() && #[trigger] s.credentials[i].email == email@;
        assert(s.credentials[i].id == auth.id);
        assert(s.has_credential(auth.id));
        assert(s.credential_index(auth.id) == i);
    }
    match login(&auth, password) {
        Err(CredentialError::Corrupt) => return Err(Status::InternalServerError),
        Err(CredentialError::TooLong) => return Err(Status::Unauthorized),
        Ok(false) => return Err(Status::Unauthorized),
        Ok(true) => {},
    }
    store.update_last_login(auth.id, now);
    match issue_token_at(auth.id, extra.jwt_exp, &extra.jwt_key, now) {
        Ok(t) => Ok(t),
        Err(_) => Err(Status::InternalServerError),
    }
}

/// Logs in by the system clock; see `login_user_at`.
pub fn login_user(store: &mut Store, email: &str, password: &str, extra: &Extras) -> (r: Result<
    String,
    Status,
>)
    requires
        old(store)@.wf(),
    ensures
        final(store)@.wf(),
        !old(store)@.email_taken(email@) ==> r is Err,
        r is Ok ==> old(store)@.email_taken(email@) && login_outcome(
            old(store)@.credential_by_email(email@),
            password.spec_bytes(),
        ) == Ok::<bool, CredentialError>(true),
        r is Ok ==> read_outcome(r->Ok_0@, extra.jwt_key@) is Ok && read_outcome(
            r->Ok_0@,
            extra.jwt_key@,
        )->Ok_0.sub == old(store)@.credential_by_email(email@).id,
        final(store)@ == old(store)@ || exists|now: u64|
            final(store)@ == #[trigger] after_login(
                old(store)@,
                old(store)@.credential_by_email(email@).id,
                now,
            ),
{
    match unix_time_now() {
        Some(now) => {
            let r = login_user_at(store, email, password, extra, now);
            proof {
                if store@ != old(store)@ {
                    assert(store@ == after_login(
                        old(store)@,
                        old(store)@.credential_by_email(email@).id,
                        now,
                    ));
                }
            }
            r
        },
        None => Err(Status::InternalServerError),
    }
}

/// Registers the credential of user `id_user` with a fresh salt and the default count. A
/// missing user is `NotFound`; a credential of that user or of that email that already exists
/// is an ordinary `Conflict`. Only when the credential cannot be made (the random source
/// failed, or the password is too long to hash) is the answer an internal error.
pub fn register_credential(store: &mut Store, id_user: i64, email: &str, password: &str) -> (r:
    Result<Status, Status>)
    requires
        old(store)@.wf(),
    ensures
        final(store)@.wf(),
        r is Err ==> final(store)@ == old(store)@,
        !old(store)@.has_user(id_user) ==> r == Err::<Status, Status>(Status::NotFound),
        old(store)@.has_user(id_user) && (old(store)@.has_credential(id_user) || old(store)@.email_taken(email@)) ==> r == Err::<Status, Status>(Status::Conflict),
        r is Err ==> r == Err::<Status, Status>(Status::NotFound) || r == Err::<Status, Status>(
            Status::Conflict,
        ) || r == Err::<Status, Status>(Status::InternalServerError),
        old(store)@.has_user(id_user) && !old(store)@.has_credential(id_user) && !old(store)@.email_taken(email@) ==> r is Ok || r == Err::<Status, Status>(
            Status::InternalServerError,
        ),
        r is Ok ==> r == Ok::<Status, Status>(Status::NoContent),
        r is Ok ==> exists|a: AuthView, salt: Seq<u8>|
            salt.len() == CREDENTIAL_LEN && #[trigger] fresh_credential(
                a,
                email@,
                password.spec_bytes(),
                DEFAULT_ITERATION as int,
                id_user,
                salt,
            ) && final(store)@ == old(store)@.with_credential(a),
        r is Ok ==> final(store)@.has_credential(id_user) && login_outcome(
            final(store)@.credential(id_user),
            password.spec_bytes(),
        ) == Ok::<bool, CredentialError>(true) && final(store)@.credential(id_user).email
            == email@,
{
    if store.read_user(id_user).is_none() {
        return Err(Status::NotFound);
    }
    if store.read_credential(id_user).is_some() || store.read_credential_by_email(email).is_some() {
        return Err(Status::Conflict);
    }
    let auth = match create_auth(email, password, None, id_user) {
        Ok(a) => a,
        Err(()) => return Err(Status::InternalServerError),
    };
    let ghost a = auth@;
    let ghost before = store@;
    match store.create_credential(auth) {
        Ok(()) => {
            proof {
                let s = store@;
                let n = s.credentials.len() - 1;
                assert(s.credentials[n] == a);
                assert(s.has_credential(id_user));
                assert(s.credential_index(id_user) == n);
                let salt = choose|salt: Seq<u8>|
                    salt.len() == CREDENTIAL_LEN && #[trigger] fresh_credential(
                        a,
                        email@,
                        password.spec_bytes(),
                        DEFAULT_ITERATION as int,
                        id_user,
                        salt,
                    );
                assert(fresh_credential(
                    a,
                    email@,
                    password.spec_bytes(),
                    DEFAULT_ITERATION as int,
                    id_user,
                    salt,
                ));
            }
            Ok(Status::NoContent)
        },
        Err(e) => Err(store_error_status(e)),
    }
}

/// The credential of user `id_user` with its secret parts cleared.
pub fn read_own_credential(store: &Store, id_user: i64) -> (r: Result<Auth, Status>)
    requires
        store@.wf(),
    ensures
        !store@.has_credential(id_user) ==> r == Err::<Auth, Status>(Status::NotFound),
        store@.has_credential(id_user) ==> r is Ok,
        r is Ok ==> r->Ok_0@.id == id_user && r->Ok_0@.email == store@.credential(id_user).email
            && r->Ok_0@.last_login == store@.credential(id_user).last_login
            && r->Ok_0@.salt.len() == 0 && r->Ok_0@.stored_key.len() == 0
            && r->Ok_0@.iteration == 0,
{
    match store.read_credential(id_user) {
        Some(a) => {
            let mut a = a;
            mask(&mut a);
            Ok(a)
        },
        None => Err(Status::NotFound),
    }
}

/// Replaces the credential of user `id_user` by one made from a new email and password, with
/// a fresh salt and the default count. No credential is `NotFound`; an email that another
/// user's credential uses is an ordinary `Conflict`. Every other credential stays as it was.
pub fn update_own_credential(store: &mut Store, id_user: i64, email: &str, password: &str) -> (r:
    Result<Status, Status>)
    requires
        old(store)@.wf(),
    ensures
        final(store)@.wf(),
        r is Err ==> final(store)@ == old(store)@,
        !old(store)@.has_credential(id_user) ==> r == Err::<Status, Status>(Status::NotFound),
        old(store)@.has_credential(id_user) && old(store)@.email_taken(email@) && old(store)@.credential_by_email(email@).id != id_user ==> r == Err::<Status, Status>(
            Status::Conflict,
        ),
        r is Err ==> r == Err::<Status, Status>(Status::NotFound) || r == Err::<Status, Status>(
            Status::Conflict,
        ) || r == Err::<Status, Status>(Status::InternalServerError),
        old(store)@.has_credential(id_user) && !(old(store)@.email_taken(email@) && old(store)@.credential_by_email(email@).id != id_user) ==> r is Ok || r == Err::<Status, Status>(
            Status::InternalServerError,
        ),
        r is Ok ==> r == Ok::<Status, Status>(Status::NoContent),
        r is Ok ==> exists|a: AuthView, salt: Seq<u8>|
            salt.len() == CREDENTIAL_LEN && #[trigger] fresh_credential(
                a,
                email@,
                password.spec_bytes(),
                DEFAULT_ITERATION as int,
                id_user,
                salt,
            ) && final(store)@ == (StoreView {
                credentials: old(store)@.credentials.update(
                    old(store)@.credential_index(id_user),
                    a,
                ),
                ..old(store)@
            }),
        r is Ok ==> final(store)@.has_credential(id_user) && login_outcome(
            final(store)@.credential(id_user),
            password.spec_bytes(),
        ) == Ok::<bool, CredentialError>(true) && final(store)@.credential(id_user).email
            == email@ && final(store)@.credential(id_user).iteration == DEFAULT_ITERATION,
{
    if store.read_credential(id_user).is_none() {
        return Err(Status::NotFound);
    }
    match store.read_credential_by_email(email) {
        Some(c) => if c.id != id_user {
            return Err(Status::Conflict);
        },
        None => {},
    }
    let auth = match create_auth(email, password, None, id_user) {
        Ok(a) => a,
        Err(()) => return Err(Status::InternalServerError),
    };
    let ghost a = auth@;
    let ghost before = store@;
    match store.update_credential(id_user, auth) {
        Ok(n) => if n > 0 {
            proof {
                let s = store@;
                let i = before.credential_index(id_user);
                assert(a.id == id_user);
                assert(AuthView { id: id_user, ..a } == a);
                assert(s.credentials[i] == a);
                assert(s.has_credential(id_user));
                assert(s.credential_index(id_user) == i);
                let salt = choose|salt: Seq<u8>|
                    salt.len() == CREDENTIAL_LEN && #[trigger] fresh_credential(
                        a,
                        email@,
                        password.spec_bytes(),
                        DEFAULT_ITERATION as int,
                        id_user,
                        salt,
                    );
                assert(fresh_credential(
                    a,
                    email@,
                    password.spec_bytes(),
                    DEFAULT_ITERATION as int,
                    id_user,
                    salt,
                ));
            }
            Ok(Status::NoContent)
        } else {
            Err(Status::NotFound)
        },
        Err(e) => Err(store_error_status(e)),
    }
}

/// Removes the credential of user `id_user`; nothing else changes.
pub fn delete_own_credential(store: &mut Store, id_user: i64) -> (r: Status)
    requires
        old(store)@.wf(),
    ensures
        final(store)@.wf(),
        !final(store)@.has_credential(id_user),
        r == if old(store)@.has_credential(id_user) {
            Status::NoContent
        } else {
            Status::NotFound
        },
        r == Status::NotFound ==> final(store)@ == old(store)@,
        r == Status::NoContent ==> final(store)@ == (StoreView {
            credentials: old(store)@.credentials.remove(old(store)@.credential_index(id_user)),
            ..old(store)@
        }),
{
    if store.delete_credential(id_user) > 0 {
        Status::NoContent
    } else {
        Status::NotFound
    }
}

} // verus!
