//! Credentials: the salted, hashed login material of one user, how it is made from a
//! password, how a password is checked against it, and how it is masked for output.
use vstd::prelude::*;
use vstd::string::StringSliceAdditionalSpecFns;
use crate::hasher::{
    derive_key, derived_key, key_matches, random_salt, verify_key, CREDENTIAL_LEN,
    DEFAULT_ITERATION, MAX_INPUT_LEN,
};
use crate::hex::{
    hex_decode, hex_encode, hex_upper, is_hex_upper, lemma_hex_upper_len,
    lemma_hex_upper_well_formed, lemma_unhex_hex_upper, unhex,
};

verus! {

/// One user's login material. `id` is the owning user's identifier; `salt` and `stored_key`
/// are upper-case hexadecimal; `last_login` is in seconds since the Unix epoch.
#[derive(Debug, Clone)]
pub struct Auth {
    pub id: i64,
    pub email: String,
    pub iteration: i16,
    pub salt: String,
    pub stored_key: String,
    pub last_login: Option<u64>,
}

/// A credential as plain values.
pub struct AuthView {
    pub id: i64,
    pub email: Seq<char>,
    pub iteration: i16,
    pub salt: Seq<char>,
    pub stored_key: Seq<char>,
    pub last_login: Option<u64>,
}

impl View for Auth {
    type V = AuthView;

    open spec fn view(&self) -> AuthView {
        AuthView {
            id: self.id,
            email: self.email@,
            iteration: self.iteration,
            salt: self.salt@,
            stored_key: self.stored_key@,
            last_login: self.last_login,
        }
    }
}

impl Auth {
    /// A copy of the credential.
    pub fn copy_record(&self) -> (r: Auth)
        ensures
            r@ == self@,
    {
        Auth {
            id: self.id,
            email: self.email.clone(),
            iteration: self.iteration,
            salt: self.salt.clone(),
            stored_key: self.stored_key.clone(),
            last_login: self.last_login,
        }
    }
}

/// Why a password could not be checked against a credential.
#[derive(Debug, Clone, Copy, PartialEq, Eq, Structural)]
pub enum CredentialError {
    /// The stored salt, key or count cannot have been written by `create_auth`: the data is
    /// damaged, which is not the same as a wrong password.
    Corrupt,
    /// The password is longer than the hash function accepts.
    TooLong,
}

/// The iteration count a credential is made with.
pub open spec fn effective_iteration(iteration: Option<i16>) -> int {
    match iteration {
        Some(n) => n as int,
        None => DEFAULT_ITERATION as int,
    }
}

/// A credential in the shape that `create_auth` writes.
pub open spec fn credential_intact(a: AuthView) -> bool {
    &&& a.iteration > 0
    &&& is_hex_upper(a.salt)
    &&& is_hex_upper(a.stored_key)
    &&& a.stored_key.len() == 2 * CREDENTIAL_LEN
    &&& a.salt.len() <= 2 * MAX_INPUT_LEN
    &&& a.salt.len() <= usize::MAX / 32
}

/// What checking the password bytes `pwd` against credential `a` gives.
pub open spec fn login_outcome(a: AuthView, pwd: Seq<u8>) -> Result<bool, CredentialError> {
    if !credential_intact(a) {
        Err(CredentialError::Corrupt)
    } else if pwd.len() > MAX_INPUT_LEN {
        Err(CredentialError::TooLong)
    } else {
        Ok(key_matches(pwd, unhex(a.salt), a.iteration as u32, unhex(a.stored_key)))
    }
}

/// `a` is the fresh credential of user `id_user` with login `email`, made from password bytes
/// `pwd` under `salt` with `iterations` rounds.
pub open spec fn fresh_credential(
    a: AuthView,
    email: Seq<char>,
    pwd: Seq<u8>,
    iterations: int,
    id_user: i64,
    salt: Seq<u8>,
) -> bool {
    &&& a.id == id_user
    &&& a.email == email
    &&& a.iteration == iterations
    &&& a.salt == hex_upper(salt)
    &&& a.stored_key == hex_upper(derived_key(pwd, salt, iterations as u32))
    &&& a.last_login is None
}

/// Whether a credential can be made: a positive count, a salt of the right length and a
/// password the hash function accepts.
pub open spec fn can_create(iteration: Option<i16>, pwd: Seq<u8>, salt_len: int) -> bool {
    &&& effective_iteration(iteration) > 0
    &&& salt_len == CREDENTIAL_LEN
    &&& pwd.len() <= MAX_INPUT_LEN
}

/// A credential holding the key derived from a password accepts that password, whatever the
/// password, salt and positive count.
pub proof fn lemma_login_accepts_own_password(a: AuthView, pwd: Seq<u8>, salt: Seq<u8>)
    requires
        a.iteration > 0,
        salt.len() == CREDENTIAL_LEN,
        pwd.len() <= MAX_INPUT_LEN,
        derived_key(pwd, salt, a.iteration as u32).len() == CREDENTIAL_LEN,
        a.salt == hex_upper(salt),
        a.stored_key == hex_upper(derived_key(pwd, salt, a.iteration as u32)),
    ensures
        login_outcome(a, pwd) == Ok::<bool, CredentialError>(true),
{
    let k = derived_key(pwd, salt, a.iteration as u32);
    lemma_hex_upper_well_formed(salt);
    lemma_hex_upper_well_formed(k);
    lemma_hex_upper_len(salt);
    lemma_hex_upper_len(k);
    lemma_unhex_hex_upper(salt);
    lemma_unhex_hex_upper(k);
}

/// Makes the credential of user `id_user` from `password` under the given 32-byte salt.
/// Fails exactly when the count is not positive, the salt has another length, or the password
/// is too long to hash.
pub fn create_auth_with_salt(
    email: &str,
    password: &str,
    iteration: Option<i16>,
    id_user: i64,
    salt: &[u8],
) -> (r: Result<Auth, ()>)
    ensures
        r is Ok <==> can_create(iteration, password.spec_bytes(), salt@.len() as int),
        r is Ok ==> fresh_credential(
            r->Ok_0@,
            email@,
            password.spec_bytes(),
            effective_iteration(iteration),
            id_user,
            salt@,
        ),
        r is Ok ==> login_outcome(r->Ok_0@, password.spec_bytes()) == Ok::<bool, CredentialError>(
            true,
        ),
{
    let it: i16 = match iteration {
        Some(n) => n,
        None => DEFAULT_ITERATION,
    };
    let pwd = password.as_bytes();
    if it <= 0 || salt.len() != CREDENTIAL_LEN || pwd.len() as u64 > MAX_INPUT_LEN {
        return Err(());
    }
    let key = derive_key(pwd, salt, it as u32);
    let a = Auth {
        id: id_user,
        email: email.to_owned(),
        iteration: it,
        salt: hex_encode(salt),
        stored_key: hex_encode(key.as_slice()),
        last_login: None,
    };
    proof {
        lemma_login_accepts_own_password(a@, pwd@, salt@);
    }
    Ok(a)
}

/// Makes the credential of user `id_user` from `password` under a fresh random salt, with
/// `iteration` rounds or the default count. Fails when the count is not positive, the password
/// is too long to hash, or the random source fails.
pub fn create_auth(email: &str, password: &str, iteration: Option<i16>, id_user: i64) -> (r: Result<
    Auth,
    (),
>)
    ensures
        !can_create(iteration, password.spec_bytes(), CREDENTIAL_LEN as int) ==> r is Err,
        r is Ok ==> exists|salt: Seq<u8>|
            salt.len() == CREDENTIAL_LEN && #[trigger] fresh_credential(
                r->Ok_0@,
                email@,
                password.spec_bytes(),
                effective_iteration(iteration),
                id_user,
                salt,
            ),
        r is Ok ==> login_outcome(r->Ok_0@, password.spec_bytes()) == Ok::<bool, CredentialError>(
            true,
        ),
{
    let it: i16 = match iteration {
        Some(n) => n,
        None => DEFAULT_ITERATION,
    };
    if it <= 0 || password.as_bytes().len() as u64 > MAX_INPUT_LEN {
        return Err(());
    }
    match random_salt() {
        Some(salt) => create_auth_with_salt(email, password, iteration, id_user, salt.as_slice()),
        None => Err(()),
    }
}

/// Checks a password against a credential. A damaged credential is reported as such and never
/// as a mismatch. Recording the time of a successful login is left to the caller.
pub fn login(auth: &Auth, pwd: &str) -> (r: Result<bool, CredentialError>)
    ensures
        r == login_outcome(auth@, pwd.spec_bytes()),
{
    if auth.iteration <= 0 || auth.salt.as_str().unicode_len() > usize::MAX / 32
        || auth.stored_key.as_str().unicode_len() != 2 * CREDENTIAL_LEN {
        return Err(CredentialError::Corrupt);
    }
    let salt = match hex_decode(auth.salt.as_str()) {
        Some(s) => s,
        None => return Err(CredentialError::Corrupt),
    };
    let key = match hex_decode(auth.stored_key.as_str()) {
        Some(k) => k,
        None => return Err(CredentialError::Corrupt),
    };
    proof {
        lemma_hex_upper_len(salt@);
        lemma_hex_upper_len(key@);
        lemma_unhex_hex_upper(salt@);
        lemma_unhex_hex_upper(key@);
    }
    if key.len() != CREDENTIAL_LEN || salt.len() as u64 > MAX_INPUT_LEN {
        return Err(CredentialError::Corrupt);
    }
    let bytes = pwd.as_bytes();
    if bytes.len() as u64 > MAX_INPUT_LEN {
        return Err(CredentialError::TooLong);
    }
    Ok(verify_key(bytes, salt.as_slice(), auth.iteration as u32, key.as_slice()))
}

/// Clears the secret parts of a credential (salt, stored key and count) before it is shown.
pub fn mask(auth: &mut Auth)
    ensures
        final(auth).stored_key@ == Seq::<char>::empty(),
        final(auth).salt@ == Seq::<char>::empty(),
        final(auth).iteration == 0,
        final(auth).id == old(auth).id,
        final(auth).email@ == old(auth).email@,
        final(auth).last_login == old(auth).last_login,
{
    auth.stored_key = String::new();
    auth.salt = String::new();
    auth.iteration = 0;
}

} // verus!
