//! The password hasher: PBKDF2 over HMAC-SHA-256 with a per-credential random salt.
use vstd::prelude::*;

verus! {

/// Length in bytes of a salt and of a derived key.
pub const CREDENTIAL_LEN: usize = 32;

/// Iteration count used when none is configured.
pub const DEFAULT_ITERATION: i16 = 1000;

/// Longest password or salt, in bytes, that the hash function accepts here.
pub const MAX_INPUT_LEN: u64 = 0x1000_0000_0000_0000;

/// The 32-byte PBKDF2-HMAC-SHA-256 key of `secret` under `salt` after `iterations` rounds.
pub uninterp spec fn pbkdf2_sha256(iterations: u32, salt: Seq<u8>, secret: Seq<u8>) -> Seq<u8>;

/// The key derived from a password.
pub open spec fn derived_key(password: Seq<u8>, salt: Seq<u8>, iterations: u32) -> Seq<u8> {
    pbkdf2_sha256(iterations, salt, password)
}

/// Whether `expected` is the key derived from `password`: a key of any other length never is.
pub open spec fn key_matches(password: Seq<u8>, salt: Seq<u8>, iterations: u32, expected: Seq<u8>) -> bool {
    expected.len() == CREDENTIAL_LEN && expected == derived_key(password, salt, iterations)
}

/// Inputs the hash function accepts.
pub open spec fn hashable(password: Seq<u8>, salt: Seq<u8>, iterations: u32) -> bool {
    iterations > 0 && password.len() <= MAX_INPUT_LEN && salt.len() <= MAX_INPUT_LEN
}

/// Relies on `ring::pbkdf2::derive` with `PBKDF2_HMAC_SHA256`, writing a 32-byte output. It
/// panics only on a zero count (ruled out by the type it takes) or on inputs longer than
/// SHA-256 can hash.
#[verifier::external_body]
fn pbkdf2_derive(iterations: u32, salt: &[u8], secret: &[u8]) -> (r: Vec<u8>)
    requires
        hashable(secret@, salt@, iterations),
    ensures
        r@ == pbkdf2_sha256(iterations, salt@, secret@),
        r@.len() == CREDENTIAL_LEN,
{
    let mut out = vec![0u8; CREDENTIAL_LEN];
    let n = std::num::NonZeroU32::new(iterations).unwrap();
    ring::pbkdf2::derive(ring::pbkdf2::PBKDF2_HMAC_SHA256, n, salt, secret, &mut out);
    out
}

/// Relies on `ring::pbkdf2::verify` with `PBKDF2_HMAC_SHA256`: for a 32-byte previous key it
/// derives one 32-byte block and succeeds exactly when the two are equal.
#[verifier::external_body]
fn pbkdf2_verify(iterations: u32, salt: &[u8], secret: &[u8], previous: &[u8]) -> (r: bool)
    requires
        hashable(secret@, salt@, iterations),
        previous@.len() == CREDENTIAL_LEN,
    ensures
        r == (previous@ == pbkdf2_sha256(iterations, salt@, secret@)),
{
    let n = std::num::NonZeroU32::new(iterations).unwrap();
    ring::pbkdf2::verify(ring::pbkdf2::PBKDF2_HMAC_SHA256, n, salt, secret, previous).is_ok()
}

/// Relies on `ring::rand::SystemRandom` filling a 32-byte buffer; it may fail.
#[verifier::external_body]
pub(crate) fn random_salt() -> (r: Option<Vec<u8>>)
    ensures
        r is Some ==> r->0@.len() == CREDENTIAL_LEN,
{
    let mut salt = vec![0u8; CREDENTIAL_LEN];
    ring::rand::SecureRandom::fill(&ring::rand::SystemRandom::new(), &mut salt).ok()?;
    Some(salt)
}

/// Derives the 32-byte key of a password; the key it returns is one that `verify_key` accepts for
/// the same password, salt and count.
pub fn derive_key(password: &[u8], salt: &[u8], iterations: u32) -> (r: Vec<u8>)
    requires
        hashable(password@, salt@, iterations),
    ensures
        r@ == derived_key(password@, salt@, iterations),
        r@.len() == CREDENTIAL_LEN,
        key_matches(password@, salt@, iterations, r@),
{
    pbkdf2_derive(iterations, salt, password)
}

/// Whether `expected` is the key of `password`. The comparison is ring's own, which ring's
/// source notes is not fully constant-time.
pub fn verify_key(password: &[u8], salt: &[u8], iterations: u32, expected: &[u8]) -> (r: bool)
    requires
        hashable(password@, salt@, iterations),
    ensures
        r == key_matches(password@, salt@, iterations, expected@),
{
    if expected.len() != CREDENTIAL_LEN {
        return false;
    }
    pbkdf2_verify(iterations, salt, password, expected)
}

/// A key derived from a password of the length a derived key has is accepted for that
/// password, whatever the password, salt and count.
pub proof fn lemma_verify_derived(password: Seq<u8>, salt: Seq<u8>, iterations: u32)
    requires
        derived_key(password, salt, iterations).len() == CREDENTIAL_LEN,
    ensures
        key_matches(password, salt, iterations, derived_key(password, salt, iterations)),
{
}

} // verus!
