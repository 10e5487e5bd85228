use money_manager::credential::{create_auth, create_auth_with_salt, login, mask, Auth, CredentialError};
use money_manager::hasher::{derive_key, verify_key, CREDENTIAL_LEN, DEFAULT_ITERATION};

fn salt_bytes() -> Vec<u8> {
    (0u8..32).collect()
}

#[test]
fn derive_matches_known_pbkdf2_output() {
    let key = derive_key(b"password", &salt_bytes(), 1000);
    let hex: String = key.iter().map(|b| format!("{:02X}", b)).collect();
    assert_eq!(hex, "CEE31D9E95839A8331CE1B8CF2B38EF5C26729D96A0C004DD8A1E4B9F7335664");
    assert_eq!(key.len(), CREDENTIAL_LEN);
}

#[test]
fn verify_accepts_derived_key() {
    for (pwd, n) in [(&b"hunter2"[..], 1u32), (&b""[..], 3), (&b"correct horse"[..], 1000)] {
        let key = derive_key(pwd, &salt_bytes(), n);
        assert!(verify_key(pwd, &salt_bytes(), n, &key));
    }
}

#[test]
fn verify_rejects_other_password() {
    let key = derive_key(b"first", &salt_bytes(), 10);
    assert!(!verify_key(b"second", &salt_bytes(), 10, &key));
    assert!(!verify_key(b"first", &salt_bytes(), 11, &key));
    let other_salt: Vec<u8> = (1u8..33).collect();
    assert!(!verify_key(b"first", &other_salt, 10, &key));
}

#[test]
fn verify_rejects_key_of_wrong_length() {
    let key = derive_key(b"first", &salt_bytes(), 10);
    assert!(!verify_key(b"first", &salt_bytes(), 10, &key[..16]));
    assert!(!verify_key(b"first", &salt_bytes(), 10, &[]));
}

#[test]
fn create_auth_with_salt_stores_hex() {
    let a = create_auth_with_salt("a@b.c", "password", Some(1000), 5, &salt_bytes()).unwrap();
    assert_eq!(a.id, 5);
    assert_eq!(a.email, "a@b.c");
    assert_eq!(a.iteration, 1000);
    assert_eq!(a.salt, "000102030405060708090A0B0C0D0E0F101112131415161718191A1B1C1D1E1F");
    assert_eq!(a.stored_key, "CEE31D9E95839A8331CE1B8CF2B38EF5C26729D96A0C004DD8A1E4B9F7335664");
    assert_eq!(a.last_login, None);
}

#[test]
fn create_auth_refuses_bad_iteration_or_salt() {
    assert!(create_auth_with_salt("a@b.c", "pw", Some(0), 5, &salt_bytes()).is_err());
    assert!(create_auth_with_salt("a@b.c", "pw", Some(-3), 5, &salt_bytes()).is_err());
    assert!(create_auth_with_salt("a@b.c", "pw", None, 5, &salt_bytes()[..31]).is_err());
    assert!(create_auth("a@b.c", "pw", Some(0), 5).is_err());
    assert!(create_auth("a@b.c", "pw", Some(i16::MIN), 5).is_err());
}

#[test]
fn create_auth_uses_default_iteration_and_random_salt() {
    let a = create_auth("a@b.c", "pw", None, 9).unwrap();
    let b = create_auth("a@b.c", "pw", None, 9).unwrap();
    assert_eq!(a.iteration, DEFAULT_ITERATION);
    assert_eq!(a.salt.len(), 64);
    assert_eq!(a.stored_key.len(), 64);
    assert_ne!(a.salt, b.salt);
    assert_ne!(a.stored_key, b.stored_key);
}

#[test]
fn login_accepts_creating_password() {
    let a = create_auth("a@b.c", "s3cret", Some(50), 1).unwrap();
    assert_eq!(login(&a, "s3cret"), Ok(true));
    let b = create_auth_with_salt("a@b.c", "", None, 1, &salt_bytes()).unwrap();
    assert_eq!(login(&b, ""), Ok(true));
}

#[test]
fn login_rejects_other_password() {
    let a = create_auth("a@b.c", "s3cret", Some(50), 1).unwrap();
    assert_eq!(login(&a, "s3cret "), Ok(false));
    assert_eq!(login(&a, ""), Ok(false));
}

fn damaged(salt: &str, key: &str, iteration: i16) -> Auth {
    Auth {
        id: 1,
        email: "a@b.c".to_string(),
        iteration,
        salt: salt.to_string(),
        stored_key: key.to_string(),
        last_login: None,
    }
}

#[test]
fn login_reports_damaged_credential() {
    let good = create_auth_with_salt("a@b.c", "pw", Some(5), 1, &salt_bytes()).unwrap();
    assert_eq!(login(&damaged("XYZ", &good.stored_key, 5), "pw"), Err(CredentialError::Corrupt));
    assert_eq!(login(&damaged("ABC", &good.stored_key, 5), "pw"), Err(CredentialError::Corrupt));
    let lower = good.stored_key.to_lowercase();
    assert_eq!(login(&damaged(&good.salt, &lower, 5), "pw"), Err(CredentialError::Corrupt));
    assert_eq!(login(&damaged(&good.salt, &good.stored_key[..32], 5), "pw"), Err(CredentialError::Corrupt));
    assert_eq!(login(&damaged(&good.salt, &good.stored_key, 0), "pw"), Err(CredentialError::Corrupt));
    assert_eq!(login(&damaged(&good.salt, &good.stored_key, 5), "pw"), Ok(true));
}

#[test]
fn mask_clears_secrets() {
    let mut a = create_auth("a@b.c", "pw", None, 3).unwrap();
    a.last_login = Some(77);
    mask(&mut a);
    assert_eq!(a.salt, "");
    assert_eq!(a.stored_key, "");
    assert_eq!(a.iteration, 0);
    assert_eq!(a.id, 3);
    assert_eq!(a.email, "a@b.c");
    assert_eq!(a.last_login, Some(77));
}
