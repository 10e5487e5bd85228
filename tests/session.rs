use money_manager::credential::{create_auth, login};
use money_manager::session::{
    delete_own_credential, login_user, login_user_at, read_own_credential, register_credential,
    store_error_status, update_own_credential,
};
use money_manager::ownership::Status;
use money_manager::store::{Store, StoreError};
use money_manager::token::{validate_token_at, ApiKey, Extras};
use money_manager::user::User;

fn user(id: i64) -> User {
    User {
        id,
        name: "N".to_string(),
        surname: "S".to_string(),
        phone: None,
        country: Some("IT".to_string()),
        address: None,
        birthdate: None,
        note: Some("n".to_string()),
    }
}

fn extras() -> Extras {
    Extras { jwt_key: "topsecret".to_string(), jwt_exp: 100 }
}

fn store_with_login() -> Store {
    let mut store = Store::new();
    store.add_user(user(1)).unwrap();
    store.add_user(user(2)).unwrap();
    assert_eq!(register_credential(&mut store, 1, "one@x.it", "pw1"), Ok(Status::NoContent));
    store
}

#[test]
fn login_gives_token_and_records_time() {
    let mut store = store_with_login();
    let t = login_user_at(&mut store, "one@x.it", "pw1", &extras(), 500).unwrap();
    assert_eq!(validate_token_at(&t, &extras().jwt_key, 599), Ok(ApiKey { sub: 1, exp: 600 }));
    assert_eq!(store.read_credential(1).unwrap().last_login, Some(500));
    let t2 = login_user(&mut store, "one@x.it", "pw1", &extras()).unwrap();
    assert!(!t2.is_empty());
}

#[test]
fn login_failures_are_unauthorized() {
    let mut store = store_with_login();
    assert_eq!(login_user_at(&mut store, "one@x.it", "pw2", &extras(), 500), Err(Status::Unauthorized));
    assert_eq!(login_user_at(&mut store, "nobody@x.it", "pw1", &extras(), 500), Err(Status::Unauthorized));
    assert_eq!(store.read_credential(1).unwrap().last_login, None);
}

#[test]
fn register_conflicts_and_missing_user() {
    let mut store = store_with_login();
    assert_eq!(register_credential(&mut store, 2, "one@x.it", "pw"), Err(Status::Conflict));
    assert_eq!(register_credential(&mut store, 1, "other@x.it", "pw"), Err(Status::Conflict));
    assert_eq!(register_credential(&mut store, 3, "three@x.it", "pw"), Err(Status::NotFound));
    assert_eq!(register_credential(&mut store, 3, "one@x.it", "pw"), Err(Status::NotFound));
    assert_eq!(store.read_credential(1).unwrap().email, "one@x.it");
    assert_eq!(register_credential(&mut store, 2, "two@x.it", "pw"), Ok(Status::NoContent));
    assert_eq!(store_error_status(StoreError::EmailTaken), Status::Conflict);
    assert_eq!(store_error_status(StoreError::UnknownUser), Status::NotFound);
}

#[test]
fn own_credential_is_masked() {
    let store = store_with_login();
    let a = read_own_credential(&store, 1).unwrap();
    assert_eq!(a.email, "one@x.it");
    assert_eq!(a.salt, "");
    assert_eq!(a.stored_key, "");
    assert_eq!(a.iteration, 0);
    assert_eq!(read_own_credential(&store, 2).err(), Some(Status::NotFound));
}

#[test]
fn update_and_delete_own_credential() {
    let mut store = store_with_login();
    assert_eq!(update_own_credential(&mut store, 1, "uno@x.it", "new"), Ok(Status::NoContent));
    let replaced = store.read_credential(1).unwrap();
    assert_eq!(replaced.iteration, money_manager::hasher::DEFAULT_ITERATION);
    assert_eq!(replaced.email, "uno@x.it");
    assert_eq!(login_user_at(&mut store, "one@x.it", "pw1", &extras(), 1), Err(Status::Unauthorized));
    assert!(login_user_at(&mut store, "uno@x.it", "new", &extras(), 1).is_ok());
    assert_eq!(update_own_credential(&mut store, 2, "two@x.it", "pw"), Err(Status::NotFound));
    register_credential(&mut store, 2, "two@x.it", "pw").unwrap();
    assert_eq!(update_own_credential(&mut store, 2, "uno@x.it", "pw"), Err(Status::Conflict));
    assert_eq!(delete_own_credential(&mut store, 1), Status::NoContent);
    assert_eq!(delete_own_credential(&mut store, 1), Status::NotFound);
    assert_eq!(login_user_at(&mut store, "uno@x.it", "new", &extras(), 1), Err(Status::Unauthorized));
}

#[test]
fn credential_store_rules() {
    let mut store = Store::new();
    store.add_user(user(1)).unwrap();
    assert_eq!(store.add_user(user(1)), Err(StoreError::DuplicateKey));
    let a = create_auth("a@x.it", "pw", None, 1).unwrap();
    let orphan = create_auth("b@x.it", "pw", None, 5).unwrap();
    assert_eq!(store.create_credential(orphan), Err(StoreError::UnknownUser));
    assert_eq!(store.create_credential(a), Ok(()));
    let again = create_auth("c@x.it", "pw", None, 1).unwrap();
    assert_eq!(store.create_credential(again), Err(StoreError::DuplicateKey));
    store.add_user(user(2)).unwrap();
    let same_email = create_auth("a@x.it", "pw", None, 2).unwrap();
    assert_eq!(store.create_credential(same_email), Err(StoreError::EmailTaken));
    let found = store.read_credential_by_email("a@x.it").unwrap();
    assert_eq!(found.id, 1);
    assert_eq!(login(&found, "pw"), Ok(true));
    assert!(store.read_credential_by_email("b@x.it").is_none());
    assert_eq!(store.update_last_login(1, 42), 1);
    assert_eq!(store.update_last_login(2, 42), 0);
    assert_eq!(store.read_credential(1).unwrap().last_login, Some(42));
    assert_eq!(store.read_user(1).unwrap().name, "N");
    assert!(store.delete_user(1));
    assert!(!store.delete_user(1));
    assert!(store.read_user(1).is_none());
    assert!(store.read_credential(1).is_none());
    assert_eq!(store.delete_credential(1), 0);
}
