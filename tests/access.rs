use money_manager::authenticator::{
    api_key_from_request, api_key_from_request_at, authenticate, authenticate_at, user_from_key,
    ApiKeyError,
};
use money_manager::ownership::{
    check_both, check_membership, check_owner, check_through_parent, finalize_update_delete,
    gate_status, unpack, Action, GateError, SharedPolicy, Status,
};
use money_manager::store::{Store, StoreError};
use money_manager::token::{issue_token_at, ApiKey, Extras};
use money_manager::user::User;

fn user(id: i64) -> User {
    User {
        id,
        name: format!("name{}", id),
        surname: "S".to_string(),
        phone: Some("555".to_string()),
        country: None,
        address: None,
        birthdate: Some(730000),
        note: None,
    }
}

fn extras() -> Extras {
    Extras { jwt_key: "k3y".to_string(), jwt_exp: 600 }
}

fn header(uid: i64, now: u64, ttl: u64) -> String {
    issue_token_at(uid, ttl, &extras().jwt_key, now).unwrap()
}

#[test]
fn authenticator_outcomes() {
    let mut store = Store::new();
    store.add_user(user(1)).unwrap();
    store.add_user(user(2)).unwrap();
    let e = extras();
    assert_eq!(authenticate_at(&store, &vec![], &e, 100).err(), Some(ApiKeyError::Missing));
    let two = vec![header(1, 100, 60), header(1, 100, 60)];
    assert_eq!(authenticate_at(&store, &two, &e, 100).err(), Some(ApiKeyError::BadCount));
    let expired = vec![header(1, 100, 60)];
    assert_eq!(authenticate_at(&store, &expired, &e, 160).err(), Some(ApiKeyError::Invalid));
    assert_eq!(authenticate_at(&store, &vec!["junk".to_string()], &e, 100).err(), Some(ApiKeyError::Invalid));
    let ok = authenticate_at(&store, &expired, &e, 159).unwrap();
    assert_eq!(ok.id, 1);
    assert_eq!(ok.name, "name1");
    assert!(store.delete_user(1));
    assert_eq!(authenticate_at(&store, &expired, &e, 100).err(), Some(ApiKeyError::Broken));
    let never = vec![header(99, 100, 60)];
    assert_eq!(authenticate_at(&store, &never, &e, 100).err(), Some(ApiKeyError::Broken));
}

#[test]
fn api_key_from_request_cases() {
    let e = extras();
    assert_eq!(api_key_from_request_at(&vec![], &e, 0), Err(ApiKeyError::Missing));
    assert_eq!(api_key_from_request_at(&vec![header(3, 0, 5)], &e, 4), Ok(ApiKey { sub: 3, exp: 5 }));
    assert_eq!(api_key_from_request_at(&vec![header(3, 0, 5)], &e, 5), Err(ApiKeyError::Invalid));
    assert_eq!(api_key_from_request(&vec![header(3, 0, 5)], &e), Err(ApiKeyError::Invalid));
    assert_eq!(api_key_from_request(&vec![header(3, 0, u64::MAX)], &e), Ok(ApiKey { sub: 3, exp: u64::MAX }));
    assert_eq!(
        api_key_from_request(&vec!["a".to_string(), "b".to_string()], &e),
        Err(ApiKeyError::BadCount)
    );
}

#[test]
fn authenticate_by_clock() {
    let mut store = Store::new();
    store.add_user(user(8)).unwrap();
    let e = extras();
    let fresh = vec![header(8, 0, u64::MAX)];
    assert_eq!(authenticate(&store, &fresh, &e).unwrap().id, 8);
    assert_eq!(authenticate(&store, &vec![], &e).err(), Some(ApiKeyError::Missing));
    assert_eq!(user_from_key(&store, Err(ApiKeyError::Invalid)).err(), Some(ApiKeyError::Invalid));
    assert_eq!(user_from_key(&store, Ok(ApiKey { sub: 9, exp: 1 })).err(), Some(ApiKeyError::Broken));
}

#[test]
fn account_owned_by_creator_only() {
    let mut store = Store::new();
    store.add_user(user(1)).unwrap();
    store.add_user(user(2)).unwrap();
    assert_eq!(store.create_account(10, 1), Ok(()));
    assert_eq!(store.check_account(2, 10), Err(GateError::Forbidden));
    assert_eq!(store.check_account(1, 10), Ok(()));
    assert_eq!(store.check_account(1, 11), Err(GateError::NotFound));
    // an unauthenticated request is refused before any ownership check
    assert_eq!(authenticate_at(&store, &vec![], &extras(), 0).err(), Some(ApiKeyError::Missing));
    assert_eq!(store.add_account_owner(10, 2), Ok(()));
    assert_eq!(store.check_account(2, 10), Ok(()));
    assert_eq!(store.add_account_owner(10, 2), Err(StoreError::DuplicateKey));
    assert_eq!(store.add_account_owner(12, 2), Err(StoreError::UnknownAccount));
    assert_eq!(store.add_account_owner(10, 3), Err(StoreError::UnknownUser));
}

#[test]
fn shared_causal_is_read_only() {
    let mut store = Store::new();
    store.add_user(user(1)).unwrap();
    store.add_user(user(2)).unwrap();
    assert_eq!(store.create_causal(5, None), Ok(()));
    assert_eq!(store.create_causal(6, Some(1)), Ok(()));
    for u in [1, 2] {
        assert_eq!(store.check_causal(u, 5, Action::Read), Ok(()));
        assert_eq!(store.check_causal(u, 5, Action::Modify), Err(GateError::Forbidden));
    }
    assert_eq!(store.check_causal(1, 6, Action::Modify), Ok(()));
    assert_eq!(store.check_causal(2, 6, Action::Read), Err(GateError::Forbidden));
    assert_eq!(store.check_causal(2, 7, Action::Read), Err(GateError::NotFound));
    assert_eq!(store.create_causal(5, None), Err(StoreError::DuplicateKey));
    assert_eq!(store.create_causal(8, Some(3)), Err(StoreError::UnknownUser));
}

#[test]
fn failed_ownership_record_rolls_back_account() {
    let mut store = Store::new();
    store.add_user(user(1)).unwrap();
    assert_eq!(store.create_account(20, 99), Err(StoreError::UnknownUser));
    assert_eq!(store.check_account(1, 20), Err(GateError::NotFound));
    assert_eq!(store.check_account(99, 20), Err(GateError::NotFound));
    assert_eq!(store.create_account(20, 1), Ok(()));
    assert_eq!(store.create_account(20, 1), Err(StoreError::DuplicateKey));
}

#[test]
fn owner_policies() {
    let read = Action::Read;
    let modify = Action::Modify;
    assert_eq!(check_owner(1, None, read, SharedPolicy::Closed), Err(GateError::NotFound));
    assert_eq!(check_owner(1, Some(Some(1)), modify, SharedPolicy::Closed), Ok(()));
    assert_eq!(check_owner(1, Some(Some(2)), read, SharedPolicy::Open), Err(GateError::Forbidden));
    assert_eq!(check_owner(1, Some(None), read, SharedPolicy::Closed), Err(GateError::Forbidden));
    assert_eq!(check_owner(1, Some(None), read, SharedPolicy::ReadOnly), Ok(()));
    assert_eq!(check_owner(1, Some(None), modify, SharedPolicy::ReadOnly), Err(GateError::Forbidden));
    assert_eq!(check_owner(1, Some(None), modify, SharedPolicy::Open), Ok(()));
}

#[test]
fn chained_and_transitive_checks() {
    assert_eq!(check_membership(false, true), Err(GateError::NotFound));
    assert_eq!(check_membership(true, false), Err(GateError::Forbidden));
    assert_eq!(check_membership(true, true), Ok(()));
    assert_eq!(check_through_parent(false, Ok(())), Err(GateError::NotFound));
    assert_eq!(check_through_parent(true, Err(GateError::NotFound)), Err(GateError::Forbidden));
    assert_eq!(check_through_parent(true, Ok(())), Ok(()));
    assert_eq!(check_both(Err(GateError::NotFound), Err(GateError::Forbidden)), Err(GateError::NotFound));
    assert_eq!(check_both(Ok(()), Err(GateError::Forbidden)), Err(GateError::Forbidden));
    assert_eq!(check_both(Ok(()), Ok(())), Ok(()));
    assert_eq!(gate_status(GateError::NotFound), Status::NotFound);
    assert_eq!(gate_status(GateError::Forbidden), Status::Forbidden);
}

#[test]
fn response_mapping() {
    assert_eq!(finalize_update_delete::<()>(Ok(1)), Ok(Status::NoContent));
    assert_eq!(finalize_update_delete::<()>(Ok(0)), Err(Status::NotFound));
    assert_eq!(finalize_update_delete(Err("db down")), Err(Status::InternalServerError));
    assert_eq!(unpack::<i32, ()>(Ok(vec![1, 2])), Ok(vec![1, 2]));
    assert_eq!(unpack::<i32, ()>(Ok(vec![])), Err(Status::NoContent));
    assert_eq!(unpack::<i32, &str>(Err("db down")), Err(Status::InternalServerError));
}

#[test]
fn deleting_account_removes_its_ownership_records() {
    let mut store = Store::new();
    store.add_user(user(1)).unwrap();
    store.add_user(user(2)).unwrap();
    store.create_account(10, 1).unwrap();
    store.create_account(11, 1).unwrap();
    store.add_account_owner(10, 2).unwrap();
    let mut mine = store.read_accounts_by_user(1);
    mine.sort();
    assert_eq!(mine, vec![10, 11]);
    assert_eq!(store.read_accounts_by_user(2), vec![10]);
    assert_eq!(store.delete_account(10), 1);
    assert_eq!(store.delete_account(10), 0);
    assert_eq!(store.check_account(1, 10), Err(GateError::NotFound));
    assert_eq!(store.read_accounts_by_user(1), vec![11]);
    assert!(store.read_accounts_by_user(2).is_empty());
    assert_eq!(unpack::<i64, ()>(Ok(store.read_accounts_by_user(2))), Err(Status::NoContent));
    store.create_account(10, 2).unwrap();
    assert_eq!(store.check_account(1, 10), Err(GateError::Forbidden));
}

#[test]
fn transaction_checked_through_its_account() {
    let mut store = Store::new();
    store.add_user(user(1)).unwrap();
    store.add_user(user(2)).unwrap();
    store.create_account(10, 1).unwrap();
    assert_eq!(store.create_transaction(100, 10), Ok(()));
    assert_eq!(store.create_transaction(100, 10), Err(StoreError::DuplicateKey));
    assert_eq!(store.create_transaction(101, 77), Err(StoreError::UnknownAccount));
    assert_eq!(store.check_transaction(1, 100), Ok(()));
    assert_eq!(store.check_transaction(2, 100), Err(GateError::Forbidden));
    assert_eq!(store.check_transaction(1, 101), Err(GateError::NotFound));
    store.delete_account(10);
    assert_eq!(store.check_transaction(1, 100), Err(GateError::Forbidden));
}

#[test]
fn transaction_detail_needs_both_sides() {
    let mut store = Store::new();
    store.add_user(user(1)).unwrap();
    store.add_user(user(2)).unwrap();
    store.create_account(10, 1).unwrap();
    store.create_transaction(100, 10).unwrap();
    assert_eq!(store.create_detail(1, None), Ok(()));
    assert_eq!(store.create_detail(2, Some(2)), Ok(()));
    assert_eq!(store.create_detail(3, Some(9)), Err(StoreError::UnknownUser));
    assert_eq!(store.check_detail(1, 1, Action::Modify), Ok(()));
    assert_eq!(store.check_detail(1, 2, Action::Read), Err(GateError::Forbidden));
    assert_eq!(store.check_transaction_detail(1, 100, 1, Action::Modify), Ok(()));
    assert_eq!(store.check_transaction_detail(1, 100, 2, Action::Modify), Err(GateError::Forbidden));
    assert_eq!(store.check_transaction_detail(2, 100, 2, Action::Modify), Err(GateError::Forbidden));
    assert_eq!(store.check_transaction_detail(1, 100, 5, Action::Read), Err(GateError::NotFound));
    assert_eq!(store.check_transaction_detail(1, 999, 1, Action::Read), Err(GateError::NotFound));
}

#[test]
fn removing_an_owner_keeps_the_account() {
    let mut store = Store::new();
    store.add_user(user(1)).unwrap();
    store.add_user(user(2)).unwrap();
    store.create_account(10, 1).unwrap();
    store.add_account_owner(10, 2).unwrap();
    assert!(store.remove_account_owner(10, 2));
    assert!(!store.remove_account_owner(10, 2));
    assert_eq!(store.check_account(2, 10), Err(GateError::Forbidden));
    assert_eq!(store.check_account(1, 10), Ok(()));
}

#[test]
fn accounts_listed_once_per_user() {
    let mut store = Store::new();
    store.add_user(user(1)).unwrap();
    store.create_account(10, 1).unwrap();
    store.create_account(11, 1).unwrap();
    let mut mine = store.read_accounts_by_user(1);
    mine.sort();
    mine.dedup();
    assert_eq!(mine.len(), store.read_accounts_by_user(1).len());
}

#[test]
fn causals_readable_by_user_and_deletion() {
    let mut store = Store::new();
    store.add_user(user(1)).unwrap();
    store.add_user(user(2)).unwrap();
    store.create_causal(5, None).unwrap();
    store.create_causal(6, Some(1)).unwrap();
    store.create_causal(7, Some(2)).unwrap();
    let mut one = store.read_causals_for_user(1);
    one.sort();
    assert_eq!(one, vec![5, 6]);
    let mut two = store.read_causals_for_user(2);
    two.sort();
    assert_eq!(two, vec![5, 7]);
    assert_eq!(store.read_causals_for_user(3), vec![5]);
    assert_eq!(store.delete_causal(6), 1);
    assert_eq!(store.delete_causal(6), 0);
    assert_eq!(store.check_causal(1, 6, Action::Read), Err(GateError::NotFound));
    assert_eq!(store.check_causal(2, 7, Action::Modify), Ok(()));
    assert_eq!(store.read_causals_for_user(1), vec![5]);
}
