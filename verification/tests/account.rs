use lunch_order::store::Store;
use lunch_order::LunchOrderError;

#[test]
fn register_creates_user_and_credential_together() {
    let mut s = Store::new();
    let uid = s.register("alice".to_string(), "secret".to_string()).unwrap();
    assert_eq!(uid, 1);
    assert_eq!(s.user_count(), 1);
    assert_eq!(s.credential_count(), 1);
    assert_eq!(s.user_at(0).id, 1);
    assert_eq!(s.user_at(0).username, "alice");
    assert_eq!(s.credential_at(0).id, 1);
    assert_eq!(s.credential_at(0).user_id, 1);
}

#[test]
fn register_stores_a_bcrypt_hash_not_the_password() {
    let mut s = Store::new();
    s.register("alice".to_string(), "secret".to_string()).unwrap();
    let hash = s.credential_at(0).password_hash.clone();
    assert_ne!(hash, "secret");
    assert_eq!(hash.len(), 60);
    assert!(bcrypt::verify("secret", &hash).unwrap());
    assert!(!bcrypt::verify("wrong", &hash).unwrap());
}

#[test]
fn register_same_username_twice_fails_and_keeps_one_row() {
    let mut s = Store::new();
    s.register("alice".to_string(), "secret".to_string()).unwrap();
    let second = s.register("alice".to_string(), "other".to_string());
    match second {
        Err(LunchOrderError::Registration(cause)) => {
            assert!(matches!(*cause, LunchOrderError::Query));
        },
        _ => panic!("expected a registration failure wrapping a constraint violation"),
    }
    assert_eq!(s.user_count(), 1);
    assert_eq!(s.credential_count(), 1);
    assert_eq!(s.user_at(0).username, "alice");
}

#[test]
fn register_distinct_usernames_assigns_fresh_ids() {
    let mut s = Store::new();
    let a = s.register("alice".to_string(), "secret".to_string()).unwrap();
    let b = s.register("bob".to_string(), "hunter2".to_string()).unwrap();
    assert_eq!(a, 1);
    assert_eq!(b, 2);
    assert_eq!(s.user_count(), 2);
    assert_eq!(s.credential_count(), 2);
    assert_eq!(s.credential_at(1).user_id, 2);
}

#[test]
fn failed_register_leaves_no_partial_rows() {
    let mut s = Store::new();
    s.register("alice".to_string(), "secret".to_string()).unwrap();
    let before_users = s.user_count();
    let before_credentials = s.credential_count();
    assert!(s.register("alice".to_string(), "again".to_string()).is_err());
    assert_eq!(s.user_count(), before_users);
    assert_eq!(s.credential_count(), before_credentials);
}

#[test]
fn registration_does_not_touch_restaurants() {
    let mut s = Store::new();
    s.create_at("thai".to_string(), 10).unwrap();
    s.register("alice".to_string(), "secret".to_string()).unwrap();
    assert_eq!(s.restaurant_count(), 1);
    assert_eq!(s.restaurant_at(0).name, "thai");
}
