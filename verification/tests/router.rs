use secret_vault::error::ErrorKind;
use secret_vault::models::{DbConnection, EncryptionMethod, User};
use secret_vault::router::{StorageRouter, StoreHandle};

fn user(id: u128, store: Option<DbConnection>) -> User {
    User {
        id,
        username: "u".to_string(),
        email: "u@example.com".to_string(),
        password: String::new(),
        encryption_method: Some(EncryptionMethod::AES256),
        keys: Some(vec![1, 2, 3]),
        api_key: None,
        db_connection: store,
        created_at: None,
        updated_at: None,
    }
}

fn target(host: &str, port: u16) -> DbConnection {
    DbConnection {
        host: host.to_string(),
        port,
        username: "vault".to_string(),
        password: "pw".to_string(),
        database: "secrets".to_string(),
    }
}

#[test]
fn tenant_without_external_store_gets_the_shared_store() {
    let router = StorageRouter::new();
    assert_eq!(router.resolve(&user(9, None)).unwrap(), StoreHandle::Shared { tenant: 9 });
    assert!(router.connection_request(&user(9, None)).is_none());
    assert_eq!(router.pooled(), 0);
}

#[test]
fn first_resolution_asks_for_a_connection() {
    let router = StorageRouter::new();
    let tenant = user(1, Some(target("db", 5432)));
    let error = router.resolve(&tenant).unwrap_err();
    assert_eq!(error.kind, ErrorKind::StoreUnavailable);
    assert_eq!(error.tenant, 1);
    assert_eq!(error.secret, None);
    assert_eq!(error.version, None);
    let request = router.connection_request(&tenant).unwrap();
    assert!(request.same_target(&target("db", 5432)));
}

#[test]
fn pooled_connection_is_reused_for_the_identical_descriptor() {
    let mut router = StorageRouter::new();
    assert_eq!(router.connected(target("db", 5432), 1), 1);
    assert_eq!(router.connected(target("db", 5432), 2), 1);
    assert_eq!(router.pooled(), 1);
    let a = user(1, Some(target("db", 5432)));
    let b = user(2, Some(target("db", 5432)));
    assert_eq!(router.resolve(&a).unwrap(), StoreHandle::External { tenant: 1, connection: 1 });
    assert_eq!(router.resolve(&b).unwrap(), StoreHandle::External { tenant: 2, connection: 1 });
    assert!(router.connection_request(&a).is_none());
}

#[test]
fn descriptors_match_only_if_every_field_matches() {
    let base = target("db", 5432);
    assert!(base.same_target(&target("db", 5432)));
    assert!(!base.same_target(&target("db", 5433)));
    assert!(!base.same_target(&target("DB", 5432)));
    let mut other = target("db", 5432);
    other.username = "vault2".to_string();
    assert!(!base.same_target(&other));
    let mut other = target("db", 5432);
    other.password = "pw2".to_string();
    assert!(!base.same_target(&other));
    let mut other = target("db", 5432);
    other.database = "secrets2".to_string();
    assert!(!base.same_target(&other));
    assert!(base.duplicate().same_target(&base));
}

#[test]
fn different_descriptors_get_different_connections() {
    let mut router = StorageRouter::new();
    router.connected(target("db", 5432), 1);
    let mut with_other_password = target("db", 5432);
    with_other_password.password = "other".to_string();
    let tenant = user(3, Some(with_other_password.duplicate()));
    assert_eq!(router.resolve(&tenant).unwrap_err().kind, ErrorKind::StoreUnavailable);
    assert_eq!(router.connected(with_other_password, 2), 2);
    assert_eq!(router.pooled(), 2);
    assert_eq!(router.resolve(&tenant).unwrap(), StoreHandle::External { tenant: 3, connection: 2 });
}

#[test]
fn eviction_leads_to_a_fresh_connection_for_the_second_tenant() {
    let mut router = StorageRouter::new();
    let first = user(1, Some(target("db", 5432)));
    let second = user(2, Some(target("db", 5432)));
    let bystander = user(3, Some(target("elsewhere", 5432)));
    router.connected(target("db", 5432), 10);
    router.connected(target("elsewhere", 5432), 20);
    assert_eq!(router.resolve(&first).unwrap(), StoreHandle::External { tenant: 1, connection: 10 });
    assert_eq!(router.evict(&target("db", 5432)), Some(10));
    assert_eq!(router.pooled(), 1);
    assert_eq!(router.resolve(&second).unwrap_err().kind, ErrorKind::StoreUnavailable);
    assert!(router.connection_request(&second).unwrap().same_target(&target("db", 5432)));
    assert_eq!(
        router.resolve(&bystander).unwrap(),
        StoreHandle::External { tenant: 3, connection: 20 }
    );
    assert_eq!(router.resolve(&user(4, None)).unwrap(), StoreHandle::Shared { tenant: 4 });
    assert_eq!(router.connected(target("db", 5432), 11), 11);
    assert_eq!(router.resolve(&second).unwrap(), StoreHandle::External { tenant: 2, connection: 11 });
    assert_eq!(router.resolve(&first).unwrap(), StoreHandle::External { tenant: 1, connection: 11 });
    assert_eq!(
        router.resolve(&bystander).unwrap(),
        StoreHandle::External { tenant: 3, connection: 20 }
    );
}

#[test]
fn evicting_what_is_not_pooled_changes_nothing() {
    let mut router = StorageRouter::new();
    router.connected(target("db", 5432), 1);
    assert_eq!(router.evict(&target("other", 5432)), None);
    assert_eq!(router.pooled(), 1);
    assert_eq!(
        router.resolve(&user(1, Some(target("db", 5432)))).unwrap(),
        StoreHandle::External { tenant: 1, connection: 1 }
    );
}

#[test]
fn evicting_from_the_middle_keeps_the_others() {
    let mut router = StorageRouter::new();
    for (i, host) in ["a", "b", "c", "d"].iter().enumerate() {
        router.connected(target(host, 1), i as u64);
    }
    assert_eq!(router.evict(&target("b", 1)), Some(1));
    assert_eq!(router.pooled(), 3);
    for (i, host) in ["a", "c", "d"].iter().enumerate() {
        let expected = [0u64, 2, 3][i];
        assert_eq!(
            router.resolve(&user(1, Some(target(host, 1)))).unwrap(),
            StoreHandle::External { tenant: 1, connection: expected }
        );
    }
}
