use secret_vault::dtos::FilterSecretDto;
use secret_vault::error::ErrorKind;
use secret_vault::models::{DbConnection, EncryptionMethod, User};
use secret_vault::router::StoreHandle;
use secret_vault::vault::Vault;

fn tenant(id: u128, method: EncryptionMethod, material: &[u8]) -> User {
    User {
        id,
        username: format!("user{}", id),
        email: format!("user{}@example.com", id),
        password: String::new(),
        encryption_method: Some(method),
        keys: Some(material.to_vec()),
        api_key: None,
        db_connection: None,
        created_at: Some(1),
        updated_at: Some(1),
    }
}

fn descriptor(host: &str) -> DbConnection {
    DbConnection {
        host: host.to_string(),
        port: 5432,
        username: "vault".to_string(),
        password: "pw".to_string(),
        database: "secrets".to_string(),
    }
}

fn external_tenant(id: u128, host: &str) -> User {
    let mut user = tenant(id, EncryptionMethod::Chacha20, b"external material");
    user.db_connection = Some(descriptor(host));
    user
}

fn methods() -> Vec<EncryptionMethod> {
    vec![
        EncryptionMethod::AES256,
        EncryptionMethod::Chacha20,
        EncryptionMethod::Blowfish,
        EncryptionMethod::DESTripleDES,
    ]
}

#[test]
fn scenario_create_update_read_and_list() {
    let mut vault = Vault::new();
    let a = tenant(1, EncryptionMethod::AES256, b"tenant A material");
    let created = vault.put_secret(&a, "db-pass", b"s3cr3t").unwrap();
    assert_eq!(created.version, 1);
    assert_eq!(created.secret_name, "db-pass");
    let updated = vault.put_secret(&a, "db-pass", b"s3cr3t2").unwrap();
    assert_eq!(updated.version, 2);
    assert_eq!(updated.id, created.id);
    assert_eq!(vault.get_secret(&a, "db-pass").unwrap(), b"s3cr3t2".to_vec());
    assert_eq!(vault.get_secret_version(&a, "db-pass", 2).unwrap(), b"s3cr3t2".to_vec());
    assert_eq!(vault.get_secret_version(&a, "db-pass", 1).unwrap(), b"s3cr3t".to_vec());
    let listed = vault.list_secret_versions(&a, "db-pass", 1, 50).unwrap();
    assert_eq!(listed.iter().map(|s| s.version).collect::<Vec<_>>(), vec![2, 1]);
    assert!(listed.iter().all(|s| s.secret_name == "db-pass" && s.id == created.id));
}

#[test]
fn get_after_put_returns_version_one_with_the_plaintext() {
    for (i, method) in methods().into_iter().enumerate() {
        let mut vault = Vault::new();
        let user = tenant(i as u128, method, b"material");
        let summary = vault.put_secret(&user, "name", b"plain text value").unwrap();
        assert_eq!(summary.version, 1);
        assert_eq!(vault.get_secret(&user, "name").unwrap(), b"plain text value".to_vec());
        assert_eq!(vault.get_secret_version(&user, "name", 1).unwrap(), b"plain text value".to_vec());
    }
}

#[test]
fn every_version_reads_as_it_was_written() {
    for (i, method) in methods().into_iter().enumerate() {
        let mut vault = Vault::new();
        let user = tenant(i as u128, method, b"material");
        let n = 12;
        for k in 1..=n {
            let summary = vault.put_secret(&user, "counter", format!("value {}", k).as_bytes()).unwrap();
            assert_eq!(summary.version, k);
        }
        for k in 1..=n {
            assert_eq!(
                vault.get_secret_version(&user, "counter", k).unwrap(),
                format!("value {}", k).into_bytes()
            );
        }
        assert_eq!(vault.get_secret(&user, "counter").unwrap(), format!("value {}", n).into_bytes());
        let listed = vault.list_secret_versions(&user, "counter", 1, 50).unwrap();
        assert_eq!(listed.iter().map(|s| s.version).collect::<Vec<_>>(), (1..=n).rev().collect::<Vec<_>>());
        assert_eq!(
            vault.get_secret_version(&user, "counter", n + 1).unwrap_err().kind,
            ErrorKind::NotFound
        );
        assert_eq!(vault.get_secret_version(&user, "counter", 0).unwrap_err().kind, ErrorKind::NotFound);
    }
}

#[test]
fn put_with_nonce_and_time_is_exact() {
    let mut vault = Vault::new();
    let user = tenant(7, EncryptionMethod::Blowfish, b"material");
    let summary = vault.put_secret_with(&user, "k", b"v1", &[1u8; 8], 1000).unwrap();
    assert_eq!(summary.id, 0);
    assert_eq!(summary.version, 1);
    assert_eq!(summary.created_at, Some(1000));
    assert_eq!(summary.updated_at, Some(1000));
    let summary = vault.put_secret_with(&user, "k", b"v2", &[2u8; 8], 2000).unwrap();
    assert_eq!(summary.version, 2);
    assert_eq!(summary.created_at, Some(1000));
    assert_eq!(summary.updated_at, Some(2000));
    let listed = vault.list_secret_versions(&user, "k", 1, 10).unwrap();
    assert_eq!(listed[0].created_at, Some(2000));
    assert_eq!(listed[1].created_at, Some(1000));
    assert_eq!(vault.get_secret(&user, "k").unwrap(), b"v2".to_vec());
}

#[test]
fn put_with_bad_nonce_fails_and_writes_nothing() {
    let mut vault = Vault::new();
    let user = tenant(7, EncryptionMethod::AES256, b"material");
    let error = vault.put_secret_with(&user, "k", b"v", &[0u8; 8], 1).unwrap_err();
    assert_eq!(error.kind, ErrorKind::EncryptionFailed);
    assert_eq!(error.tenant, 7);
    assert_eq!(error.secret, Some("k".to_string()));
    assert_eq!(vault.get_secret(&user, "k").unwrap_err().kind, ErrorKind::NotFound);
}

#[test]
fn put_stamps_the_time_of_the_clock() {
    let mut vault = Vault::new();
    let user = tenant(1, EncryptionMethod::AES256, b"m");
    let first = vault.put_secret(&user, "k", b"v").unwrap();
    let second = vault.put_secret(&user, "k", b"w").unwrap();
    let year_2020_in_micros: i64 = 1_577_836_800_000_000;
    assert!(first.created_at.unwrap() > year_2020_in_micros);
    assert!(second.updated_at.unwrap() >= first.updated_at.unwrap());
    assert_eq!(second.created_at, first.created_at);
}

#[test]
fn tenant_without_keys_has_incomplete_setup() {
    let mut vault = Vault::new();
    let mut user = tenant(3, EncryptionMethod::AES256, b"m");
    user.keys = None;
    let error = vault.put_secret(&user, "k", b"v").unwrap_err();
    assert_eq!(error.kind, ErrorKind::SetupIncomplete);
    assert_eq!(error.tenant, 3);
    assert_eq!(error.secret, None);
    assert_eq!(vault.get_secret(&user, "k").unwrap_err().kind, ErrorKind::SetupIncomplete);
    assert_eq!(vault.get_secret_version(&user, "k", 1).unwrap_err().kind, ErrorKind::SetupIncomplete);
    assert_eq!(
        vault.list_secret_versions(&user, "k", 1, 10).unwrap_err().kind,
        ErrorKind::SetupIncomplete
    );
    assert_eq!(vault.delete_secret(&user, "k").unwrap_err().kind, ErrorKind::SetupIncomplete);
}

#[test]
fn tenant_without_method_is_unsupported() {
    let mut vault = Vault::new();
    let mut user = tenant(3, EncryptionMethod::AES256, b"m");
    user.encryption_method = None;
    let error = vault.put_secret(&user, "k", b"v").unwrap_err();
    assert_eq!(error.kind, ErrorKind::UnsupportedMethod);
    assert_eq!(error.tenant, 3);
    assert_eq!(vault.get_secret(&user, "k").unwrap_err().kind, ErrorKind::UnsupportedMethod);
    user.keys = None;
    assert_eq!(vault.get_secret(&user, "k").unwrap_err().kind, ErrorKind::SetupIncomplete);
}

#[test]
fn missing_secret_is_not_found() {
    let mut vault = Vault::new();
    let user = tenant(1, EncryptionMethod::AES256, b"m");
    let error = vault.get_secret(&user, "nope").unwrap_err();
    assert_eq!(error.kind, ErrorKind::NotFound);
    assert_eq!(error.tenant, 1);
    assert_eq!(error.secret, Some("nope".to_string()));
    assert_eq!(error.version, None);
    vault.put_secret(&user, "there", b"v").unwrap();
    assert_eq!(vault.get_secret(&user, "nope").unwrap_err().kind, ErrorKind::NotFound);
    let error = vault.get_secret_version(&user, "there", 2).unwrap_err();
    assert_eq!(error.kind, ErrorKind::NotFound);
    assert_eq!(error.version, Some(2));
    assert_eq!(error.secret, Some("there".to_string()));
    assert_eq!(vault.list_secret_versions(&user, "nope", 1, 10).unwrap_err().kind, ErrorKind::NotFound);
    assert_eq!(vault.delete_secret(&user, "nope").unwrap_err().kind, ErrorKind::NotFound);
}

#[test]
fn changed_key_material_is_a_decryption_error_not_absence() {
    let mut vault = Vault::new();
    for (i, method) in methods().into_iter().enumerate() {
        let user = tenant(i as u128, method, b"first material");
        vault.put_secret(&user, "k", b"value").unwrap();
        let mut rotated = user.clone();
        rotated.keys = Some(b"second material".to_vec());
        let error = vault.get_secret(&rotated, "k").unwrap_err();
        assert_eq!(error.kind, ErrorKind::DecryptionError);
        assert_eq!(error.secret, Some("k".to_string()));
        assert_eq!(vault.get_secret_version(&rotated, "k", 1).unwrap_err().kind, ErrorKind::DecryptionError);
        assert_eq!(vault.get_secret(&rotated, "absent").unwrap_err().kind, ErrorKind::NotFound);
        assert_eq!(vault.get_secret(&user, "k").unwrap(), b"value".to_vec());
    }
}

#[test]
fn changed_method_is_a_decryption_error() {
    let mut vault = Vault::new();
    let user = tenant(1, EncryptionMethod::AES256, b"material");
    vault.put_secret(&user, "k", b"value").unwrap();
    for method in methods() {
        if method != EncryptionMethod::AES256 {
            let mut switched = user.clone();
            switched.encryption_method = Some(method);
            assert_eq!(vault.get_secret(&switched, "k").unwrap_err().kind, ErrorKind::DecryptionError);
        }
    }
}

#[test]
fn tenants_do_not_see_each_other() {
    let mut vault = Vault::new();
    let a = tenant(1, EncryptionMethod::AES256, b"a");
    let b = tenant(2, EncryptionMethod::AES256, b"a");
    vault.put_secret(&a, "shared-name", b"of a").unwrap();
    assert_eq!(vault.get_secret(&b, "shared-name").unwrap_err().kind, ErrorKind::NotFound);
    let summary = vault.put_secret(&b, "shared-name", b"of b").unwrap();
    assert_eq!(summary.version, 1);
    vault.put_secret(&b, "shared-name", b"of b again").unwrap();
    assert_eq!(vault.get_secret(&a, "shared-name").unwrap(), b"of a".to_vec());
    assert_eq!(vault.get_secret(&b, "shared-name").unwrap(), b"of b again".to_vec());
    assert_eq!(vault.list_secret_versions(&a, "shared-name", 1, 10).unwrap().len(), 1);
    assert_eq!(vault.list_secret_versions(&b, "shared-name", 1, 10).unwrap().len(), 2);
}

#[test]
fn external_tenant_is_unavailable_until_connected() {
    let mut vault = Vault::new();
    let user = external_tenant(5, "db.tenant");
    let error = vault.put_secret(&user, "k", b"v").unwrap_err();
    assert_eq!(error.kind, ErrorKind::StoreUnavailable);
    assert_eq!(error.tenant, 5);
    assert_eq!(vault.get_secret(&user, "k").unwrap_err().kind, ErrorKind::StoreUnavailable);
    assert_eq!(vault.resolve(&user).unwrap_err().kind, ErrorKind::StoreUnavailable);
    let request = vault.connection_request(&user).unwrap();
    assert!(request.same_target(&descriptor("db.tenant")));
    assert_eq!(vault.connected(request, 77), 77);
    assert_eq!(vault.connection_request(&user).map(|d| d.host), None);
    assert_eq!(vault.resolve(&user).unwrap(), StoreHandle::External { tenant: 5, connection: 77 });
    vault.put_secret(&user, "k", b"v").unwrap();
    assert_eq!(vault.get_secret(&user, "k").unwrap(), b"v".to_vec());
}

#[test]
fn external_tenant_never_falls_back_to_the_shared_store() {
    let mut vault = Vault::new();
    let mut user = tenant(5, EncryptionMethod::AES256, b"m");
    vault.put_secret(&user, "k", b"in shared").unwrap();
    user.db_connection = Some(descriptor("db.tenant"));
    assert_eq!(vault.get_secret(&user, "k").unwrap_err().kind, ErrorKind::StoreUnavailable);
    vault.connected(descriptor("db.tenant"), 1);
    assert_eq!(vault.get_secret(&user, "k").unwrap_err().kind, ErrorKind::NotFound);
    vault.put_secret(&user, "k", b"in external").unwrap();
    assert_eq!(vault.get_secret(&user, "k").unwrap(), b"in external".to_vec());
    user.db_connection = None;
    assert_eq!(vault.get_secret(&user, "k").unwrap(), b"in shared".to_vec());
}

#[test]
fn failed_connection_is_scoped_to_its_descriptor() {
    let mut vault = Vault::new();
    let first = external_tenant(1, "db.one");
    let second = external_tenant(2, "db.one");
    let other = external_tenant(3, "db.two");
    let shared = tenant(4, EncryptionMethod::AES256, b"m");
    vault.connected(descriptor("db.one"), 10);
    vault.connected(descriptor("db.two"), 20);
    vault.put_secret(&first, "k", b"one").unwrap();
    vault.put_secret(&second, "k", b"two").unwrap();
    vault.put_secret(&other, "k", b"three").unwrap();
    vault.put_secret(&shared, "k", b"four").unwrap();
    assert_eq!(vault.resolve(&first).unwrap(), StoreHandle::External { tenant: 1, connection: 10 });
    assert_eq!(vault.resolve(&second).unwrap(), StoreHandle::External { tenant: 2, connection: 10 });
    assert_eq!(vault.connection_failed(&descriptor("db.one")), Some(10));
    assert_eq!(vault.connection_failed(&descriptor("db.one")), None);
    assert_eq!(vault.get_secret(&second, "k").unwrap_err().kind, ErrorKind::StoreUnavailable);
    assert_eq!(vault.get_secret(&other, "k").unwrap(), b"three".to_vec());
    assert_eq!(vault.get_secret(&shared, "k").unwrap(), b"four".to_vec());
    assert_eq!(vault.resolve(&other).unwrap(), StoreHandle::External { tenant: 3, connection: 20 });
    let request = vault.connection_request(&second).unwrap();
    assert_eq!(vault.connected(request, 11), 11);
    assert_eq!(vault.resolve(&second).unwrap(), StoreHandle::External { tenant: 2, connection: 11 });
    assert_eq!(vault.get_secret(&second, "k").unwrap(), b"two".to_vec());
    assert_eq!(vault.get_secret(&first, "k").unwrap(), b"one".to_vec());
}

#[test]
fn list_secret_versions_pages() {
    let mut vault = Vault::new();
    let user = tenant(1, EncryptionMethod::Chacha20, b"m");
    for k in 0..5 {
        vault.put_secret(&user, "k", &[k]).unwrap();
    }
    let page = |vault: &Vault, p: usize, size: usize| -> Vec<i32> {
        vault.list_secret_versions(&user, "k", p, size).unwrap().iter().map(|s| s.version).collect()
    };
    assert_eq!(page(&vault, 1, 2), vec![5, 4]);
    assert_eq!(page(&vault, 2, 2), vec![3, 2]);
    assert_eq!(page(&vault, 3, 2), vec![1]);
    assert_eq!(page(&vault, 4, 2), Vec::<i32>::new());
    assert_eq!(page(&vault, 0, 2), Vec::<i32>::new());
    assert_eq!(page(&vault, 1, 0), Vec::<i32>::new());
    assert_eq!(page(&vault, 1, 51), Vec::<i32>::new());
    assert_eq!(page(&vault, 1, 50), vec![5, 4, 3, 2, 1]);
}

#[test]
fn delete_secret_frees_the_name() {
    let mut vault = Vault::new();
    let user = tenant(1, EncryptionMethod::AES256, b"m");
    let first = vault.put_secret(&user, "k", b"old").unwrap();
    vault.put_secret(&user, "k", b"older").unwrap();
    assert!(vault.delete_secret(&user, "k").is_ok());
    assert_eq!(vault.get_secret(&user, "k").unwrap_err().kind, ErrorKind::NotFound);
    assert_eq!(vault.delete_secret(&user, "k").unwrap_err().kind, ErrorKind::NotFound);
    let again = vault.put_secret(&user, "k", b"new").unwrap();
    assert_eq!(again.version, 1);
    assert_ne!(again.id, first.id);
    assert_eq!(vault.get_secret(&user, "k").unwrap(), b"new".to_vec());
}

#[test]
fn empty_values_and_names_are_stored() {
    let mut vault = Vault::new();
    for (i, method) in methods().into_iter().enumerate() {
        let user = tenant(i as u128, method, b"m");
        vault.put_secret(&user, "", b"").unwrap();
        assert_eq!(vault.get_secret(&user, "").unwrap(), Vec::<u8>::new());
    }
}

#[test]
fn has_secrets_tells_whether_a_tenant_ever_stored_one() {
    let mut vault = Vault::new();
    let user = tenant(1, EncryptionMethod::AES256, b"m");
    assert!(!vault.has_secrets(1));
    assert!(vault.put_secret_with(&user, "k", b"v", &[0u8; 3], 1).is_err());
    assert!(!vault.has_secrets(1));
    vault.put_secret(&user, "k", b"v").unwrap();
    assert!(vault.has_secrets(1));
    assert!(!vault.has_secrets(2));
    vault.delete_secret(&user, "k").unwrap();
    assert!(vault.has_secrets(1));
    let mut external = external_tenant(3, "db");
    vault.connected(descriptor("db"), 1);
    vault.put_secret(&external, "k", b"v").unwrap();
    external.db_connection = None;
    assert!(vault.has_secrets(3));
}

#[test]
fn renamed_secret_reads_under_the_new_name() {
    for (i, method) in methods().into_iter().enumerate() {
        let mut vault = Vault::new();
        let user = tenant(i as u128, method, b"m");
        vault.put_secret(&user, "old", b"first").unwrap();
        vault.put_secret(&user, "old", b"second").unwrap();
        let summary = vault.rename_secret(&user, "old", "new").unwrap();
        assert_eq!(summary.secret_name, "new");
        assert_eq!(summary.version, 3);
        assert_eq!(vault.get_secret(&user, "new").unwrap(), b"second".to_vec());
        assert_eq!(vault.get_secret(&user, "old").unwrap_err().kind, ErrorKind::NotFound);
        assert_eq!(vault.get_secret_version(&user, "new", 1).unwrap(), b"first".to_vec());
        assert_eq!(vault.get_secret_version(&user, "new", 2).unwrap(), b"second".to_vec());
        assert_eq!(vault.get_secret_version(&user, "new", 3).unwrap(), b"second".to_vec());
        let listed = vault.list_secret_versions(&user, "new", 1, 50).unwrap();
        let names: Vec<(i32, &str)> =
            listed.iter().map(|s| (s.version, s.secret_name.as_str())).collect();
        assert_eq!(names, vec![(3, "new"), (2, "old"), (1, "old")]);
    }
}

#[test]
fn rename_secret_reports_why_it_failed() {
    let mut vault = Vault::new();
    let user = tenant(1, EncryptionMethod::AES256, b"m");
    vault.put_secret(&user, "a", b"1").unwrap();
    vault.put_secret(&user, "b", b"2").unwrap();
    let error = vault.rename_secret(&user, "a", "b").unwrap_err();
    assert_eq!(error.kind, ErrorKind::DuplicateName);
    assert_eq!(error.secret, Some("a".to_string()));
    assert_eq!(vault.rename_secret(&user, "c", "d").unwrap_err().kind, ErrorKind::NotFound);
    let summary = vault.rename_secret_at(&user, "a", "c", 77).unwrap();
    assert_eq!(summary.updated_at, Some(77));
    assert_eq!(summary.version, 2);
    let mut unset = user.clone();
    unset.keys = None;
    assert_eq!(vault.rename_secret(&unset, "b", "e").unwrap_err().kind, ErrorKind::SetupIncomplete);
    let other = tenant(2, EncryptionMethod::AES256, b"m");
    assert_eq!(vault.rename_secret(&other, "b", "e").unwrap_err().kind, ErrorKind::NotFound);
    assert_eq!(vault.get_secret(&user, "b").unwrap(), b"2".to_vec());
}

#[test]
fn created_text_is_shown_at_version_one() {
    for (i, method) in methods().into_iter().enumerate() {
        let mut vault = Vault::new();
        let user = tenant(i as u128, method, b"m");
        let summary = vault.create_secret(&user, "db-pass", "s3cr3t é".as_bytes()).unwrap();
        assert_eq!(summary.version, 1);
        let response = vault.show_secret(&user, "db-pass").unwrap();
        assert_eq!(response.version, 1);
        assert_eq!(response.secret_value, "s3cr3t é");
        assert_eq!(response.secret_name, "db-pass");
        assert_eq!(response.id, "00000000-0000-0000-0000-000000000000");
        assert_eq!(Some(response.created_at), summary.created_at);
        let shown = FilterSecretDto::filter_secret(&response);
        assert_eq!(shown.version, 1);
        assert_eq!(shown.secret_value, "s3cr3t é");
        assert_eq!(shown.secret_name, "db-pass");
        assert_eq!(shown.id, response.id);
    }
}

#[test]
fn create_secret_refuses_a_used_name_and_changes_no_listing() {
    let mut vault = Vault::new();
    let user = tenant(1, EncryptionMethod::AES256, b"m");
    vault.create_secret(&user, "a", b"one").unwrap();
    vault.put_secret(&user, "a", b"two").unwrap();
    vault.create_secret(&user, "b", b"three").unwrap();
    let before = FilterSecretDto::filter_secrets(&vault.show_secrets(&user).unwrap());
    let error = vault.create_secret(&user, "a", b"four").unwrap_err();
    assert_eq!(error.kind, ErrorKind::DuplicateName);
    assert_eq!(error.tenant, 1);
    assert_eq!(error.secret, Some("a".to_string()));
    let error = vault.create_secret_with(&user, "b", b"four", &[0u8; 12], 9).unwrap_err();
    assert_eq!(error.kind, ErrorKind::DuplicateName);
    let after = FilterSecretDto::filter_secrets(&vault.show_secrets(&user).unwrap());
    assert_eq!(before.len(), 2);
    assert_eq!(after.len(), before.len());
    for (x, y) in before.iter().zip(after.iter()) {
        assert_eq!((&x.id, &x.secret_name, &x.secret_value, x.version), (&y.id, &y.secret_name, &y.secret_value, y.version));
    }
    assert_eq!(after[0].secret_value, "two");
    assert_eq!(after[0].version, 2);
    assert_eq!(after[1].secret_value, "three");
}

#[test]
fn create_secret_with_is_exact() {
    let mut vault = Vault::new();
    let user = tenant(1, EncryptionMethod::DESTripleDES, b"m");
    let summary = vault.create_secret_with(&user, "k", b"v", &[1u8; 8], 42).unwrap();
    assert_eq!((summary.id, summary.version, summary.created_at), (0, 1, Some(42)));
    assert_eq!(
        vault.create_secret_with(&user, "other", b"v", &[1u8; 7], 43).unwrap_err().kind,
        ErrorKind::EncryptionFailed
    );
    let mut unset = user.clone();
    unset.keys = None;
    assert_eq!(vault.create_secret(&unset, "k", b"v").unwrap_err().kind, ErrorKind::SetupIncomplete);
    let away = external_tenant(2, "db");
    assert_eq!(vault.create_secret(&away, "k", b"v").unwrap_err().kind, ErrorKind::StoreUnavailable);
    assert_eq!(vault.show_secrets(&user).unwrap().len(), 1);
}

#[test]
fn every_written_text_is_shown_for_its_version() {
    let mut vault = Vault::new();
    let user = tenant(1, EncryptionMethod::Blowfish, b"m");
    let n = 7;
    for k in 1..=n {
        vault.put_secret(&user, "k", format!("text {}", k).as_bytes()).unwrap();
    }
    let current = vault.show_secret(&user, "k").unwrap();
    assert_eq!((current.version, current.secret_value.as_str()), (n, "text 7"));
    for k in 1..=n {
        let response = vault.show_secret_version(&user, "k", k).unwrap();
        assert_eq!(response.version, k);
        assert_eq!(response.secret_value, format!("text {}", k));
        assert_eq!(response.secret_name, "k");
    }
    let listed = FilterSecretDto::filter_secrets(&vault.show_secret_versions(&user, "k", 1, 50).unwrap());
    assert_eq!(listed.len(), n as usize);
    for (i, entry) in listed.iter().enumerate() {
        assert_eq!(entry.version, n - i as i32);
        assert_eq!(entry.secret_value, format!("text {}", n - i as i32));
    }
    let second_page = vault.show_secret_versions(&user, "k", 2, 3).unwrap();
    assert_eq!(
        second_page.iter().map(|r| (r.version, r.secret_value.clone())).collect::<Vec<_>>(),
        vec![(4, "text 4".to_string()), (3, "text 3".to_string()), (2, "text 2".to_string())]
    );
    assert!(vault.show_secret_versions(&user, "k", 4, 3).unwrap().is_empty());
    assert_eq!(vault.show_secret_version(&user, "k", 8).unwrap_err().kind, ErrorKind::NotFound);
    assert_eq!(vault.show_secret_versions(&user, "x", 1, 3).unwrap_err().kind, ErrorKind::NotFound);
    assert_eq!(vault.show_secret(&user, "x").unwrap_err().kind, ErrorKind::NotFound);
}

#[test]
fn two_writes_to_one_secret_get_two_versions() {
    let mut vault = Vault::new();
    let user = tenant(1, EncryptionMethod::Chacha20, b"m");
    vault.put_secret(&user, "k", b"before").unwrap();
    let first = vault.put_secret(&user, "k", b"q1").unwrap();
    let second = vault.put_secret(&user, "k", b"q2").unwrap();
    assert_ne!(first.version, second.version);
    assert_eq!((first.version, second.version), (2, 3));
    let current = vault.show_secret(&user, "k").unwrap();
    assert_eq!((current.version, current.secret_value.as_str()), (3, "q2"));
    let listed = vault.show_secret_versions(&user, "k", 1, 50).unwrap();
    let versions: Vec<i32> = listed.iter().map(|r| r.version).collect();
    assert_eq!(versions, vec![3, 2, 1]);
    assert_eq!(listed.iter().filter(|r| r.secret_value == "q1").count(), 1);
    assert_eq!(listed.iter().filter(|r| r.secret_value == "q2").count(), 1);
}

#[test]
fn value_that_is_no_text_cannot_be_shown() {
    let mut vault = Vault::new();
    let user = tenant(1, EncryptionMethod::AES256, b"m");
    vault.put_secret(&user, "text", b"fine").unwrap();
    vault.put_secret(&user, "blob", &[0xff, 0xfe, 0x00]).unwrap();
    assert_eq!(vault.get_secret(&user, "blob").unwrap(), vec![0xff, 0xfe, 0x00]);
    let error = vault.show_secret(&user, "blob").unwrap_err();
    assert_eq!(error.kind, ErrorKind::DecryptionError);
    assert_eq!(error.secret, Some("blob".to_string()));
    assert_eq!(vault.show_secret_version(&user, "blob", 1).unwrap_err().kind, ErrorKind::DecryptionError);
    assert_eq!(vault.show_secret_versions(&user, "blob", 1, 5).unwrap_err().kind, ErrorKind::DecryptionError);
    let error = vault.show_secrets(&user).unwrap_err();
    assert_eq!(error.kind, ErrorKind::DecryptionError);
    assert_eq!(error.secret, Some("blob".to_string()));
    assert_eq!(vault.show_secret(&user, "text").unwrap().secret_value, "fine");
}

#[test]
fn show_secrets_lists_live_secrets_in_creation_order() {
    let mut vault = Vault::new();
    let user = tenant(1, EncryptionMethod::AES256, b"m");
    assert!(vault.show_secrets(&user).unwrap().is_empty());
    vault.put_secret(&user, "a", b"1").unwrap();
    vault.put_secret(&user, "b", b"2").unwrap();
    vault.put_secret(&user, "c", b"3").unwrap();
    vault.put_secret(&user, "a", b"4").unwrap();
    vault.delete_secret(&user, "b").unwrap();
    let shown = vault.show_secrets(&user).unwrap();
    let seen: Vec<(&str, &str, i32)> =
        shown.iter().map(|r| (r.secret_name.as_str(), r.secret_value.as_str(), r.version)).collect();
    assert_eq!(seen, vec![("a", "4", 2), ("c", "3", 1)]);
    let other = tenant(2, EncryptionMethod::AES256, b"m");
    assert!(vault.show_secrets(&other).unwrap().is_empty());
    let mut rotated = user.clone();
    rotated.keys = Some(b"changed".to_vec());
    assert_eq!(vault.show_secrets(&rotated).unwrap_err().kind, ErrorKind::DecryptionError);
    rotated.keys = None;
    let error = vault.show_secrets(&rotated).unwrap_err();
    assert_eq!((error.kind, error.secret), (ErrorKind::SetupIncomplete, None));
}
