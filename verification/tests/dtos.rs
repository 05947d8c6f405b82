use secret_vault::config::{Config, DEFAULT_PORT};
use secret_vault::dtos::{
    validate_encryption_method, DatabaseDto, EditSecretDto, EncryptionMethodDto, Field,
    FilterSecretDto, FilterUserDto, Issue, LoginUserDto, NameUpdateDto, RegisterUserDto,
    RequestQueryDto, RequestQuerySecretVersionDto, Rule, SaveSecretDto, SecretResponse,
    UserPasswordUpdateDto,
};
use secret_vault::models::{DbConnection, EncryptionMethod, User};
use secret_vault::text::bytes_to_text;
use secret_vault::vault::SecretSummary;

fn issue(field: Field, rule: Rule) -> Issue {
    Issue { field, rule }
}

fn register(name: &str, email: &str, password: &str, confirm: &str) -> RegisterUserDto {
    RegisterUserDto {
        name: name.to_string(),
        email: email.to_string(),
        password: password.to_string(),
        confirm_password: confirm.to_string(),
    }
}

fn sample_user() -> User {
    User {
        id: 0xa1a2a3a4b1b2c1c2d1d2d3d4d5d6d7d8,
        username: "ada".to_string(),
        email: "ada@example.com".to_string(),
        password: "hash".to_string(),
        encryption_method: Some(EncryptionMethod::Blowfish),
        keys: Some(vec![1, 2, 3]),
        api_key: Some("api-key".to_string()),
        db_connection: None,
        created_at: Some(11),
        updated_at: Some(22),
    }
}

#[test]
fn valid_registration_breaks_no_rule() {
    assert_eq!(register("Ada", "ada@example.com", "123456", "123456").validate(), vec![]);
}

#[test]
fn empty_registration_breaks_every_required_rule() {
    assert_eq!(
        register("", "", "", "").validate(),
        vec![
            issue(Field::Name, Rule::Required),
            issue(Field::Email, Rule::Required),
            issue(Field::Email, Rule::Email),
            issue(Field::Password, Rule::Required),
            issue(Field::ConfirmPassword, Rule::Required),
        ]
    );
}

#[test]
fn registration_checks_email_length_and_match() {
    assert_eq!(
        register("Ada", "not an email", "1234567", "123456").validate(),
        vec![
            issue(Field::Email, Rule::Email),
            issue(Field::Password, Rule::TooLong),
            issue(Field::ConfirmPassword, Rule::MustMatch),
        ]
    );
}

#[test]
fn password_length_counts_characters() {
    assert_eq!(register("Ada", "ada@example.com", "ééééééé", "ééééééé").validate(), vec![
        issue(Field::Password, Rule::TooLong)
    ]);
    assert_eq!(register("Ada", "ada@example.com", "éééééé", "éééééé").validate(), vec![]);
}

#[test]
fn email_rule_follows_the_validator() {
    for good in ["email@here.com", "weirder-email@here.and.there.com", "email@[127.0.0.1]", "abc@bar"] {
        assert_eq!(
            LoginUserDto { email: good.to_string(), password: "pw".to_string() }.validate(),
            vec![]
        );
    }
    for bad in ["abc", "abc@", "a @x.cz", "something@@somewhere.com", "abc@.com"] {
        assert_eq!(
            LoginUserDto { email: bad.to_string(), password: "pw".to_string() }.validate(),
            vec![issue(Field::Email, Rule::Email)]
        );
    }
}

#[test]
fn login_checks_both_fields() {
    assert_eq!(
        LoginUserDto { email: String::new(), password: "1234567".to_string() }.validate(),
        vec![
            issue(Field::Email, Rule::Required),
            issue(Field::Email, Rule::Email),
            issue(Field::Password, Rule::TooLong),
        ]
    );
}

#[test]
fn paging_bounds_are_checked() {
    assert_eq!(RequestQueryDto { page: None, limit: None }.validate(), vec![]);
    assert_eq!(RequestQueryDto { page: Some(1), limit: Some(1) }.validate(), vec![]);
    assert_eq!(RequestQueryDto { page: Some(usize::MAX), limit: Some(50) }.validate(), vec![]);
    assert_eq!(
        RequestQueryDto { page: Some(0), limit: Some(51) }.validate(),
        vec![issue(Field::Page, Rule::OutOfRange), issue(Field::Limit, Rule::OutOfRange)]
    );
    assert_eq!(
        RequestQueryDto { page: None, limit: Some(0) }.validate(),
        vec![issue(Field::Limit, Rule::OutOfRange)]
    );
    assert_eq!(
        RequestQuerySecretVersionDto { page: Some(0), limit: None, id: 1 }.validate(),
        vec![issue(Field::Page, Rule::OutOfRange)]
    );
    assert_eq!(RequestQuerySecretVersionDto { page: Some(2), limit: Some(50), id: 1 }.validate(), vec![]);
}

#[test]
fn name_update_requires_a_name() {
    assert_eq!(NameUpdateDto { name: String::new() }.validate(), vec![issue(Field::Name, Rule::Required)]);
    assert_eq!(NameUpdateDto { name: "x".to_string() }.validate(), vec![]);
}

#[test]
fn password_update_checks_all_three() {
    let dto = UserPasswordUpdateDto {
        password: "abc".to_string(),
        confirm_password: "abd".to_string(),
        old_password: String::new(),
    };
    assert_eq!(
        dto.validate(),
        vec![
            issue(Field::ConfirmPassword, Rule::MustMatch),
            issue(Field::OldPassword, Rule::Required),
        ]
    );
    let dto = UserPasswordUpdateDto {
        password: "abc".to_string(),
        confirm_password: "abc".to_string(),
        old_password: "1234567".to_string(),
    };
    assert_eq!(dto.validate(), vec![issue(Field::OldPassword, Rule::TooLong)]);
}

#[test]
fn database_request_is_checked() {
    let good = DatabaseDto {
        host: "db".to_string(),
        port: 5432,
        username: "u".to_string(),
        password: "p".to_string(),
        database: "d".to_string(),
    };
    assert_eq!(good.validate(), vec![]);
    let bad = DatabaseDto {
        host: String::new(),
        port: 0,
        username: String::new(),
        password: String::new(),
        database: String::new(),
    };
    assert_eq!(
        bad.validate(),
        vec![
            issue(Field::Host, Rule::Required),
            issue(Field::Port, Rule::OutOfRange),
            issue(Field::Username, Rule::Required),
            issue(Field::Password, Rule::Required),
            issue(Field::Database, Rule::Required),
        ]
    );
    let edge = DatabaseDto { port: 65535, ..good };
    assert_eq!(edge.validate(), vec![]);
}

#[test]
fn every_method_is_valid() {
    for method in [
        EncryptionMethod::AES256,
        EncryptionMethod::Chacha20,
        EncryptionMethod::Blowfish,
        EncryptionMethod::DESTripleDES,
    ] {
        assert_eq!(validate_encryption_method(&method), Ok(()));
        assert_eq!(EncryptionMethodDto { encryption_method: method }.validate(), vec![]);
    }
}

#[test]
fn secret_requests_need_name_and_value() {
    assert_eq!(
        SaveSecretDto { secret_name: String::new(), secret_value: String::new() }.validate(),
        vec![issue(Field::SecretName, Rule::Required), issue(Field::SecretValue, Rule::Required)]
    );
    assert_eq!(
        EditSecretDto { secret_name: "n".to_string(), secret_value: String::new() }.validate(),
        vec![issue(Field::SecretValue, Rule::Required)]
    );
    assert_eq!(
        SaveSecretDto { secret_name: "n".to_string(), secret_value: "v".to_string() }.validate(),
        vec![]
    );
}

#[test]
fn issue_messages_are_the_ones_shown() {
    assert_eq!(issue(Field::Name, Rule::Required).message(), "Name is required");
    assert_eq!(issue(Field::Email, Rule::Required).message(), "Email is required");
    assert_eq!(issue(Field::Email, Rule::Email).message(), "Invalid email");
    assert_eq!(issue(Field::Password, Rule::Required).message(), "Password is required");
    assert_eq!(
        issue(Field::Password, Rule::TooLong).message(),
        "Password must be less than 6 characters"
    );
    assert_eq!(
        issue(Field::ConfirmPassword, Rule::Required).message(),
        "Confirm Password is required"
    );
    assert_eq!(issue(Field::ConfirmPassword, Rule::MustMatch).message(), "Passwords do not match");
    assert_eq!(issue(Field::OldPassword, Rule::Required).message(), "Old Password is required");
    assert_eq!(issue(Field::Host, Rule::Required).message(), "Host is required");
    assert_eq!(issue(Field::Port, Rule::OutOfRange).message(), "Port must be between 1 and 65535");
    assert_eq!(issue(Field::Username, Rule::Required).message(), "Username is required");
    assert_eq!(issue(Field::Database, Rule::Required).message(), "Database is required");
    assert_eq!(issue(Field::SecretName, Rule::Required).message(), "Secret Name is required");
    assert_eq!(issue(Field::SecretValue, Rule::Required).message(), "Secret Value is required");
}

#[test]
fn filter_user_hides_password_and_keys() {
    let shown = FilterUserDto::filter_user(&sample_user());
    assert_eq!(shown.id, "a1a2a3a4-b1b2-c1c2-d1d2-d3d4d5d6d7d8");
    assert_eq!(shown.name, "ada");
    assert_eq!(shown.email, "ada@example.com");
    assert_eq!(shown.encryption_method, Some(EncryptionMethod::Blowfish));
    assert_eq!(shown.api_keys, Some("api-key".to_string()));
    assert!(!shown.db_connection_exists);
    assert_eq!(shown.created_at, 11);
    assert_eq!(shown.updated_at, 22);
}

#[test]
fn filter_user_tells_whether_an_external_store_is_set() {
    let mut user = sample_user();
    user.id = 0;
    user.api_key = None;
    user.encryption_method = None;
    user.db_connection = Some(DbConnection {
        host: "h".to_string(),
        port: 1,
        username: "u".to_string(),
        password: "p".to_string(),
        database: "d".to_string(),
    });
    let shown = FilterUserDto::filter_user(&user);
    assert_eq!(shown.id, "00000000-0000-0000-0000-000000000000");
    assert_eq!(shown.api_keys, None);
    assert_eq!(shown.encryption_method, None);
    assert!(shown.db_connection_exists);
}

#[test]
fn secret_response_shows_the_identifier_as_text() {
    let summary = SecretSummary {
        id: 0x0123456789abcdef0fedcba987654321,
        secret_name: "db-pass".to_string(),
        version: 3,
        created_at: Some(5),
        updated_at: None,
    };
    let shown = SecretResponse::of(&summary, "s3cr3t".to_string());
    assert_eq!(shown.id, "01234567-89ab-cdef-0fed-cba987654321");
    assert_eq!(shown.secret_name, "db-pass");
    assert_eq!(shown.secret_value, "s3cr3t");
    assert_eq!(shown.version, 3);
    assert_eq!(shown.created_at, 5);
    assert_eq!(shown.updated_at, 0);
}

#[test]
fn filter_secret_drops_the_timestamps() {
    let secret = SecretResponse {
        id: "id-1".to_string(),
        secret_name: "n".to_string(),
        secret_value: "v".to_string(),
        version: 4,
        created_at: 1,
        updated_at: 2,
    };
    let shown = FilterSecretDto::filter_secret(&secret);
    assert_eq!(shown.id, "id-1");
    assert_eq!(shown.secret_name, "n");
    assert_eq!(shown.secret_value, "v");
    assert_eq!(shown.version, 4);
}

#[test]
fn filter_secrets_keeps_the_order() {
    let secrets: Vec<SecretResponse> = (0..4)
        .map(|i| SecretResponse {
            id: format!("id-{}", i),
            secret_name: format!("n{}", i),
            secret_value: format!("v{}", i),
            version: i,
            created_at: 0,
            updated_at: 0,
        })
        .collect();
    let shown = FilterSecretDto::filter_secrets(&secrets);
    assert_eq!(shown.len(), 4);
    for (i, s) in shown.iter().enumerate() {
        assert_eq!(s.id, format!("id-{}", i));
        assert_eq!(s.secret_name, format!("n{}", i));
        assert_eq!(s.secret_value, format!("v{}", i));
        assert_eq!(s.version, i as i32);
    }
    assert!(FilterSecretDto::filter_secrets(&[]).is_empty());
}

#[test]
fn config_is_made_of_the_values_given() {
    let config = Config::init("postgres://db".to_string(), "jwt".to_string(), "3600");
    assert_eq!(config.database_url, "postgres://db");
    assert_eq!(config.jwt_secret, "jwt");
    assert_eq!(config.jwt_maxage, 3600);
    assert_eq!(config.port, 8000);
    assert_eq!(DEFAULT_PORT, 8000);
    assert_eq!(Config::init(String::new(), String::new(), "-60").jwt_maxage, -60);
    assert_eq!(Config::init(String::new(), String::new(), "+60").jwt_maxage, 60);
    assert_eq!(Config::init(String::new(), String::new(), "0060").jwt_maxage, 60);
    assert_eq!(Config::init(String::new(), String::new(), "-0").jwt_maxage, 0);
    assert_eq!(
        Config::init(String::new(), String::new(), "9223372036854775807").jwt_maxage,
        i64::MAX
    );
    assert_eq!(
        Config::init(String::new(), String::new(), "-9223372036854775808").jwt_maxage,
        i64::MIN
    );
}

#[test]
fn checked_config_is_the_same_where_the_age_is_a_number() {
    let config = Config::try_init("postgres://db".to_string(), "jwt".to_string(), "3600").unwrap();
    assert_eq!(config.database_url, "postgres://db");
    assert_eq!(config.jwt_secret, "jwt");
    assert_eq!(config.jwt_maxage, 3600);
    assert_eq!(config.port, 8000);
}

#[test]
fn checked_config_needs_a_number_for_the_age() {
    for bad in [
        "", "sixty", "60 ", " 60", "60m", "+", "-", "--6", "+-6", "6-", "6.0", "٦٠",
        "9223372036854775808", "-9223372036854775809", "0x10",
    ] {
        assert!(Config::try_init("a".to_string(), "b".to_string(), bad).is_none());
    }
}

#[test]
fn bytes_are_read_as_the_text_they_encode() {
    assert_eq!(bytes_to_text(b"s3cr3t".to_vec()), Some("s3cr3t".to_string()));
    assert_eq!(bytes_to_text("é€😀".as_bytes().to_vec()), Some("é€😀".to_string()));
    assert_eq!(bytes_to_text(Vec::new()), Some(String::new()));
    assert_eq!(bytes_to_text(vec![0xff]), None);
    assert_eq!(bytes_to_text(vec![0xc3]), None);
    assert_eq!(bytes_to_text(vec![0xc0, 0x80]), None);
    assert_eq!(bytes_to_text(vec![0xed, 0xa0, 0x80]), None);
    assert_eq!(bytes_to_text(vec![b'a', 0x80]), None);
}

#[test]
fn secret_response_of_bytes_needs_text() {
    let summary = SecretSummary {
        id: 1,
        secret_name: "n".to_string(),
        version: 2,
        created_at: Some(3),
        updated_at: Some(4),
    };
    let shown = SecretResponse::of_bytes(&summary, "välue".as_bytes().to_vec()).unwrap();
    assert_eq!(shown.id, "00000000-0000-0000-0000-000000000001");
    assert_eq!(shown.secret_name, "n");
    assert_eq!(shown.secret_value, "välue");
    assert_eq!((shown.version, shown.created_at, shown.updated_at), (2, 3, 4));
    assert!(SecretResponse::of_bytes(&summary, vec![0x80]).is_none());
}
