use secret_vault::error::{
    ErrorKind, ErrorMessage, ErrorResponse, HttpError, VaultError, BAD_REQUEST, CONFLICT,
    INTERNAL_SERVER_ERROR, NOT_FOUND, UNAUTHORIZED,
};
use secret_vault::text::{to_decimal, to_signed_decimal};

#[test]
fn error_messages_read_as_in_words() {
    assert_eq!(ErrorMessage::EmptyPassword.to_str(), "Password cannot be empty");
    assert_eq!(ErrorMessage::HashingError.to_str(), "Hashing error");
    assert_eq!(ErrorMessage::InvalidHashFormat.to_str(), "Invalid hash format");
    assert_eq!(ErrorMessage::InvalidToken.to_str(), "Invalid token");
    assert_eq!(ErrorMessage::WrongCredentials.to_str(), "Wrong credentials");
    assert_eq!(ErrorMessage::EmailExist.to_str(), "Email already exist");
    assert_eq!(ErrorMessage::UserNoLongerExist.to_str(), "User no longer exist");
    assert_eq!(ErrorMessage::TokenNotProvided.to_str(), "Token not provided");
}

#[test]
fn exceeded_length_message_names_the_length() {
    assert_eq!(
        ErrorMessage::ExceededMaxPasswordLength(6).to_str(),
        "Password cannot exceed 6 characters"
    );
    assert_eq!(
        ErrorMessage::ExceededMaxPasswordLength(64).to_string(),
        "Password cannot exceed 64 characters"
    );
    assert_eq!(
        ErrorMessage::ExceededMaxPasswordLength(0).to_string(),
        "Password cannot exceed 0 characters"
    );
}

#[test]
fn to_string_is_to_str() {
    assert_eq!(ErrorMessage::InvalidToken.to_string(), ErrorMessage::InvalidToken.to_str());
    assert_eq!(ErrorMessage::EmailExist, ErrorMessage::EmailExist);
    assert_ne!(ErrorMessage::ExceededMaxPasswordLength(1), ErrorMessage::ExceededMaxPasswordLength(2));
}

#[test]
fn decimal_numbers_are_written_without_leading_zeros() {
    assert_eq!(to_decimal(0), "0");
    assert_eq!(to_decimal(7), "7");
    assert_eq!(to_decimal(10), "10");
    assert_eq!(to_decimal(909), "909");
    assert_eq!(to_decimal(1234567890), "1234567890");
    assert_eq!(to_decimal(usize::MAX), usize::MAX.to_string());
}

#[test]
fn identifiers_are_written_hyphenated_in_lower_case() {
    let line = |id: u128| VaultError::of_tenant(ErrorKind::NotFound, id).describe();
    assert_eq!(
        line(0xa1a2a3a4b1b2c1c2d1d2d3d4d5d6d7d8),
        "not found: tenant a1a2a3a4-b1b2-c1c2-d1d2-d3d4d5d6d7d8"
    );
    assert_eq!(line(0), "not found: tenant 00000000-0000-0000-0000-000000000000");
    assert_eq!(line(1), "not found: tenant 00000000-0000-0000-0000-000000000001");
    assert_eq!(line(u128::MAX), "not found: tenant ffffffff-ffff-ffff-ffff-ffffffffffff");
    assert_eq!(line(0xABCDEF), "not found: tenant 00000000-0000-0000-0000-000000abcdef");
}

#[test]
fn signed_numbers_are_written_with_their_sign() {
    assert_eq!(to_signed_decimal(0), "0");
    assert_eq!(to_signed_decimal(17), "17");
    assert_eq!(to_signed_decimal(-17), "-17");
    assert_eq!(to_signed_decimal(i32::MAX), "2147483647");
    assert_eq!(to_signed_decimal(i32::MIN), "-2147483648");
}

#[test]
fn vault_errors_are_described_with_their_context() {
    assert_eq!(
        VaultError::of_secret(ErrorKind::NotFound, 0x10, "db-pass", Some(3)).describe(),
        "not found: tenant 00000000-0000-0000-0000-000000000010, secret db-pass, version 3"
    );
    assert_eq!(
        VaultError::of_secret(ErrorKind::DecryptionError, 0x10, "db-pass", None).describe(),
        "secret cannot be decrypted: tenant 00000000-0000-0000-0000-000000000010, secret db-pass"
    );
    assert_eq!(
        VaultError::of_secret(ErrorKind::NotFound, 1, "k", Some(-2)).describe(),
        "not found: tenant 00000000-0000-0000-0000-000000000001, secret k, version -2"
    );
    assert_eq!(
        VaultError::of_tenant(ErrorKind::StoreUnavailable, 2).describe(),
        "store unavailable: tenant 00000000-0000-0000-0000-000000000002"
    );
}

#[test]
fn error_kinds_have_words_and_status_codes() {
    let expected = [
        (ErrorKind::NotFound, "not found", 404),
        (ErrorKind::DuplicateName, "name already in use", 409),
        (ErrorKind::VersionConflict, "version conflict", 409),
        (ErrorKind::UnsupportedMethod, "unsupported encryption method", 400),
        (ErrorKind::DecryptionError, "secret cannot be decrypted", 500),
        (ErrorKind::StoreUnavailable, "store unavailable", 503),
        (ErrorKind::SetupIncomplete, "setup incomplete", 400),
        (ErrorKind::EncryptionFailed, "secret cannot be encrypted", 500),
    ];
    for (kind, words, status) in expected {
        assert_eq!(kind.words(), words);
        assert_eq!(kind.status(), status);
    }
}

#[test]
fn vault_error_becomes_an_http_error() {
    let error = VaultError::of_secret(ErrorKind::NotFound, 7, "db-pass", None);
    let http = HttpError::of_vault_error(&error);
    assert_eq!(http.status, 404);
    assert_eq!(http.message, "not found: tenant 00000000-0000-0000-0000-000000000007, secret db-pass");
    let http = HttpError::of_vault_error(&VaultError::of_tenant(ErrorKind::StoreUnavailable, 7));
    assert_eq!(http.status, 503);
    assert_eq!(http.describe(), "HttpError: message: store unavailable: tenant 00000000-0000-0000-0000-000000000007, status: 503 Service Unavailable");
}

#[test]
fn http_errors_carry_their_status() {
    assert_eq!(HttpError::server_error("a".to_string()).status, 500);
    assert_eq!(HttpError::bad_request("a".to_string()).status, 400);
    assert_eq!(HttpError::unique_constraint_violation("a".to_string()).status, 409);
    assert_eq!(HttpError::unauthorized("a".to_string()).status, 401);
    assert_eq!(HttpError::not_found("a".to_string()).status, 404);
    assert_eq!(HttpError::new("teapot".to_string(), 418).status, 418);
    assert_eq!(HttpError::not_found("gone".to_string()).message, "gone");
    assert_eq!(
        (BAD_REQUEST, UNAUTHORIZED, NOT_FOUND, CONFLICT, INTERNAL_SERVER_ERROR),
        (400, 401, 404, 409, 500)
    );
}

#[test]
fn http_error_is_described_with_its_reason_phrase() {
    assert_eq!(
        HttpError::not_found("no such secret".to_string()).describe(),
        "HttpError: message: no such secret, status: 404 Not Found"
    );
    assert_eq!(
        HttpError::server_error("boom".to_string()).describe(),
        "HttpError: message: boom, status: 500 Internal Server Error"
    );
    assert_eq!(
        HttpError::new("odd".to_string(), 799).describe(),
        "HttpError: message: odd, status: 799 <unknown status code>"
    );
}

#[test]
fn http_error_with_a_code_that_is_no_status_shows_the_bare_code() {
    assert_eq!(HttpError::new("x".to_string(), 99).describe(), "HttpError: message: x, status: 99");
    assert_eq!(
        HttpError::new("x".to_string(), 1000).describe(),
        "HttpError: message: x, status: 1000"
    );
    assert_eq!(HttpError::new("x".to_string(), 0).describe(), "HttpError: message: x, status: 0");
}

#[test]
fn http_response_is_status_and_json_body() {
    let (status, body) = HttpError::bad_request("Name is required".to_string()).into_http_response();
    assert_eq!(status, 400);
    assert_eq!(body, "{\"status\":\"fail\",\"message\":\"Name is required\"}");
    let parsed: serde_json::Value = serde_json::from_str(&body).unwrap();
    assert_eq!(parsed["status"], "fail");
    assert_eq!(parsed["message"], "Name is required");
}

#[test]
fn json_body_escapes_what_json_reserves() {
    let response = ErrorResponse {
        status: "fail".to_string(),
        message: "a \"quoted\" \\ line\nbreak \u{1} é".to_string(),
    };
    let json = response.to_json();
    assert_eq!(
        json,
        "{\"status\":\"fail\",\"message\":\"a \\\"quoted\\\" \\\\ line\\nbreak \\u0001 é\"}"
    );
    let parsed: serde_json::Value = serde_json::from_str(&json).unwrap();
    assert_eq!(parsed["message"], "a \"quoted\" \\ line\nbreak \u{1} é");
}

#[test]
fn error_body_of_http_error_says_fail() {
    let body = HttpError::unauthorized("Token not provided".to_string()).body();
    assert_eq!(body.status, "fail");
    assert_eq!(body.message, "Token not provided");
}

#[test]
fn vault_errors_carry_their_context() {
    let e = VaultError::of_tenant(ErrorKind::StoreUnavailable, 42);
    assert_eq!((e.kind, e.tenant, e.secret.clone(), e.version), (ErrorKind::StoreUnavailable, 42, None, None));
    let e = VaultError::of_secret(ErrorKind::NotFound, 42, "db-pass", Some(3));
    assert_eq!(e.kind, ErrorKind::NotFound);
    assert_eq!(e.tenant, 42);
    assert_eq!(e.secret, Some("db-pass".to_string()));
    assert_eq!(e.version, Some(3));
}

#[test]
fn error_kinds_are_distinct() {
    let kinds = [
        ErrorKind::NotFound,
        ErrorKind::DuplicateName,
        ErrorKind::VersionConflict,
        ErrorKind::UnsupportedMethod,
        ErrorKind::DecryptionError,
        ErrorKind::StoreUnavailable,
        ErrorKind::SetupIncomplete,
        ErrorKind::EncryptionFailed,
    ];
    for (i, a) in kinds.iter().enumerate() {
        for (j, b) in kinds.iter().enumerate() {
            assert_eq!(a == b, i == j);
        }
    }
}
