//! The failures the vault reports, and the forms in which they are shown.

use vstd::prelude::*;
use crate::text::{
    decimal,
    json_quote,
    json_quoted,
    signed_decimal,
    status_line,
    status_to_text,
    to_decimal,
    to_signed_decimal,
    uuid_text,
    uuid_to_text,
};

verus! {

/// Why a vault operation did not succeed.
#[derive(Clone, Copy, Debug, PartialEq, Eq, Structural)]
pub enum ErrorKind {
    /// No such secret or version.
    NotFound,
    /// A secret with that name already exists for the tenant.
    DuplicateName,
    /// The write was based on a version that is no longer current, or no
    /// further version number can be assigned.
    VersionConflict,
    /// The tenant has no valid cipher selected.
    UnsupportedMethod,
    /// The stored bytes cannot be read back: tampering, a changed key or
    /// corruption.
    DecryptionError,
    /// The tenant's external store cannot be reached.
    StoreUnavailable,
    /// The tenant has no key material yet.
    SetupIncomplete,
    /// The cipher refused to seal the value.
    EncryptionFailed,
}

/// A failure of a vault operation, with what is needed to find its cause:
/// the tenant, and the secret and version asked for where there were any.
/// It never holds key material or a secret's value.
#[derive(Clone, Debug)]
pub struct VaultError {
    pub kind: ErrorKind,
    pub tenant: u128,
    pub secret: Option<String>,
    pub version: Option<i32>,
}

/// The mathematical value of a [`VaultError`].
pub struct VaultErrorView {
    pub kind: ErrorKind,
    pub tenant: u128,
    pub secret: Option<Seq<char>>,
    pub version: Option<i32>,
}

impl View for VaultError {
    type V = VaultErrorView;

    open spec fn view(&self) -> VaultErrorView {
        VaultErrorView {
            kind: self.kind,
            tenant: self.tenant,
            secret: match self.secret {
                Some(name) => Some(name@),
                None => None,
            },
            version: self.version,
        }
    }
}

impl ErrorKind {
    /// The kind in words.
    pub open spec fn spec_words(self) -> Seq<char> {
        match self {
            ErrorKind::NotFound => "not found"@,
            ErrorKind::DuplicateName => "name already in use"@,
            ErrorKind::VersionConflict => "version conflict"@,
            ErrorKind::UnsupportedMethod => "unsupported encryption method"@,
            ErrorKind::DecryptionError => "secret cannot be decrypted"@,
            ErrorKind::StoreUnavailable => "store unavailable"@,
            ErrorKind::SetupIncomplete => "setup incomplete"@,
            ErrorKind::EncryptionFailed => "secret cannot be encrypted"@,
        }
    }

    /// The status code under which the kind is reported over HTTP.
    pub open spec fn spec_status(self) -> u16 {
        match self {
            ErrorKind::NotFound => NOT_FOUND,
            ErrorKind::DuplicateName => CONFLICT,
            ErrorKind::VersionConflict => CONFLICT,
            ErrorKind::UnsupportedMethod => BAD_REQUEST,
            ErrorKind::DecryptionError => INTERNAL_SERVER_ERROR,
            ErrorKind::StoreUnavailable => SERVICE_UNAVAILABLE,
            ErrorKind::SetupIncomplete => BAD_REQUEST,
            ErrorKind::EncryptionFailed => INTERNAL_SERVER_ERROR,
        }
    }

    /// Writes the kind in words.
    pub fn words(self) -> (text: String)
        ensures
            text@ == self.spec_words(),
    {
        let text = match self {
            ErrorKind::NotFound => "not found",
            ErrorKind::DuplicateName => "name already in use",
            ErrorKind::VersionConflict => "version conflict",
            ErrorKind::UnsupportedMethod => "unsupported encryption method",
            ErrorKind::DecryptionError => "secret cannot be decrypted",
            ErrorKind::StoreUnavailable => "store unavailable",
            ErrorKind::SetupIncomplete => "setup incomplete",
            ErrorKind::EncryptionFailed => "secret cannot be encrypted",
        };
        text.to_owned()
    }

    /// The status code under which the kind is reported over HTTP.
    #[verifier::when_used_as_spec(spec_status)]
    pub fn status(self) -> (code: u16)
        ensures
            code == self.spec_status(),
    {
        match self {
            ErrorKind::NotFound => NOT_FOUND,
            ErrorKind::DuplicateName => CONFLICT,
            ErrorKind::VersionConflict => CONFLICT,
            ErrorKind::UnsupportedMethod => BAD_REQUEST,
            ErrorKind::DecryptionError => INTERNAL_SERVER_ERROR,
            ErrorKind::StoreUnavailable => SERVICE_UNAVAILABLE,
            ErrorKind::SetupIncomplete => BAD_REQUEST,
            ErrorKind::EncryptionFailed => INTERNAL_SERVER_ERROR,
        }
    }
}

impl VaultErrorView {
    /// The failure in one line: the kind in words, the tenant, and the
    /// secret and version where the failure names them.
    pub open spec fn described(self) -> Seq<char> {
        self.kind.spec_words() + ": tenant "@ + uuid_text(self.tenant) + match self.secret {
            Some(name) => ", secret "@ + name,
            None => Seq::empty(),
        } + match self.version {
            Some(version) => ", version "@ + signed_decimal(version as int),
            None => Seq::empty(),
        }
    }
}

impl VaultError {
    /// Writes the failure in one line: the kind in words, the tenant, and
    /// the secret and version where the failure names them.
    pub fn describe(&self) -> (line: String)
        ensures
            line@ == self@.described(),
    {
        let mut line = self.kind.words();
        line.append(": tenant ");
        line.append(uuid_to_text(self.tenant).as_str());
        match &self.secret {
            Some(name) => {
                line.append(", secret ");
                line.append(name.as_str());
            },
            None => {},
        }
        match self.version {
            Some(version) => {
                line.append(", version ");
                line.append(to_signed_decimal(version).as_str());
            },
            None => {},
        }
        assert(line@ =~= self@.described());
        line
    }

    /// A failure that concerns the tenant as a whole.
    pub fn of_tenant(kind: ErrorKind, tenant: u128) -> (e: VaultError)
        ensures
            e@ == (VaultErrorView { kind, tenant, secret: None, version: None }),
    {
        VaultError { kind, tenant, secret: None, version: None }
    }

    /// A failure that concerns the secret called `name`, and `version` of
    /// it where one was asked for.
    pub fn of_secret(kind: ErrorKind, tenant: u128, name: &str, version: Option<i32>) -> (e:
        VaultError)
        ensures
            e@ == (VaultErrorView { kind, tenant, secret: Some(name@), version }),
    {
        VaultError { kind, tenant, secret: Some(name.to_owned()), version }
    }
}

/// The status code of a request that cannot be understood.
pub const BAD_REQUEST: u16 = 400;

/// The status code of a request without valid credentials.
pub const UNAUTHORIZED: u16 = 401;

/// The status code of a request for what does not exist.
pub const NOT_FOUND: u16 = 404;

/// The status code of a request that collides with what exists.
pub const CONFLICT: u16 = 409;

/// The status code of a failure on the server's side.
pub const INTERNAL_SERVER_ERROR: u16 = 500;

/// The status code of a service that cannot be reached for now.
pub const SERVICE_UNAVAILABLE: u16 = 503;

/// The body of a response that reports a failure.
#[derive(Clone, Debug)]
pub struct ErrorResponse {
    pub status: String,
    pub message: String,
}

/// The JSON object that reports a failure, from its two members as JSON
/// strings.
pub open spec fn error_object(status: Seq<char>, message: Seq<char>) -> Seq<char> {
    "{\"status\":"@ + status + ",\"message\":"@ + message + "}"@
}

/// The JSON string that stands for `text`.
fn quoted(text: &str) -> (json: String)
    ensures
        json@ == json_quoted(text@),
{
    match json_quote(text) {
        Some(json) => json,
        // Every string can be written as a JSON string.
        None => vstd::pervasive::unreached(),
    }
}

impl ErrorResponse {
    /// The response as JSON text: an object with the members `status` and
    /// `message`, in that order.
    pub open spec fn spec_json(&self) -> Seq<char> {
        error_object(json_quoted(self.status@), json_quoted(self.message@))
    }

    /// Writes the response as JSON text.
    pub fn to_json(&self) -> (json: String)
        ensures
            json@ == self.spec_json(),
    {
        let status = quoted(self.status.as_str());
        let message = quoted(self.message.as_str());
        let mut json = "{\"status\":".to_owned();
        json.append(status.as_str());
        json.append(",\"message\":");
        json.append(message.as_str());
        json.append("}");
        json
    }
}

/// What went wrong where a user signs up or signs in.
#[derive(Clone, Copy, Debug, PartialEq, Eq, Structural)]
pub enum ErrorMessage {
    EmptyPassword,
    ExceededMaxPasswordLength(usize),
    HashingError,
    InvalidHashFormat,
    InvalidToken,
    WrongCredentials,
    EmailExist,
    UserNoLongerExist,
    TokenNotProvided,
}

impl ErrorMessage {
    /// The message in words.
    pub open spec fn spec_text(&self) -> Seq<char> {
        match self {
            ErrorMessage::EmptyPassword => "Password cannot be empty"@,
            ErrorMessage::ExceededMaxPasswordLength(max_length) => "Password cannot exceed "@
                + decimal(*max_length as nat) + " characters"@,
            ErrorMessage::HashingError => "Hashing error"@,
            ErrorMessage::InvalidHashFormat => "Invalid hash format"@,
            ErrorMessage::InvalidToken => "Invalid token"@,
            ErrorMessage::WrongCredentials => "Wrong credentials"@,
            ErrorMessage::EmailExist => "Email already exist"@,
            ErrorMessage::UserNoLongerExist => "User no longer exist"@,
            ErrorMessage::TokenNotProvided => "Token not provided"@,
        }
    }

    /// Writes the message in words.
    pub fn to_str(&self) -> (text: String)
        ensures
            text@ == self.spec_text(),
    {
        match self {
            ErrorMessage::EmptyPassword => "Password cannot be empty".to_owned(),
            ErrorMessage::ExceededMaxPasswordLength(max_length) => {
                let mut text = "Password cannot exceed ".to_owned();
                text.append(to_decimal(*max_length).as_str());
                text.append(" characters");
                text
            },
            ErrorMessage::HashingError => "Hashing error".to_owned(),
            ErrorMessage::InvalidHashFormat => "Invalid hash format".to_owned(),
            ErrorMessage::InvalidToken => "Invalid token".to_owned(),
            ErrorMessage::WrongCredentials => "Wrong credentials".to_owned(),
            ErrorMessage::EmailExist => "Email already exist".to_owned(),
            ErrorMessage::UserNoLongerExist => "User no longer exist".to_owned(),
            ErrorMessage::TokenNotProvided => "Token not provided".to_owned(),
        }
    }

    /// Writes the message in words.
    pub fn to_string(&self) -> (text: String)
        ensures
            text@ == self.spec_text(),
    {
        self.to_str()
    }
}

/// A failure as it is reported over HTTP: a message and a status code.
#[derive(Clone, Debug)]
pub struct HttpError {
    pub message: String,
    pub status: u16,
}

impl HttpError {
    /// A failure with the given message and status code.
    pub fn new(message: String, status: u16) -> (e: HttpError)
        ensures
            e.message@ == message@,
            e.status == status,
    {
        HttpError { message, status }
    }

    /// A failure on the server's side.
    pub fn server_error(message: String) -> (e: HttpError)
        ensures
            e.message@ == message@,
            e.status == INTERNAL_SERVER_ERROR,
    {
        HttpError::new(message, INTERNAL_SERVER_ERROR)
    }

    /// A request that cannot be understood.
    pub fn bad_request(message: String) -> (e: HttpError)
        ensures
            e.message@ == message@,
            e.status == BAD_REQUEST,
    {
        HttpError::new(message, BAD_REQUEST)
    }

    /// A request that collides with what exists.
    pub fn unique_constraint_violation(message: String) -> (e: HttpError)
        ensures
            e.message@ == message@,
            e.status == CONFLICT,
    {
        HttpError::new(message, CONFLICT)
    }

    /// A request without valid credentials.
    pub fn unauthorized(message: String) -> (e: HttpError)
        ensures
            e.message@ == message@,
            e.status == UNAUTHORIZED,
    {
        HttpError::new(message, UNAUTHORIZED)
    }

    /// A request for what does not exist.
    pub fn not_found(message: String) -> (e: HttpError)
        ensures
            e.message@ == message@,
            e.status == NOT_FOUND,
    {
        HttpError::new(message, NOT_FOUND)
    }

    /// The report of a failure of the vault: its description under the
    /// status code of its kind.
    pub fn of_vault_error(error: &VaultError) -> (e: HttpError)
        ensures
            e.message@ == error@.described(),
            e.status == error.kind.spec_status(),
    {
        HttpError::new(error.describe(), error.kind.status())
    }

    /// The body that reports this failure: status `fail` and the message.
    pub fn body(&self) -> (body: ErrorResponse)
        ensures
            body.status@ == "fail"@,
            body.message@ == self.message@,
    {
        ErrorResponse { status: "fail".to_owned(), message: self.message.clone() }
    }

    /// The response that reports this failure: its status code and its
    /// body as JSON text.
    pub fn into_http_response(self) -> (response: (u16, String))
        ensures
            response.0 == self.status,
            response.1@ == error_object(json_quoted("fail"@), json_quoted(self.message@)),
    {
        let body = self.body();
        (self.status, body.to_json())
    }

    /// The status as it is shown: the code with its reason phrase, or the
    /// bare code where it is not an HTTP status code.
    pub open spec fn spec_status_text(&self) -> Seq<char> {
        if 100 <= self.status <= 999 {
            status_line(self.status)
        } else {
            decimal(self.status as nat)
        }
    }

    /// The failure in one line.
    pub open spec fn spec_describe(&self) -> Seq<char> {
        "HttpError: message: "@ + self.message@ + ", status: "@ + self.spec_status_text()
    }

    /// Writes the failure in one line: the message and the status.
    pub fn describe(&self) -> (line: String)
        ensures
            line@ == self.spec_describe(),
    {
        let status = match status_to_text(self.status) {
            Some(text) => text,
            None => to_decimal(self.status as usize),
        };
        let mut line = "HttpError: message: ".to_owned();
        line.append(self.message.as_str());
        line.append(", status: ");
        line.append(status.as_str());
        line
    }
}

} // verus!
