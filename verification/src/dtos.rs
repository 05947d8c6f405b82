//! The shapes of requests and responses, with the rules that a request has
//! to meet.
//!
//! Checking a request gives every rule it breaks, field by field in the
//! order of the fields; a request is valid when it breaks none.

use vstd::prelude::*;
use vstd::string::StrSliceExecFns;
use crate::error::ErrorKind;
use crate::models::{EncryptionMethod, User};
use crate::store::MAX_PAGE_SIZE;
use crate::text::{bytes_to_text, email_accepted, is_email, text_of, uuid_text, uuid_to_text};
use crate::vault::{SecretSummary, SecretSummaryView};

verus! {

/// The most characters a password may have.
pub const MAX_PASSWORD_LEN: usize = 6;

/// A field of a request.
#[derive(Clone, Copy, Debug, PartialEq, Eq, Structural)]
pub enum Field {
    Name,
    Email,
    Password,
    ConfirmPassword,
    OldPassword,
    Host,
    Port,
    Username,
    Database,
    SecretName,
    SecretValue,
    Page,
    Limit,
}

/// A rule that a field can break.
#[derive(Clone, Copy, Debug, PartialEq, Eq, Structural)]
pub enum Rule {
    /// The field must not be empty.
    Required,
    /// The field has more characters than it may have.
    TooLong,
    /// The field must be an e-mail address.
    Email,
    /// The field must repeat the password.
    MustMatch,
    /// The field lies outside the range of its values.
    OutOfRange,
}

/// One rule that a request breaks.
#[derive(Clone, Copy, Debug, PartialEq, Eq, Structural)]
pub struct Issue {
    pub field: Field,
    pub rule: Rule,
}

/// What a text that must not be empty breaks.
pub open spec fn required(field: Field, text: Seq<char>) -> Seq<Issue> {
    if text.len() < 1 {
        seq![Issue { field, rule: Rule::Required }]
    } else {
        Seq::empty()
    }
}

/// What a text of at most `max` characters breaks.
pub open spec fn at_most(field: Field, text: Seq<char>, max: int) -> Seq<Issue> {
    if text.len() > max {
        seq![Issue { field, rule: Rule::TooLong }]
    } else {
        Seq::empty()
    }
}

/// What an e-mail address breaks.
pub open spec fn email(field: Field, text: Seq<char>) -> Seq<Issue> {
    if email_accepted(text) {
        Seq::empty()
    } else {
        seq![Issue { field, rule: Rule::Email }]
    }
}

/// What a text that must repeat `other` breaks.
pub open spec fn must_match(field: Field, text: Seq<char>, other: Seq<char>) -> Seq<Issue> {
    if text == other {
        Seq::empty()
    } else {
        seq![Issue { field, rule: Rule::MustMatch }]
    }
}

/// What a number between `min` and `max` breaks, where one is given.
pub open spec fn within(field: Field, value: Option<usize>, min: int, max: int) -> Seq<Issue> {
    match value {
        Some(v) => if min <= v <= max {
            Seq::empty()
        } else {
            seq![Issue { field, rule: Rule::OutOfRange }]
        },
        None => Seq::empty(),
    }
}

/// What a password breaks: it must not be empty and has at most
/// `MAX_PASSWORD_LEN` characters.
pub open spec fn password(field: Field, text: Seq<char>) -> Seq<Issue> {
    required(field, text) + at_most(field, text, MAX_PASSWORD_LEN as int)
}

/// What a repeated password breaks: it must not be empty and must repeat
/// `other`.
pub open spec fn confirmation(text: Seq<char>, other: Seq<char>) -> Seq<Issue> {
    required(Field::ConfirmPassword, text) + must_match(Field::ConfirmPassword, text, other)
}

/// What an e-mail field breaks: it must not be empty and must be an e-mail
/// address.
pub open spec fn email_field(text: Seq<char>) -> Seq<Issue> {
    required(Field::Email, text) + email(Field::Email, text)
}

/// What the paging of a query breaks: pages count from 1, and a page holds
/// 1 to `MAX_PAGE_SIZE` entries.
pub open spec fn paging(page: Option<usize>, limit: Option<usize>) -> Seq<Issue> {
    within(Field::Page, page, 1, usize::MAX as int) + within(
        Field::Limit,
        limit,
        1,
        MAX_PAGE_SIZE as int,
    )
}

impl Issue {
    /// The rule in words, as it is shown to the user.
    pub open spec fn spec_message(self) -> Seq<char> {
        match (self.rule, self.field) {
            (Rule::Required, Field::Name) => "Name is required"@,
            (Rule::Required, Field::Email) => "Email is required"@,
            (Rule::Required, Field::Password) => "Password is required"@,
            (Rule::Required, Field::ConfirmPassword) => "Confirm Password is required"@,
            (Rule::Required, Field::OldPassword) => "Old Password is required"@,
            (Rule::Required, Field::Host) => "Host is required"@,
            (Rule::Required, Field::Username) => "Username is required"@,
            (Rule::Required, Field::Database) => "Database is required"@,
            (Rule::Required, Field::SecretName) => "Secret Name is required"@,
            (Rule::Required, Field::SecretValue) => "Secret Value is required"@,
            (Rule::TooLong, _) => "Password must be less than 6 characters"@,
            (Rule::Email, _) => "Invalid email"@,
            (Rule::MustMatch, _) => "Passwords do not match"@,
            (_, Field::Port) => "Port must be between 1 and 65535"@,
            (_, Field::Page) => "Page must be at least 1"@,
            (_, _) => "Limit must be between 1 and 50"@,
        }
    }

    /// Writes the rule in words.
    pub fn message(self) -> (text: String)
        ensures
            text@ == self.spec_message(),
    {
        let text = match (self.rule, self.field) {
            (Rule::Required, Field::Name) => "Name is required",
            (Rule::Required, Field::Email) => "Email is required",
            (Rule::Required, Field::Password) => "Password is required",
            (Rule::Required, Field::ConfirmPassword) => "Confirm Password is required",
            (Rule::Required, Field::OldPassword) => "Old Password is required",
            (Rule::Required, Field::Host) => "Host is required",
            (Rule::Required, Field::Username) => "Username is required",
            (Rule::Required, Field::Database) => "Database is required",
            (Rule::Required, Field::SecretName) => "Secret Name is required",
            (Rule::Required, Field::SecretValue) => "Secret Value is required",
            (Rule::TooLong, _) => "Password must be less than 6 characters",
            (Rule::Email, _) => "Invalid email",
            (Rule::MustMatch, _) => "Passwords do not match",
            (_, Field::Port) => "Port must be between 1 and 65535",
            (_, Field::Page) => "Page must be at least 1",
            (_, _) => "Limit must be between 1 and 50",
        };
        text.to_owned()
    }
}

/// Adds to `issues` what a text that must not be empty breaks.
fn check_required(issues: &mut Vec<Issue>, field: Field, text: &String)
    ensures
        final(issues)@ == old(issues)@ + required(field, text@),
{
    if text.as_str().unicode_len() < 1 {
        issues.push(Issue { field, rule: Rule::Required });
    }
    assert(issues@ =~= old(issues)@ + required(field, text@));
}

/// Adds to `issues` what a text of at most `max` characters breaks.
fn check_at_most(issues: &mut Vec<Issue>, field: Field, text: &String, max: usize)
    ensures
        final(issues)@ == old(issues)@ + at_most(field, text@, max as int),
{
    if text.as_str().unicode_len() > max {
        issues.push(Issue { field, rule: Rule::TooLong });
    }
    assert(issues@ =~= old(issues)@ + at_most(field, text@, max as int));
}

/// Adds to `issues` what an e-mail address breaks.
fn check_email(issues: &mut Vec<Issue>, field: Field, text: &String)
    ensures
        final(issues)@ == old(issues)@ + email(field, text@),
{
    if !is_email(text.as_str()) {
        issues.push(Issue { field, rule: Rule::Email });
    }
    assert(issues@ =~= old(issues)@ + email(field, text@));
}

/// Adds to `issues` what a text that must repeat `other` breaks.
fn check_must_match(issues: &mut Vec<Issue>, field: Field, text: &String, other: &String)
    ensures
        final(issues)@ == old(issues)@ + must_match(field, text@, other@),
{
    if !(*text == *other) {
        issues.push(Issue { field, rule: Rule::MustMatch });
    }
    assert(issues@ =~= old(issues)@ + must_match(field, text@, other@));
}

/// Adds to `issues` what a number between `min` and `max` breaks.
fn check_within(issues: &mut Vec<Issue>, field: Field, value: Option<usize>, min: usize, max: usize)
    ensures
        final(issues)@ == old(issues)@ + within(field, value, min as int, max as int),
{
    match value {
        Some(v) => {
            if v < min || v > max {
                issues.push(Issue { field, rule: Rule::OutOfRange });
            }
        },
        None => {},
    }
    assert(issues@ =~= old(issues)@ + within(field, value, min as int, max as int));
}

/// Adds to `issues` what a password breaks.
fn check_password(issues: &mut Vec<Issue>, field: Field, text: &String)
    ensures
        final(issues)@ == old(issues)@ + password(field, text@),
{
    check_required(issues, field, text);
    check_at_most(issues, field, text, MAX_PASSWORD_LEN);
    assert(issues@ =~= old(issues)@ + password(field, text@));
}

/// Adds to `issues` what the paging of a query breaks.
fn check_paging(issues: &mut Vec<Issue>, page: Option<usize>, limit: Option<usize>)
    ensures
        final(issues)@ == old(issues)@ + paging(page, limit),
{
    check_within(issues, Field::Page, page, 1, usize::MAX);
    check_within(issues, Field::Limit, limit, 1, MAX_PAGE_SIZE);
    assert(issues@ =~= old(issues)@ + paging(page, limit));
}

/// A request to sign up.
#[derive(Clone, Debug, Default)]
pub struct RegisterUserDto {
    pub name: String,
    pub email: String,
    pub password: String,
    pub confirm_password: String,
}

impl RegisterUserDto {
    /// The rules the request breaks.
    pub open spec fn issues(&self) -> Seq<Issue> {
        required(Field::Name, self.name@) + email_field(self.email@) + password(
            Field::Password,
            self.password@,
        ) + confirmation(self.confirm_password@, self.password@)
    }

    /// Checks the request.
    pub fn validate(&self) -> (found: Vec<Issue>)
        ensures
            found@ == self.issues(),
    {
        let mut found: Vec<Issue> = Vec::new();
        check_required(&mut found, Field::Name, &self.name);
        check_required(&mut found, Field::Email, &self.email);
        check_email(&mut found, Field::Email, &self.email);
        check_password(&mut found, Field::Password, &self.password);
        check_required(&mut found, Field::ConfirmPassword, &self.confirm_password);
        check_must_match(
            &mut found,
            Field::ConfirmPassword,
            &self.confirm_password,
            &self.password,
        );
        assert(found@ =~= self.issues());
        found
    }
}

/// A request to sign in.
#[derive(Clone, Debug, Default)]
pub struct LoginUserDto {
    pub email: String,
    pub password: String,
}

impl LoginUserDto {
    /// The rules the request breaks.
    pub open spec fn issues(&self) -> Seq<Issue> {
        email_field(self.email@) + password(Field::Password, self.password@)
    }

    /// Checks the request.
    pub fn validate(&self) -> (found: Vec<Issue>)
        ensures
            found@ == self.issues(),
    {
        let mut found: Vec<Issue> = Vec::new();
        check_required(&mut found, Field::Email, &self.email);
        check_email(&mut found, Field::Email, &self.email);
        check_password(&mut found, Field::Password, &self.password);
        assert(found@ =~= self.issues());
        found
    }
}

/// The paging of a query.
#[derive(Clone, Copy, Debug)]
pub struct RequestQueryDto {
    pub page: Option<usize>,
    pub limit: Option<usize>,
}

impl RequestQueryDto {
    /// The rules the query breaks.
    pub open spec fn issues(&self) -> Seq<Issue> {
        paging(self.page, self.limit)
    }

    /// Checks the query.
    pub fn validate(&self) -> (found: Vec<Issue>)
        ensures
            found@ == self.issues(),
    {
        let mut found: Vec<Issue> = Vec::new();
        check_paging(&mut found, self.page, self.limit);
        found
    }
}

/// A user as it is shown: without password and keys.
#[derive(Clone, Debug)]
pub struct FilterUserDto {
    pub id: String,
    pub name: String,
    pub email: String,
    pub encryption_method: Option<EncryptionMethod>,
    pub api_keys: Option<String>,
    pub db_connection_exists: bool,
    pub created_at: i64,
    pub updated_at: i64,
}

impl FilterUserDto {
    /// What is shown of `user`: identifier, name, e-mail address, method
    /// and API key as they are, whether an external store is set, and the
    /// two timestamps, which the user must have.
    pub fn filter_user(user: &User) -> (shown: FilterUserDto)
        requires
            user.created_at is Some,
            user.updated_at is Some,
        ensures
            shown.id@ == uuid_text(user.id),
            shown.name@ == user.username@,
            shown.email@ == user.email@,
            shown.encryption_method == user.encryption_method,
            (shown.api_keys is Some) == (user.api_key is Some),
            shown.api_keys matches Some(key) ==> key@ == user.api_key->0@,
            shown.db_connection_exists == (user.db_connection is Some),
            Some(shown.created_at) == user.created_at,
            Some(shown.updated_at) == user.updated_at,
    {
        FilterUserDto {
            id: uuid_to_text(user.id),
            name: user.username.clone(),
            email: user.email.clone(),
            encryption_method: user.encryption_method,
            api_keys: match &user.api_key {
                Some(key) => Some(key.clone()),
                None => None,
            },
            db_connection_exists: user.db_connection.is_some(),
            created_at: user.created_at.unwrap(),
            updated_at: user.updated_at.unwrap(),
        }
    }
}

/// The user inside a response.
#[derive(Clone, Debug)]
pub struct UserData {
    pub user: FilterUserDto,
}

/// The response that shows a user.
#[derive(Clone, Debug)]
pub struct UserResponseDto {
    pub status: String,
    pub data: UserData,
}

/// The response to signing in.
#[derive(Clone, Debug)]
pub struct UserLoginResponseDto {
    pub status: String,
    pub data: FilterUserDto,
    pub token: String,
}

/// A response that only reports.
#[derive(Clone, Debug)]
pub struct Response {
    pub status: &'static str,
    pub message: String,
}

/// A request to change the name.
#[derive(Clone, Debug, Default)]
pub struct NameUpdateDto {
    pub name: String,
}

impl NameUpdateDto {
    /// The rules the request breaks.
    pub open spec fn issues(&self) -> Seq<Issue> {
        required(Field::Name, self.name@)
    }

    /// Checks the request.
    pub fn validate(&self) -> (found: Vec<Issue>)
        ensures
            found@ == self.issues(),
    {
        let mut found: Vec<Issue> = Vec::new();
        check_required(&mut found, Field::Name, &self.name);
        found
    }
}

/// A request to change the password.
#[derive(Clone, Debug, Default)]
pub struct UserPasswordUpdateDto {
    pub password: String,
    pub confirm_password: String,
    pub old_password: String,
}

impl UserPasswordUpdateDto {
    /// The rules the request breaks.
    pub open spec fn issues(&self) -> Seq<Issue> {
        password(Field::Password, self.password@) + confirmation(
            self.confirm_password@,
            self.password@,
        ) + password(Field::OldPassword, self.old_password@)
    }

    /// Checks the request.
    pub fn validate(&self) -> (found: Vec<Issue>)
        ensures
            found@ == self.issues(),
    {
        let mut found: Vec<Issue> = Vec::new();
        check_password(&mut found, Field::Password, &self.password);
        check_required(&mut found, Field::ConfirmPassword, &self.confirm_password);
        check_must_match(
            &mut found,
            Field::ConfirmPassword,
            &self.confirm_password,
            &self.password,
        );
        check_password(&mut found, Field::OldPassword, &self.old_password);
        assert(found@ =~= self.issues());
        found
    }
}

/// A request to set the external store.
#[derive(Clone, Debug)]
pub struct DatabaseDto {
    pub host: String,
    pub port: u16,
    pub username: String,
    pub password: String,
    pub database: String,
}

impl DatabaseDto {
    /// The rules the request breaks: no text is empty, and the port is not
    /// 0.
    pub open spec fn issues(&self) -> Seq<Issue> {
        required(Field::Host, self.host@) + within(
            Field::Port,
            Some(self.port as usize),
            1,
            u16::MAX as int,
        ) + required(Field::Username, self.username@) + required(
            Field::Password,
            self.password@,
        ) + required(Field::Database, self.database@)
    }

    /// Checks the request.
    pub fn validate(&self) -> (found: Vec<Issue>)
        ensures
            found@ == self.issues(),
    {
        let mut found: Vec<Issue> = Vec::new();
        check_required(&mut found, Field::Host, &self.host);
        check_within(&mut found, Field::Port, Some(self.port as usize), 1, u16::MAX as usize);
        check_required(&mut found, Field::Username, &self.username);
        check_required(&mut found, Field::Password, &self.password);
        check_required(&mut found, Field::Database, &self.database);
        assert(found@ =~= self.issues());
        found
    }
}

/// A request to choose the encryption method.
#[derive(Clone, Copy, Debug)]
pub struct EncryptionMethodDto {
    pub encryption_method: EncryptionMethod,
}

/// Checks that `encryption_method` is one of the four methods, which every
/// value of the type is: a name that is none of them is refused before,
/// where it is read.
pub fn validate_encryption_method(encryption_method: &EncryptionMethod) -> (r: Result<
    (),
    ErrorKind,
>)
    ensures
        r is Ok,
{
    match encryption_method {
        EncryptionMethod::AES256
        | EncryptionMethod::Chacha20
        | EncryptionMethod::Blowfish
        | EncryptionMethod::DESTripleDES => Ok(()),
    }
}

impl EncryptionMethodDto {
    /// The rules the request breaks: none.
    pub open spec fn issues(&self) -> Seq<Issue> {
        Seq::empty()
    }

    /// Checks the request.
    pub fn validate(&self) -> (found: Vec<Issue>)
        ensures
            found@ == self.issues(),
    {
        let _ = validate_encryption_method(&self.encryption_method);
        Vec::new()
    }
}

/// A request to save a new secret.
#[derive(Clone, Debug)]
pub struct SaveSecretDto {
    pub secret_name: String,
    pub secret_value: String,
}

impl SaveSecretDto {
    /// The rules the request breaks.
    pub open spec fn issues(&self) -> Seq<Issue> {
        required(Field::SecretName, self.secret_name@) + required(
            Field::SecretValue,
            self.secret_value@,
        )
    }

    /// Checks the request.
    pub fn validate(&self) -> (found: Vec<Issue>)
        ensures
            found@ == self.issues(),
    {
        let mut found: Vec<Issue> = Vec::new();
        check_required(&mut found, Field::SecretName, &self.secret_name);
        check_required(&mut found, Field::SecretValue, &self.secret_value);
        assert(found@ =~= self.issues());
        found
    }
}

/// A request to give a secret a new value.
#[derive(Clone, Debug)]
pub struct EditSecretDto {
    pub secret_name: String,
    pub secret_value: String,
}

impl EditSecretDto {
    /// The rules the request breaks.
    pub open spec fn issues(&self) -> Seq<Issue> {
        required(Field::SecretName, self.secret_name@) + required(
            Field::SecretValue,
            self.secret_value@,
        )
    }

    /// Checks the request.
    pub fn validate(&self) -> (found: Vec<Issue>)
        ensures
            found@ == self.issues(),
    {
        let mut found: Vec<Issue> = Vec::new();
        check_required(&mut found, Field::SecretName, &self.secret_name);
        check_required(&mut found, Field::SecretValue, &self.secret_value);
        assert(found@ =~= self.issues());
        found
    }
}

/// A query for the versions of a secret.
#[derive(Clone, Copy, Debug)]
pub struct RequestQuerySecretVersionDto {
    pub page: Option<usize>,
    pub limit: Option<usize>,
    pub id: u128,
}

impl RequestQuerySecretVersionDto {
    /// The rules the query breaks.
    pub open spec fn issues(&self) -> Seq<Issue> {
        paging(self.page, self.limit)
    }

    /// Checks the query.
    pub fn validate(&self) -> (found: Vec<Issue>)
        ensures
            found@ == self.issues(),
    {
        let mut found: Vec<Issue> = Vec::new();
        check_paging(&mut found, self.page, self.limit);
        found
    }
}

/// A secret with its value in plaintext, as the vault hands it to the
/// layer that answers requests.
#[derive(Clone, Debug)]
pub struct SecretResponse {
    pub id: String,
    pub secret_name: String,
    pub secret_value: String,
    pub version: i32,
    pub created_at: i64,
    pub updated_at: i64,
}

/// The mathematical value of a [`SecretResponse`].
pub struct SecretResponseView {
    pub id: Seq<char>,
    pub secret_name: Seq<char>,
    pub secret_value: Seq<char>,
    pub version: i32,
    pub created_at: i64,
    pub updated_at: i64,
}

impl View for SecretResponse {
    type V = SecretResponseView;

    open spec fn view(&self) -> SecretResponseView {
        SecretResponseView {
            id: self.id@,
            secret_name: self.secret_name@,
            secret_value: self.secret_value@,
            version: self.version,
            created_at: self.created_at,
            updated_at: self.updated_at,
        }
    }
}

/// The response for the secret or version that `summary` tells of, with
/// `value` as its plaintext: the identifier as text, name and version as
/// they are, and a timestamp that the summary lacks shown as 0.
pub open spec fn response_of(summary: SecretSummaryView, value: Seq<char>) -> SecretResponseView {
    SecretResponseView {
        id: uuid_text(summary.id),
        secret_name: summary.secret_name,
        secret_value: value,
        version: summary.version,
        created_at: summary.created_at.unwrap_or(0),
        updated_at: summary.updated_at.unwrap_or(0),
    }
}

/// The response for what `summary` tells of with the plaintext `value`,
/// where the plaintext is text.
pub open spec fn response_of_bytes(summary: SecretSummaryView, value: Seq<u8>) -> Option<
    SecretResponseView,
> {
    match text_of(value) {
        Some(text) => Some(response_of(summary, text)),
        None => None,
    }
}

impl SecretResponse {
    /// The response for the secret that `summary` tells of, with `value`
    /// as its plaintext. A timestamp that the summary lacks is shown as 0.
    pub fn of(summary: &SecretSummary, value: String) -> (shown: SecretResponse)
        ensures
            shown@ == response_of(summary@, value@),
    {
        SecretResponse {
            id: uuid_to_text(summary.id),
            secret_name: summary.secret_name.clone(),
            secret_value: value,
            version: summary.version,
            created_at: match summary.created_at {
                Some(at) => at,
                None => 0,
            },
            updated_at: match summary.updated_at {
                Some(at) => at,
                None => 0,
            },
        }
    }

    /// The response for the secret that `summary` tells of, with the text
    /// that the plaintext `value` encodes; nothing exactly where the
    /// plaintext is not text.
    pub fn of_bytes(summary: &SecretSummary, value: Vec<u8>) -> (shown: Option<SecretResponse>)
        ensures
            match shown {
                Some(response) => response_of_bytes(summary@, value@) == Some(response@),
                None => response_of_bytes(summary@, value@) is None,
            },
    {
        match bytes_to_text(value) {
            Some(text) => Some(SecretResponse::of(summary, text)),
            None => None,
        }
    }
}

/// A secret as it is shown.
#[derive(Clone, Debug)]
pub struct FilterSecretDto {
    pub id: String,
    pub secret_name: String,
    pub secret_value: String,
    pub version: i32,
}

/// The mathematical value of a [`FilterSecretDto`].
pub struct FilterSecretView {
    pub id: Seq<char>,
    pub secret_name: Seq<char>,
    pub secret_value: Seq<char>,
    pub version: i32,
}

impl View for FilterSecretDto {
    type V = FilterSecretView;

    open spec fn view(&self) -> FilterSecretView {
        FilterSecretView {
            id: self.id@,
            secret_name: self.secret_name@,
            secret_value: self.secret_value@,
            version: self.version,
        }
    }
}

/// What is shown of `secret`: all but its timestamps.
pub open spec fn shown_secret(secret: SecretResponseView) -> FilterSecretView {
    FilterSecretView {
        id: secret.id,
        secret_name: secret.secret_name,
        secret_value: secret.secret_value,
        version: secret.version,
    }
}

impl FilterSecretDto {
    /// What is shown of `secret`.
    pub fn filter_secret(secret: &SecretResponse) -> (shown: FilterSecretDto)
        ensures
            shown@ == shown_secret(secret@),
    {
        FilterSecretDto {
            id: secret.id.clone(),
            secret_name: secret.secret_name.clone(),
            secret_value: secret.secret_value.clone(),
            version: secret.version,
        }
    }

    /// What is shown of each of `secrets`, in their order.
    pub fn filter_secrets(secrets: &[SecretResponse]) -> (shown: Vec<FilterSecretDto>)
        ensures
            shown@.map_values(|d: FilterSecretDto| d@) == secrets@.map_values(
                |s: SecretResponse| shown_secret(s@),
            ),
    {
        let mut shown: Vec<FilterSecretDto> = Vec::new();
        let mut i: usize = 0;
        while i < secrets.len()
            invariant
                i <= secrets@.len(),
                shown@.len() == i,
                forall|k: int| 0 <= k < i ==> (#[trigger] shown@[k])@ == shown_secret(secrets@[k]@),
            decreases secrets.len() - i,
        {
            shown.push(FilterSecretDto::filter_secret(&secrets[i]));
            i += 1;
        }
        assert(shown@.map_values(|d: FilterSecretDto| d@) =~= secrets@.map_values(
            |s: SecretResponse| shown_secret(s@),
        ));
        shown
    }
}

/// The response that lists secrets.
#[derive(Clone, Debug)]
pub struct SecretResponseDto {
    pub secret: Vec<FilterSecretDto>,
    pub total_pages: i64,
}

/// A query for one secret by API key.
#[derive(Clone, Debug)]
pub struct RequestQuerySecretByKeyDto {
    pub key: String,
    pub secret: u128,
}

/// The response to a query by API key.
#[derive(Clone, Debug)]
pub struct RequestQuerySecretByKeyResponseDto {
    pub value: String,
}

} // verus!
