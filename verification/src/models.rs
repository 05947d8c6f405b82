//! The records the vault works on: tenants, secrets and their versions.
//!
//! Identifiers are 128-bit values (the numeric form of a UUID) and timestamps
//! are microseconds since the Unix epoch, so every record is made of plain
//! values that contracts can speak about.

use vstd::prelude::*;

verus! {

/// The cipher a tenant has chosen for its secrets.
#[derive(Clone, Copy, Debug, PartialEq, Eq, Structural)]
pub enum EncryptionMethod {
    AES256,
    Chacha20,
    Blowfish,
    DESTripleDES,
}

/// How to reach a database that a tenant owns: the descriptor of an
/// external store. It holds a password and is therefore not printable.
#[derive(Clone)]
pub struct DbConnection {
    pub host: String,
    pub port: u16,
    pub username: String,
    pub password: String,
    pub database: String,
}

/// The mathematical value of a [`DbConnection`].
pub struct DbConnectionView {
    pub host: Seq<char>,
    pub port: u16,
    pub username: Seq<char>,
    pub password: Seq<char>,
    pub database: Seq<char>,
}

impl View for DbConnection {
    type V = DbConnectionView;

    open spec fn view(&self) -> DbConnectionView {
        DbConnectionView {
            host: self.host@,
            port: self.port,
            username: self.username@,
            password: self.password@,
            database: self.database@,
        }
    }
}

impl DbConnection {
    /// Two descriptors name the same target only if every field matches.
    pub fn same_target(&self, other: &DbConnection) -> (same: bool)
        ensures
            same == (self@ == other@),
    {
        self.port == other.port && self.host == other.host && self.username == other.username
            && self.password == other.password && self.database == other.database
    }

    /// A copy of this descriptor.
    pub fn duplicate(&self) -> (copy: DbConnection)
        ensures
            copy@ == self@,
    {
        DbConnection {
            host: self.host.clone(),
            port: self.port,
            username: self.username.clone(),
            password: self.password.clone(),
            database: self.database.clone(),
        }
    }
}

/// Where a tenant's secrets live.
pub enum StoreTargetView {
    /// The platform's shared store.
    Shared,
    /// A database the tenant owns.
    External(DbConnectionView),
}

/// A tenant: a user account narrowed to what the vault needs. It holds
/// key material and is therefore not printable.
#[derive(Clone)]
pub struct User {
    pub id: u128,
    pub username: String,
    pub email: String,
    pub password: String,
    pub encryption_method: Option<EncryptionMethod>,
    pub keys: Option<Vec<u8>>,
    pub api_key: Option<String>,
    pub db_connection: Option<DbConnection>,
    pub created_at: Option<i64>,
    pub updated_at: Option<i64>,
}

impl User {
    /// The key material of the tenant, if setup has been completed.
    pub open spec fn key_material(&self) -> Option<Seq<u8>> {
        match self.keys {
            Some(k) => Some(k@),
            None => None,
        }
    }

    /// The store this tenant is routed to.
    pub open spec fn target(&self) -> StoreTargetView {
        match self.db_connection {
            Some(d) => StoreTargetView::External(d@),
            None => StoreTargetView::Shared,
        }
    }
}

/// A named secret with its current value, as a store hands it out.
#[derive(Clone, Debug)]
pub struct Secret {
    pub id: u128,
    pub secret_name: String,
    pub encryption_secret_value: Vec<u8>,
    pub version: i32,
    pub created_at: Option<i64>,
    pub updated_at: Option<i64>,
}

/// The mathematical value of a [`Secret`].
pub struct SecretView {
    pub id: u128,
    pub secret_name: Seq<char>,
    pub encryption_secret_value: Seq<u8>,
    pub version: i32,
    pub created_at: Option<i64>,
    pub updated_at: Option<i64>,
}

impl View for Secret {
    type V = SecretView;

    open spec fn view(&self) -> SecretView {
        SecretView {
            id: self.id,
            secret_name: self.secret_name@,
            encryption_secret_value: self.encryption_secret_value@,
            version: self.version,
            created_at: self.created_at,
            updated_at: self.updated_at,
        }
    }
}

/// One immutable entry of a secret's history.
#[derive(Clone, Debug)]
pub struct SecretVersion {
    pub id: u128,
    pub secret_id: u128,
    pub secret_name: String,
    pub encryption_secret_value: Vec<u8>,
    pub version: i32,
    pub created_at: Option<i64>,
    pub updated_at: Option<i64>,
}

/// The mathematical value of a [`SecretVersion`].
pub struct SecretVersionView {
    pub id: u128,
    pub secret_id: u128,
    pub secret_name: Seq<char>,
    pub encryption_secret_value: Seq<u8>,
    pub version: i32,
    pub created_at: Option<i64>,
    pub updated_at: Option<i64>,
}

impl View for SecretVersion {
    type V = SecretVersionView;

    open spec fn view(&self) -> SecretVersionView {
        SecretVersionView {
            id: self.id,
            secret_id: self.secret_id,
            secret_name: self.secret_name@,
            encryption_secret_value: self.encryption_secret_value@,
            version: self.version,
            created_at: self.created_at,
            updated_at: self.updated_at,
        }
    }
}

impl SecretVersion {
    /// A copy of this history entry.
    pub fn duplicate(&self) -> (copy: SecretVersion)
        ensures
            copy@ == self@,
    {
        SecretVersion {
            id: self.id,
            secret_id: self.secret_id,
            secret_name: self.secret_name.clone(),
            encryption_secret_value: vstd::slice::slice_to_vec(
                self.encryption_secret_value.as_slice(),
            ),
            version: self.version,
            created_at: self.created_at,
            updated_at: self.updated_at,
        }
    }
}

} // verus!
