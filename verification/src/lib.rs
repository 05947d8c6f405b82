//! A multi-tenant secret vault.
//!
//! Every tenant stores named secrets, sealed with the cipher it has chosen
//! and kept either in the shared store or in a database the tenant owns.
//! A secret is never overwritten: each write appends a version, and the
//! current value is the last one.
//!
//! The crate is verified with Verus. Every function states what it returns
//! or changes, over the mathematical value of the data it works on, and is
//! proved to do so without overflow or panic.
//!
//! * [`vault`] is the entry point: secrets in plaintext terms for an
//!   authenticated tenant.
//! * [`store`] keeps the versions of the secrets of one tenant.
//! * [`router`] decides which store serves a tenant and keeps the pool of
//!   connections to external stores.
//! * [`cipher`] seals and opens values under a tenant's method and key
//!   material.
//! * [`models`], [`dtos`], [`error`] and [`config`] hold the records, the
//!   shapes of requests and responses, the failures, and the settings.
//! * [`store_laws`] and [`vault_laws`] state what holds of every store and
//!   of every vault.
//!
//! What is believed and not proved are the calls into other crates: the
//! ciphers and the tag in [`cipher::primitives`], the text forms in
//! [`text`], and the clock in [`vault`]. Each says in its contract what
//! that crate's source shows of the function it calls.
//!
//! Identifiers are 128-bit numbers, shown as UUIDs, and timestamps are
//! microseconds since the Unix epoch.

pub mod cipher;
pub mod config;
pub mod dtos;
pub mod error;
pub mod models;
pub mod router;
pub mod store;
pub mod store_laws;
pub mod text;
pub mod vault;
pub mod vault_laws;
