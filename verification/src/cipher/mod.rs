//! The cipher registry: one encrypt and decrypt contract over four ciphers.

pub mod bytes;
pub mod cbc;
pub mod method;
pub mod padding;
pub mod primitives;
pub mod registry;
