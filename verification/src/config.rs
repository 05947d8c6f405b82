//! The settings a deployment is started with.

use vstd::prelude::*;
use crate::text::{parse_i64, parsed_i64};

verus! {

/// The port the service listens on.
pub const DEFAULT_PORT: u16 = 8000;

/// The settings of a deployment.
#[derive(Clone, Debug)]
pub struct Config {
    pub database_url: String,
    pub jwt_secret: String,
    pub jwt_maxage: i64,
    pub port: u16,
}

impl Config {
    /// The settings made of the values a deployment was given: the address
    /// of the database, the secret that tokens are signed with, and the
    /// age a token may reach, which must be written as a decimal number.
    /// The service listens on `DEFAULT_PORT`.
    pub fn init(database_url: String, jwt_secret: String, jwt_maxage: &str) -> (config: Config)
        requires
            parsed_i64(jwt_maxage@) is Some,
        ensures
            Some(config.jwt_maxage) == parsed_i64(jwt_maxage@),
            config.database_url@ == database_url@,
            config.jwt_secret@ == jwt_secret@,
            config.port == DEFAULT_PORT,
    {
        let age = match parse_i64(jwt_maxage) {
            Some(age) => age,
            // The age is a number, as asked for above.
            None => vstd::pervasive::unreached(),
        };
        Config { database_url, jwt_secret, jwt_maxage: age, port: DEFAULT_PORT }
    }

    /// The settings made of the values a deployment was given, where the
    /// age a token may reach is a decimal number; nothing exactly where it
    /// is not. No value is put in the place of an age that cannot be read.
    pub fn try_init(database_url: String, jwt_secret: String, jwt_maxage: &str) -> (config:
        Option<Config>)
        ensures
            match config {
                Some(c) => {
                    &&& parsed_i64(jwt_maxage@) == Some(c.jwt_maxage)
                    &&& c.database_url@ == database_url@
                    &&& c.jwt_secret@ == jwt_secret@
                    &&& c.port == DEFAULT_PORT
                },
                None => parsed_i64(jwt_maxage@) is None,
            },
    {
        match parse_i64(jwt_maxage) {
            Some(_) => Some(Config::init(database_url, jwt_secret, jwt_maxage)),
            None => None,
        }
    }
}

} // verus!
