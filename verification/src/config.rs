//! Server settings, read from the environment's text values.

use vstd::prelude::*;

use crate::text::{parse_bool, parse_bool_spec, parse_u16, parse_u16_spec};

verus! {

/// The server's settings.
#[derive(Debug, Clone, PartialEq)]
pub struct Config {
    pub mongodb_uri: String,
    pub database_name: String,
    pub jwt_secret: String,
    pub port: u16,
    /// Whether the admin auth cookie should require HTTPS. Set to `false` only for local
    /// plain-http development; must stay `true` in production (the site is served via HTTPS).
    pub cookie_secure: bool,
}

/// A setting that has no default and was not given.
#[derive(Debug, Clone, Copy, PartialEq, Eq, Structural)]
pub enum ConfigError {
    MissingMongodbUri,
    MissingJwtSecret,
}

/// The port: the given text when it parses as a `u16`, else 8080.
pub open spec fn port_setting(port: Option<Seq<char>>) -> u16 {
    match port {
        Some(p) => match parse_u16_spec(p) {
            Some(v) => v,
            None => 8080,
        },
        None => 8080,
    }
}

/// Whether cookies are secure: the given text when it is `true` or `false`,
/// else `true`.
pub open spec fn cookie_secure_setting(v: Option<Seq<char>>) -> bool {
    match v {
        Some(t) => match parse_bool_spec(t) {
            Some(b) => b,
            None => true,
        },
        None => true,
    }
}

/// The view of an optional text value.
pub open spec fn opt_view(s: Option<String>) -> Option<Seq<char>> {
    match s {
        Some(t) => Some(t@),
        None => None,
    }
}

impl Config {
    /// Builds the settings from the values of `MONGODB_URI`, `DATABASE_NAME`,
    /// `JWT_SECRET`, `PORT` and `COOKIE_SECURE` (`None` where unset). The
    /// database URI and the JWT secret are required; the database name
    /// defaults to `greeniem`.
    pub fn from_values(
        mongodb_uri: Option<String>,
        database_name: Option<String>,
        jwt_secret: Option<String>,
        port: Option<String>,
        cookie_secure: Option<String>,
    ) -> (r: Result<Config, ConfigError>)
        ensures
            mongodb_uri is None ==> r == Err::<Config, ConfigError>(ConfigError::MissingMongodbUri),
            mongodb_uri is Some && jwt_secret is None ==> r == Err::<Config, ConfigError>(
                ConfigError::MissingJwtSecret,
            ),
            r matches Ok(c) ==> {
                &&& Some(c.mongodb_uri@) == opt_view(mongodb_uri)
                &&& c.database_name@ == (match database_name {
                    Some(d) => d@,
                    None => "greeniem"@,
                })
                &&& Some(c.jwt_secret@) == opt_view(jwt_secret)
                &&& c.port == port_setting(opt_view(port))
                &&& c.cookie_secure == cookie_secure_setting(opt_view(cookie_secure))
            },
            mongodb_uri is Some && jwt_secret is Some ==> r is Ok,
    {
        let uri = match mongodb_uri {
            Some(u) => u,
            None => return Err(ConfigError::MissingMongodbUri),
        };
        let name = match database_name {
            Some(d) => d,
            None => String::from_str("greeniem"),
        };
        let secret = match jwt_secret {
            Some(s) => s,
            None => return Err(ConfigError::MissingJwtSecret),
        };
        let port_value = match port {
            Some(p) => match parse_u16(p.as_str()) {
                Some(v) => v,
                None => 8080,
            },
            None => 8080,
        };
        let secure = match cookie_secure {
            Some(v) => match parse_bool(v.as_str()) {
                Some(b) => b,
                None => true,
            },
            None => true,
        };
        Ok(
            Config {
                mongodb_uri: uri,
                database_name: name,
                jwt_secret: secret,
                port: port_value,
                cookie_secure: secure,
            },
        )
    }
}

} // verus!
