//! Error taxonomy of the hub.
//!
//! Outside failures (I/O, parsers, the database driver) are carried as
//! plain strings; the variants match the conditions under which each error
//! is produced.

use vstd::prelude::*;

verus! {

/// Failure while resolving Postgres connection parameters from a
/// connection string, service file, environment or pass file.
#[derive(Debug, Clone)]
pub enum PgConfigError {
    /// An I/O failure, carried as text.
    IOError(String),
    /// The service file could not be parsed; the text describes the fault.
    PgServiceFileError(String),
    /// A service file path was configured but no file stands there.
    PgServiceFileNotFound,
    /// No service block with the given name exists in any service file.
    PgServiceNotFound(String),
    /// `sslmode` was none of `disable`, `prefer`, `require`.
    InvalidSslMode(String),
    /// `port` was not an unsigned sixteen-bit decimal number.
    InvalidPort(String),
    /// `connect_timeout` was not an unsigned decimal number of seconds.
    InvalidConnectTimeout(String),
    /// `keepalives` was neither `1` nor `0`.
    InvalidKeepalives(String),
    /// `keepalives_idle` was not an unsigned decimal number of seconds.
    InvalidKeepalivesIdle(String),
    /// `channel_binding` was none of `disable`, `prefer`, `require`.
    InvalidChannelBinding(String),
    /// A connection string of the form `service=` names no service.
    MissingServiceName,
    /// The database driver rejected the connection string.
    PostgresConfig(String),
    /// A pass file line does not hold the five `:`-separated fields.
    PassfileParseError,
    /// The pass file permission bits are not exactly `0600`.
    InvalidPassFileMode,
}

/// Top-level error of the hub.
#[derive(Debug, Clone)]
pub enum Error {
    /// An I/O failure, carried as text.
    IO(String),
    /// The configuration file could not be parsed.
    ConfigFormat(String),
    /// The system clock failed.
    SystemTime,
    /// The configuration is well-formed but invalid; the text says why.
    Config(String),
    /// Connection-parameter resolution failed.
    PostgresConnection(PgConfigError),
    /// The database reported an error, carried as text.
    Postgres(String),
    /// A subscription request named an unknown channel id.
    SubscriptionNotFound,
    /// The TLS material for Postgres connections could not be used.
    PostgresTls(String),
    /// The TLS material for the HTTP listener could not be used.
    ServerTls(String),
}

impl Error {
    /// The HTTP status reported for this error: `404` for an unknown
    /// subscription, `500` for everything else.
    pub fn status_code(&self) -> (r: u16)
        ensures
            r == 404 <==> self is SubscriptionNotFound,
            self !is SubscriptionNotFound ==> r == 500,
    {
        match self {
            Error::SubscriptionNotFound => 404,
            _ => 500,
        }
    }
}

} // verus!
