//! Bridge from Postgres `NOTIFY` messages to Server-Sent-Events streams.
//!
//! The crate holds the verified core of the hub: connection-parameter
//! resolution, configuration validation, notification routing, the listener
//! pool bookkeeping and the per-worker subscription table. Everything that
//! performs I/O (the HTTP server, the live Postgres connections, file
//! reading) lives outside and drives these functions with plain values.

pub mod config;
pub mod conninfo;
pub mod errors;
pub mod events;
pub mod passfile;
pub mod pool;
pub mod resolve;
pub mod strutil;
pub mod subscribe;
pub mod values;
