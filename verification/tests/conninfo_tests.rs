//! Parameter merging and decimal parsing.

use pg_event_server::conninfo::{set_parameter, ChannelBinding, ConnectParams, Host, SslMode};
use pg_event_server::errors::PgConfigError;
use pg_event_server::strutil::{parse_dec_u16, parse_dec_u64};

#[test]
fn defaults_match_driver() {
    let p = ConnectParams::new();
    assert!(p.hosts.is_empty());
    assert!(p.ports.is_empty());
    assert!(p.dbname.is_none());
    assert!(p.user.is_none());
    assert!(p.password.is_none());
    assert!(matches!(p.ssl_mode, SslMode::Prefer));
    assert!(matches!(p.channel_binding, ChannelBinding::Prefer));
    assert!(p.keepalives);
    assert_eq!(p.keepalives_idle, 7200);
}

#[test]
fn first_writer_wins_for_user() {
    let mut p = ConnectParams::new();
    set_parameter(&mut p, "user", "alice").unwrap();
    set_parameter(&mut p, "user", "bob").unwrap();
    assert_eq!(p.user.as_deref(), Some("alice"));
}

#[test]
fn last_writer_wins_for_sslmode() {
    let mut p = ConnectParams::new();
    set_parameter(&mut p, "sslmode", "disable").unwrap();
    set_parameter(&mut p, "sslmode", "require").unwrap();
    assert!(matches!(p.ssl_mode, SslMode::Require));
}

#[test]
fn port_parses_and_guards() {
    let mut p = ConnectParams::new();
    set_parameter(&mut p, "port", "1234").unwrap();
    assert_eq!(p.ports, vec![1234u16]);
    // a second port does not overwrite
    set_parameter(&mut p, "port", "9999").unwrap();
    assert_eq!(p.ports, vec![1234u16]);
}

#[test]
fn invalid_port_is_rejected() {
    let mut p = ConnectParams::new();
    let e = set_parameter(&mut p, "port", "12ab").unwrap_err();
    assert!(matches!(e, PgConfigError::InvalidPort(v) if v == "12ab"));
    assert!(p.ports.is_empty());
}

#[test]
fn invalid_connect_timeout_is_rejected() {
    let mut p = ConnectParams::new();
    let e = set_parameter(&mut p, "connect_timeout", "soon").unwrap_err();
    assert!(matches!(e, PgConfigError::InvalidConnectTimeout(v) if v == "soon"));
    set_parameter(&mut p, "connect_timeout", "30").unwrap();
    assert_eq!(p.connect_timeout, Some(30));
}

#[test]
fn keepalives_accepts_only_bits() {
    let mut p = ConnectParams::new();
    set_parameter(&mut p, "keepalives", "0").unwrap();
    assert!(!p.keepalives);
    set_parameter(&mut p, "keepalives", "1").unwrap();
    assert!(p.keepalives);
    let e = set_parameter(&mut p, "keepalives", "yes").unwrap_err();
    assert!(matches!(e, PgConfigError::InvalidKeepalives(v) if v == "yes"));
}

#[test]
fn keepalives_idle_parses() {
    let mut p = ConnectParams::new();
    set_parameter(&mut p, "keepalives_idle", "90").unwrap();
    assert_eq!(p.keepalives_idle, 90);
    let e = set_parameter(&mut p, "keepalives_idle", "brief").unwrap_err();
    assert!(matches!(e, PgConfigError::InvalidKeepalivesIdle(v) if v == "brief"));
}

#[test]
fn channel_binding_parses() {
    let mut p = ConnectParams::new();
    set_parameter(&mut p, "channel_binding", "require").unwrap();
    assert!(matches!(p.channel_binding, ChannelBinding::Require));
    let e = set_parameter(&mut p, "channel_binding", "maybe").unwrap_err();
    assert!(matches!(e, PgConfigError::InvalidChannelBinding(v) if v == "maybe"));
}

#[test]
fn invalid_sslmode_is_rejected() {
    let mut p = ConnectParams::new();
    let e = set_parameter(&mut p, "sslmode", "always").unwrap_err();
    assert!(matches!(e, PgConfigError::InvalidSslMode(v) if v == "always"));
}

#[test]
fn host_distinguishes_unix_paths() {
    let mut p = ConnectParams::new();
    set_parameter(&mut p, "host", "/var/run/postgresql").unwrap();
    assert!(matches!(&p.hosts[0], Host::Unix(s) if s == "/var/run/postgresql"));
    let mut q = ConnectParams::new();
    set_parameter(&mut q, "host", "db.example.org").unwrap();
    assert!(matches!(&q.hosts[0], Host::Tcp(s) if s == "db.example.org"));
    // a second host is ignored once one is set
    set_parameter(&mut q, "host", "other.example.org").unwrap();
    assert_eq!(q.hosts.len(), 1);
}

#[test]
fn application_name_is_kept_when_unset() {
    let mut p = ConnectParams::new();
    set_parameter(&mut p, "application_name", "hub").unwrap();
    assert_eq!(p.application_name.as_deref(), Some("hub"));
    set_parameter(&mut p, "application_name", "other").unwrap();
    assert_eq!(p.application_name.as_deref(), Some("hub"));
}

#[test]
fn unknown_keys_are_ignored() {
    let mut p = ConnectParams::new();
    set_parameter(&mut p, "nonsense", "x").unwrap();
    set_parameter(&mut p, "passfile", "y").unwrap();
    assert!(p.user.is_none());
}

#[test]
fn decimal_parsing() {
    assert_eq!(parse_dec_u16("1234"), Some(1234));
    assert_eq!(parse_dec_u16("+80"), Some(80));
    assert_eq!(parse_dec_u16("0000080"), Some(80));
    assert_eq!(parse_dec_u16("65535"), Some(65535));
    assert_eq!(parse_dec_u16("65536"), None);
    assert_eq!(parse_dec_u16(""), None);
    assert_eq!(parse_dec_u16("+"), None);
    assert_eq!(parse_dec_u16("12a"), None);
    assert_eq!(parse_dec_u64("18446744073709551615"), Some(u64::MAX));
    assert_eq!(parse_dec_u64("18446744073709551616"), None);
    assert_eq!(parse_dec_u64("99999999999999999999999999"), None);
}
