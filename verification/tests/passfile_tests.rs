//! Password lookup in pass-file lines.

use pg_event_server::conninfo::{set_parameter, ConnectParams};
use pg_event_server::errors::PgConfigError;
use pg_event_server::passfile::{
    check_passfile_mode, get_password, match_dbname, match_host, match_port, match_username,
    password_from_passfile_lines,
};

fn config(host: &str, dbname: &str, user: &str) -> ConnectParams {
    let mut p = ConnectParams::new();
    set_parameter(&mut p, "host", host).unwrap();
    set_parameter(&mut p, "dbname", dbname).unwrap();
    set_parameter(&mut p, "user", user).unwrap();
    p
}

fn fixture_lines() -> Vec<String> {
    vec![
        "# a comment line".to_string(),
        "".to_string(),
        "db.bar.com:*:bardb:bar:barpwd".to_string(),
        "/var/run/postgresql:*:foodb:foo:foopwd".to_string(),
    ]
}

#[test]
fn parse_passfile() {
    let mut conf = config("db.bar.com", "bardb", "bar");
    password_from_passfile_lines(&mut conf, &fixture_lines()).unwrap();
    assert_eq!(conf.password.as_deref(), Some("barpwd".as_bytes()));

    let mut conf = config("/var/run/postgresql", "foodb", "foo");
    password_from_passfile_lines(&mut conf, &fixture_lines()).unwrap();
    assert_eq!(conf.password.as_deref(), Some("foopwd".as_bytes()));

    let mut conf = config("/var/run/postgresql", "bazdb", "foo");
    password_from_passfile_lines(&mut conf, &fixture_lines()).unwrap();
    assert_eq!(conf.password, None);
}

#[test]
fn field_matching() {
    let conf = config("db.bar.com", "bardb", "bar");
    assert!(match_host("*", &conf).unwrap());
    assert!(match_host("db.bar.com", &conf).unwrap());
    assert!(!match_host("other.com", &conf).unwrap());
    assert!(match_dbname("bardb", &conf).unwrap());
    assert!(!match_dbname("other", &conf).unwrap());
    assert!(match_username("bar", &conf).unwrap());
    assert!(!match_username("root", &conf).unwrap());
    // no port configured: only the wildcard matches
    assert!(match_port("*", &conf).unwrap());
    assert!(!match_port("5432", &conf).unwrap());
}

#[test]
fn port_field_must_parse() {
    let conf = config("h", "d", "u");
    let e = match_port("what", &conf).unwrap_err();
    assert!(matches!(e, PgConfigError::PassfileParseError));
}

#[test]
fn short_line_is_a_parse_error() {
    let conf = config("h", "d", "u");
    // the host field matches, so the missing fields are noticed
    let e = get_password("h", &conf).unwrap_err();
    assert!(matches!(e, PgConfigError::PassfileParseError));
    // a non-matching host hides the short line
    assert_eq!(get_password("elsewhere", &conf).unwrap(), None);
}

#[test]
fn password_may_hold_no_colon_tail() {
    let conf = config("h", "d", "u");
    let r = get_password("h:*:d:u:pw:extra", &conf).unwrap();
    assert_eq!(r.as_deref(), Some("pw"));
}

#[test]
fn passfile_mode_bits() {
    assert!(check_passfile_mode(0o100600).is_ok());
    let e = check_passfile_mode(0o100644).unwrap_err();
    assert!(matches!(e, PgConfigError::InvalidPassFileMode));
    assert!(check_passfile_mode(0o600).is_ok());
    assert!(check_passfile_mode(0o660).is_err());
}
