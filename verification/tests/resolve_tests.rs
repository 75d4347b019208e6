//! Resolution against service files and the environment.

use pg_event_server::conninfo::{set_parameter, ConnectParams, Host};
use pg_event_server::errors::PgConfigError;
use pg_event_server::resolve::{
    apply_sources, conn_plan, load_config_from_env, FileStatus, PgEnv, ServiceFiles,
};

fn no_files() -> ServiceFiles {
    ServiceFiles { user: FileStatus::Absent, sysconf: FileStatus::Absent }
}

#[test]
fn from_environment() {
    let env = PgEnv {
        pguser: Some("foo".to_string()),
        pghost: Some("foo.com".to_string()),
        pgdatabase: Some("foodb".to_string()),
        pgport: Some("1234".to_string()),
        ..PgEnv::empty()
    };
    let mut p = ConnectParams::new();
    apply_sources(&mut p, None, &no_files(), &env).unwrap();
    assert_eq!(p.user.as_deref(), Some("foo"));
    assert_eq!(p.ports, vec![1234u16]);
    assert!(matches!(&p.hosts[0], Host::Tcp(s) if s == "foo.com"));
    assert_eq!(p.dbname.as_deref(), Some("foodb"));
}

#[test]
fn environment_never_overwrites() {
    let env = PgEnv { pguser: Some("foo".to_string()), ..PgEnv::empty() };
    let mut p = ConnectParams::new();
    set_parameter(&mut p, "user", "explicit").unwrap();
    load_config_from_env(&mut p, &env).unwrap();
    assert_eq!(p.user.as_deref(), Some("explicit"));
}

#[test]
fn environment_supplies_application_name() {
    let env = PgEnv { pgappname: Some("hub".to_string()), ..PgEnv::empty() };
    let mut p = ConnectParams::new();
    load_config_from_env(&mut p, &env).unwrap();
    assert_eq!(p.application_name.as_deref(), Some("hub"));

    // but not over one the connection string already set
    let mut q = ConnectParams::new();
    set_parameter(&mut q, "application_name", "explicit").unwrap();
    load_config_from_env(&mut q, &env).unwrap();
    assert_eq!(q.application_name.as_deref(), Some("explicit"));
}

const BAR_SERVICE: &str = "[bar]\nhost=bar.com\nport=1234\ndbname=bardb\nuser=bar\n";

#[test]
fn from_service_file() {
    let plan = conn_plan(Some("service=bar"), None);
    assert_eq!(plan.service.as_deref(), Some("bar"));
    assert!(plan.conn_str.is_none());

    let files = ServiceFiles {
        user: FileStatus::Absent,
        sysconf: FileStatus::Contents(BAR_SERVICE.to_string()),
    };
    let mut p = ConnectParams::new();
    apply_sources(&mut p, plan.service.as_ref(), &files, &PgEnv::empty()).unwrap();
    assert_eq!(p.user.as_deref(), Some("bar"));
    assert_eq!(p.ports, vec![1234u16]);
    assert!(matches!(&p.hosts[0], Host::Tcp(s) if s == "bar.com"));
    assert_eq!(p.dbname.as_deref(), Some("bardb"));
}

#[test]
fn service_override() {
    let plan = conn_plan(Some("service=bar user=baz"), None);
    assert_eq!(plan.service.as_deref(), Some("bar"));
    assert_eq!(plan.conn_str.as_deref(), Some("user=baz"));

    // the connection string is applied first, the service after it
    let mut p = ConnectParams::new();
    set_parameter(&mut p, "user", "baz").unwrap();
    let files = ServiceFiles {
        user: FileStatus::Absent,
        sysconf: FileStatus::Contents(BAR_SERVICE.to_string()),
    };
    apply_sources(&mut p, plan.service.as_ref(), &files, &PgEnv::empty()).unwrap();
    assert_eq!(p.user.as_deref(), Some("baz"));
    assert_eq!(p.dbname.as_deref(), Some("bardb"));
}

#[test]
fn user_file_takes_precedence() {
    let user_file = "[bar]\nuser=from_user_file\n";
    let files = ServiceFiles {
        user: FileStatus::Contents(user_file.to_string()),
        sysconf: FileStatus::Contents(BAR_SERVICE.to_string()),
    };
    let mut p = ConnectParams::new();
    let name = "bar".to_string();
    apply_sources(&mut p, Some(&name), &files, &PgEnv::empty()).unwrap();
    assert_eq!(p.user.as_deref(), Some("from_user_file"));
    // the system file was never consulted
    assert!(p.dbname.is_none());
}

#[test]
fn service_not_found() {
    let files = ServiceFiles {
        user: FileStatus::Absent,
        sysconf: FileStatus::Contents(BAR_SERVICE.to_string()),
    };
    let mut p = ConnectParams::new();
    let name = "missing".to_string();
    let e = apply_sources(&mut p, Some(&name), &files, &PgEnv::empty()).unwrap_err();
    assert!(matches!(e, PgConfigError::PgServiceNotFound(s) if s == "missing"));
}

#[test]
fn service_file_missing_on_disk() {
    let files = ServiceFiles { user: FileStatus::Missing, sysconf: FileStatus::Absent };
    let mut p = ConnectParams::new();
    let name = "bar".to_string();
    let e = apply_sources(&mut p, Some(&name), &files, &PgEnv::empty()).unwrap_err();
    assert!(matches!(e, PgConfigError::PgServiceFileNotFound));
}

#[test]
fn service_file_bad_ini() {
    let files = ServiceFiles {
        user: FileStatus::Contents("[bar".to_string()),
        sysconf: FileStatus::Absent,
    };
    let mut p = ConnectParams::new();
    let name = "bar".to_string();
    let e = apply_sources(&mut p, Some(&name), &files, &PgEnv::empty()).unwrap_err();
    assert!(matches!(e, PgConfigError::PgServiceFileError(_)));
}

#[test]
fn plan_uses_pgservice_when_no_prefix() {
    let svc = "fromenv".to_string();
    let plan = conn_plan(Some("  host=x dbname=y"), Some(&svc));
    assert_eq!(plan.service.as_deref(), Some("fromenv"));
    assert_eq!(plan.conn_str.as_deref(), Some("host=x dbname=y"));

    let plan = conn_plan(None, Some(&svc));
    assert_eq!(plan.service.as_deref(), Some("fromenv"));
    assert!(plan.conn_str.is_none());

    let plan = conn_plan(None, None);
    assert!(plan.service.is_none());
    assert!(plan.conn_str.is_none());
}
