//! Configuration sanitizing and validation.

use pg_event_server::config::{
    default_events_buffer_size, default_reconnection_delay, default_ssl_enabled, default_title,
    default_worker_buffer_size, ChannelConfig, ChannelSetConfig, PgTlsConfig, Server, Settings,
};
use pg_event_server::errors::Error;

fn server() -> Server {
    Server {
        listen: "127.0.0.1:8080".to_string(),
        title: "My Title".to_string(),
        num_workers: None,
        ssl_enabled: false,
        ssl_key_file: None,
        ssl_cert_file: None,
    }
}

fn channel(id: &str, events: &[&str]) -> ChannelConfig {
    ChannelConfig {
        id: id.to_string(),
        allowed_events: events.iter().map(|e| e.to_string()).collect(),
        connection_string: Some("host=db1 dbname=shop user=app".to_string()),
    }
}

fn settings(channels: Vec<ChannelConfig>) -> Settings {
    Settings {
        server: server(),
        channels,
        worker_buffer_size: default_worker_buffer_size(),
        events_buffer_size: default_events_buffer_size(),
        reconnect_delay: default_reconnection_delay(),
        postgres_tls: None,
    }
}

#[test]
fn load_configuration() {
    let s = settings(vec![
        channel("/foo_events", &["foo", "bar", "baz"]),
        channel("bar_events", &["pub"]),
    ]);
    let s = s.build("/etc/hub").unwrap();
    assert_eq!(s.server.title, "My Title");
    assert_eq!(s.channels.len(), 2);
    let chan0 = &s.channels[0];
    assert_eq!(chan0.allowed_events, ["foo", "bar", "baz"]);
    // the leading slash is trimmed off the id
    assert_eq!(chan0.id, "foo_events");
}

#[test]
fn defaults() {
    assert_eq!(default_title(), "Pg event server");
    assert_eq!(default_worker_buffer_size(), 1);
    assert_eq!(default_events_buffer_size(), 1024);
    assert_eq!(default_reconnection_delay(), 60);
    assert!(!default_ssl_enabled());
}

#[test]
fn duplicate_ids_are_rejected() {
    let s = settings(vec![channel("orders", &["a"]), channel("/orders", &["b"])]);
    let e = s.build("/etc/hub").unwrap_err();
    assert!(matches!(e, Error::Config(msg) if msg.contains("orders")));
}

#[test]
fn sanitize_resolves_paths_and_workers() {
    let mut s = settings(vec![]);
    s.server.num_workers = Some(0);
    s.server.ssl_key_file = Some("certs/key.pem".to_string());
    s.server.ssl_cert_file = Some("/abs/cert.pem".to_string());
    s.sanitize("/etc/hub");
    assert_eq!(s.server.num_workers, None);
    assert_eq!(s.server.ssl_key_file.as_deref(), Some("/etc/hub/certs/key.pem"));
    assert_eq!(s.server.ssl_cert_file.as_deref(), Some("/abs/cert.pem"));
}

#[test]
fn tls_pairing_is_checked() {
    let ok_none = PgTlsConfig {
        tls_ca_file: Some("ca.pem".to_string()),
        tls_client_auth_key: None,
        tls_client_auth_cert: None,
    };
    assert!(ok_none.check().is_ok());

    let ok_both = PgTlsConfig {
        tls_ca_file: None,
        tls_client_auth_key: Some("k.pem".to_string()),
        tls_client_auth_cert: Some("c.pem".to_string()),
    };
    assert!(ok_both.check().is_ok());

    let missing_cert = PgTlsConfig {
        tls_ca_file: None,
        tls_client_auth_key: Some("k.pem".to_string()),
        tls_client_auth_cert: None,
    };
    assert!(matches!(missing_cert.check().unwrap_err(), Error::Config(_)));

    let mut s = settings(vec![]);
    s.postgres_tls = Some(missing_cert);
    assert!(s.build("/etc/hub").is_err());
}

#[test]
fn drop_in_channel_sets_are_appended() {
    let mut s = settings(vec![channel("a", &[])]);
    let sets = vec![
        ChannelSetConfig { channels: vec![channel("b", &[])] },
        ChannelSetConfig { channels: vec![channel("c", &[]), channel("d", &[])] },
    ];
    s.append_channel_sets(sets);
    let ids: Vec<&str> = s.channels.iter().map(|c| c.id.as_str()).collect();
    assert_eq!(ids, ["a", "b", "c", "d"]);
}

#[test]
fn subscriptions_lists_ids_in_order() {
    let s = settings(vec![channel("orders", &[]), channel("stock", &[])]);
    assert_eq!(s.subscriptions(), ["orders", "stock"]);
}
