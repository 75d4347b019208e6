//! Pool bookkeeping: deduplication, listen sets, reconnect outcomes.

use pg_event_server::conninfo::{set_parameter, ConnectParams};
use pg_event_server::pool::{ListenerSession, Pool};

fn params(host: &str, dbname: &str, user: &str) -> ConnectParams {
    let mut p = ConnectParams::new();
    set_parameter(&mut p, "host", host).unwrap();
    set_parameter(&mut p, "dbname", dbname).unwrap();
    set_parameter(&mut p, "user", user).unwrap();
    p
}

#[test]
fn shared_session() {
    // two channels with the same (host, dbname, user) share one session
    let mut pool = Pool::new();
    let first = params("db1", "shop", "app");
    assert!(pool.find_session(&first).is_none());
    let idx = pool.register_session(ListenerSession::new(first, 101));
    pool.listen_on(idx, "a");

    let second = params("db1", "shop", "app");
    let found = pool.find_session(&second).unwrap();
    assert_eq!(found, idx);
    pool.listen_on(found, "b");

    assert_eq!(pool.len(), 1);
    assert_eq!(pool.session(0).session_pid(), 101);
}

#[test]
fn distinct_targets_get_distinct_sessions() {
    let mut pool = Pool::new();
    let a = params("db1", "shop", "app");
    pool.register_session(ListenerSession::new(a, 101));
    let b = params("db2", "shop", "app");
    assert!(pool.find_session(&b).is_none());
    pool.register_session(ListenerSession::new(b, 102));
    assert_eq!(pool.len(), 2);
}

#[test]
fn listen_set_changes_only_once() {
    let mut s = ListenerSession::new(params("h", "d", "u"), 7);
    assert!(s.mark_listen("ev"));
    assert!(!s.mark_listen("ev"));
    assert!(s.mark_unlisten("ev"));
    assert!(!s.mark_unlisten("ev"));
}

#[test]
fn listen_sql_shapes() {
    assert_eq!(ListenerSession::listen_sql("new_order"), "LISTEN new_order;");
    let evs = vec!["a".to_string(), "b".to_string()];
    assert_eq!(ListenerSession::batch_listen_sql(&evs), "LISTEN a;LISTEN b;");
    assert_eq!(ListenerSession::batch_listen_sql(&Vec::new()), "");
}

#[test]
fn reconnect_respawns_closed_sessions() {
    let mut pool = Pool::new();
    let i0 = pool.register_session(ListenerSession::new(params("db1", "shop", "app"), 101));
    let i1 = pool.register_session(ListenerSession::new(params("db2", "shop", "app"), 102));
    pool.listen_on(i0, "ev");
    pool.close_session(i0);

    assert_eq!(pool.closed_indices(), vec![i0]);

    // the sweep respawns the closed session with a fresh pid
    pool.apply_respawns(&vec![(i0, Some(201))]);
    assert_eq!(pool.session(i0).session_pid(), 201);
    assert!(!pool.session(i0).is_closed());
    // the listen set survives the respawn
    assert_eq!(pool.session(i0).events(), &["ev".to_string()]);
    // the other session is untouched
    assert_eq!(pool.session(i1).session_pid(), 102);
    assert_eq!(pool.len(), 2);
}

#[test]
fn failed_respawn_leaves_session_closed() {
    let mut pool = Pool::new();
    let i0 = pool.register_session(ListenerSession::new(params("db1", "shop", "app"), 101));
    pool.close_session(i0);
    pool.apply_respawns(&vec![(i0, None)]);
    assert!(pool.session(i0).is_closed());
    assert_eq!(pool.session(i0).session_pid(), 101);
    assert_eq!(pool.closed_indices(), vec![i0]);
}
