//! The subscription table, broadcast cycles, and the SSE frame.

use pg_event_server::config::ChannelConfig;
use pg_event_server::errors::Error;
use pg_event_server::events::{dispatch_step, Channel, Notification, PgNotificationDispatch};
use pg_event_server::subscribe::{frame_for, render_frame, Broadcaster, SseClient};

fn client(chan_id: usize, ident: &str, sender: u32) -> SseClient<u32> {
    SseClient {
        chan_id,
        path: "orders".to_string(),
        ident: ident.to_string(),
        sender,
        realip_remote_addr: None,
        peer_addr: None,
        client_id: None,
    }
}

fn broadcaster() -> Broadcaster<u32> {
    Broadcaster::new(1, vec!["orders".to_string(), "stock".to_string()])
}

#[test]
fn unknown_subscription_is_a_404() {
    let bc = broadcaster();
    let e = bc.resolve_subscription("unknown").unwrap_err();
    assert_eq!(e.status_code(), 404);
    assert!(matches!(e, Error::SubscriptionNotFound));
}

#[test]
fn known_subscription_resolves_to_its_position() {
    let bc = broadcaster();
    assert_eq!(bc.resolve_subscription("orders").unwrap(), 0);
    assert_eq!(bc.resolve_subscription("stock").unwrap(), 1);
}

#[test]
fn other_errors_are_500() {
    assert_eq!(Error::SystemTime.status_code(), 500);
    assert_eq!(Error::Config("x".to_string()).status_code(), 500);
}

#[test]
fn reaper() {
    // a client whose send fails is gone after the cycle
    let mut bc = broadcaster();
    bc.insert_client(client(0, "ident-1", 7));
    assert_eq!(bc.subs[0].len(), 1);

    let failed = vec!["ident-1".to_string()];
    bc.reap_and_resolve(&[0], &failed);
    assert!(bc.subs[0].is_empty());

    // a later cycle over the same bucket sends nothing and errs nothing
    bc.reap_and_resolve(&[0], &Vec::new());
    assert!(bc.subs[0].is_empty());
}

#[test]
fn survivors_remain_subscribed() {
    let mut bc = broadcaster();
    bc.insert_client(client(0, "dead", 1));
    bc.insert_client(client(0, "alive", 2));
    bc.insert_client(client(1, "other", 3));

    let failed = vec!["dead".to_string()];
    bc.reap_and_resolve(&[0], &failed);

    assert_eq!(bc.subs[0].len(), 1);
    assert_eq!(bc.subs[0][0].ident, "alive");
    // a bucket outside the event's channels is untouched
    assert_eq!(bc.subs[1].len(), 1);
}

#[test]
fn pending_clients_are_resolved_at_cycle_end() {
    let mut bc = broadcaster();
    bc.insert_client(client(0, "a", 1));
    bc.defer_client(client(1, "b", 2));
    bc.defer_client(client(0, "c", 3));

    bc.reap_and_resolve(&[0], &Vec::new());

    assert!(bc.pending_subscriptions.is_empty());
    let idents0: Vec<&str> = bc.subs[0].iter().map(|c| c.ident.as_str()).collect();
    assert_eq!(idents0, ["a", "c"]);
    let idents1: Vec<&str> = bc.subs[1].iter().map(|c| c.ident.as_str()).collect();
    assert_eq!(idents1, ["b"]);
}

#[test]
fn frame_round_trip() {
    let channels = vec![Channel::new(
        42,
        ChannelConfig {
            id: "orders".to_string(),
            allowed_events: vec!["new_order".to_string()],
            connection_string: Some("host=db1 dbname=shop user=app".to_string()),
        },
    )];
    let dispatch = PgNotificationDispatch::new(
        Notification {
            process_id: 42,
            channel: "new_order".to_string(),
            payload: "o-42".to_string(),
        },
        42,
    );
    let event = dispatch_step(&channels, dispatch).unwrap();
    let frame = frame_for(&event);
    assert_eq!(frame.id, event.id());
    assert_eq!(frame.event, "new_order");
    assert_eq!(frame.data, "o-42");

    let wire = render_frame(&frame);
    let expected = format!("id: {}\nevent: new_order\ndata: o-42\n\n", event.id());
    assert_eq!(wire, expected);
}
