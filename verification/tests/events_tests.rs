//! Routing and event construction.

use pg_event_server::config::ChannelConfig;
use pg_event_server::events::{
    dispatch_step, matching_channels, Channel, Event, Notification, PgNotificationDispatch,
};
use pg_event_server::values::Values;

fn chan_conf(id: &str, events: &[&str]) -> ChannelConfig {
    ChannelConfig {
        id: id.to_string(),
        allowed_events: events.iter().map(|e| e.to_string()).collect(),
        connection_string: Some("host=db1 dbname=shop user=app".to_string()),
    }
}

fn notification(pid: i32, channel: &str, payload: &str) -> Notification {
    Notification { process_id: pid, channel: channel.to_string(), payload: payload.to_string() }
}

#[test]
fn simple_fan_out() {
    let channels = vec![Channel::new(42, chan_conf("orders", &["new_order"]))];
    let dispatch = PgNotificationDispatch::new(notification(42, "new_order", "o-42"), 42);
    let event = dispatch_step(&channels, dispatch).unwrap();
    assert_eq!(event.channels(), &[0]);
    assert_eq!(event.event(), "new_order");
    assert_eq!(event.payload(), "o-42");
    assert_eq!(event.session_pid(), 42);
    assert_eq!(event.id().len(), 36);
    for (i, c) in event.id().chars().enumerate() {
        if i == 8 || i == 13 || i == 18 || i == 23 {
            assert_eq!(c, '-');
        } else {
            assert!(c.is_ascii_hexdigit() && !c.is_ascii_uppercase());
        }
    }
}

#[test]
fn filtered_drop() {
    let channels = vec![Channel::new(42, chan_conf("orders", &["new_order"]))];
    let dispatch = PgNotificationDispatch::new(notification(42, "irrelevant", "x"), 42);
    assert!(dispatch_step(&channels, dispatch).is_none());
}

#[test]
fn allow_all_channel() {
    let channels = vec![Channel::new(42, chan_conf("orders", &[]))];
    let dispatch = PgNotificationDispatch::new(notification(42, "anything", "p"), 42);
    let event = dispatch_step(&channels, dispatch).unwrap();
    assert_eq!(event.channels(), &[0]);
    assert_eq!(event.event(), "anything");
    assert_eq!(event.payload(), "p");
}

#[test]
fn dispatch_id_prevents_cross_session_leakage() {
    let channels = vec![
        Channel::new(42, chan_conf("a", &["ev"])),
        Channel::new(43, chan_conf("b", &["ev"])),
    ];
    assert_eq!(matching_channels(&channels, 42, "ev"), vec![0]);
    assert_eq!(matching_channels(&channels, 43, "ev"), vec![1]);
    assert_eq!(matching_channels(&channels, 44, "ev"), Vec::<usize>::new());
}

#[test]
fn matching_is_byte_exact() {
    let channels = vec![Channel::new(1, chan_conf("a", &["Event"]))];
    assert!(matching_channels(&channels, 1, "event").is_empty());
    assert_eq!(matching_channels(&channels, 1, "Event"), vec![0]);
}

#[test]
fn event_ids_are_fresh() {
    let channels = vec![Channel::new(42, chan_conf("orders", &[]))];
    let e1 = dispatch_step(
        &channels,
        PgNotificationDispatch::new(notification(42, "ev", "1"), 42),
    )
    .unwrap();
    let e2 = dispatch_step(
        &channels,
        PgNotificationDispatch::new(notification(42, "ev", "2"), 42),
    )
    .unwrap();
    assert_ne!(e1.id(), e2.id());
}

#[test]
fn event_accessors() {
    let n = notification(7, "ev", "payload");
    let e = Event::new("id-1".to_string(), n, Values::from_vec(vec![3usize, 5]));
    assert_eq!(e.id(), "id-1");
    assert_eq!(e.event(), "ev");
    assert_eq!(e.session_pid(), 7);
    assert_eq!(e.payload(), "payload");
    assert_eq!(e.channels(), &[3, 5]);
}

#[test]
fn tagged_notification_accessors() {
    let d = PgNotificationDispatch::new(notification(9, "ev", "p"), 11);
    assert_eq!(d.dispatch_id(), 11);
    assert_eq!(d.notification().process_id(), 9);
    let n = d.take_notification();
    assert_eq!(n.channel(), "ev");
    assert_eq!(n.payload(), "p");
}

#[test]
fn default_event_is_empty() {
    let e = Event::default();
    assert_eq!(e.id(), "");
    assert!(e.channels().is_empty());
}
