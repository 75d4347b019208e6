//! Notifications, routing, and the events handed to the workers.
//!
//! A listener session forwards raw notifications; the pool tags each one
//! with the session id it came from; the dispatcher computes which
//! configured channels are interested and emits an [`Event`] carrying
//! their positions.

use vstd::prelude::*;

use crate::config::ChannelConfig;
use crate::strutil::str_eq;
use crate::values::Values;

verus! {

/// The position of a channel binding in the dispatcher's array; the
/// routing key between dispatcher and broadcaster.
pub type ChanId = usize;

/// A raw Postgres notification: the backend process id that sent it, the
/// event (channel) name, and the payload.
#[derive(Debug, Clone)]
pub struct Notification {
    pub process_id: i32,
    pub channel: String,
    pub payload: String,
}

/// The view of a [`Notification`].
#[verifier::ext_equal]
pub struct NotificationView {
    pub process_id: i32,
    pub channel: Seq<char>,
    pub payload: Seq<char>,
}

impl View for Notification {
    type V = NotificationView;

    open spec fn view(&self) -> NotificationView {
        NotificationView {
            process_id: self.process_id,
            channel: self.channel@,
            payload: self.payload@,
        }
    }
}

impl Notification {
    /// The backend process id of the notifying session.
    pub fn process_id(&self) -> (r: i32)
        ensures
            r == self@.process_id,
    {
        self.process_id
    }

    /// The name of the notified event.
    pub fn channel(&self) -> (r: &str)
        ensures
            r@ == self@.channel,
    {
        self.channel.as_str()
    }

    /// The payload text.
    pub fn payload(&self) -> (r: &str)
        ensures
            r@ == self@.payload,
    {
        self.payload.as_str()
    }
}

/// A notification tagged with the id of the pool session that produced
/// it.
#[derive(Debug, Clone)]
pub struct PgNotificationDispatch {
    notification: Notification,
    dispatch_id: i32,
}

/// The view of a [`PgNotificationDispatch`].
#[verifier::ext_equal]
pub struct DispatchView {
    pub notification: NotificationView,
    pub dispatch_id: i32,
}

impl View for PgNotificationDispatch {
    type V = DispatchView;

    closed spec fn view(&self) -> DispatchView {
        DispatchView { notification: self.notification@, dispatch_id: self.dispatch_id }
    }
}

impl PgNotificationDispatch {
    /// Tag a notification with the session it came from.
    pub fn new(notification: Notification, dispatch_id: i32) -> (r: Self)
        ensures
            r@.notification == notification@,
            r@.dispatch_id == dispatch_id,
    {
        PgNotificationDispatch { notification, dispatch_id }
    }

    /// The tagged notification.
    pub fn notification(&self) -> (r: &Notification)
        ensures
            r@ == self@.notification,
    {
        &self.notification
    }

    /// The id of the producing session.
    pub fn dispatch_id(&self) -> (r: i32)
        ensures
            r == self@.dispatch_id,
    {
        self.dispatch_id
    }

    /// Give the notification up.
    pub fn take_notification(self) -> (r: Notification)
        ensures
            r@ == self@.notification,
    {
        self.notification
    }
}

// ---------------------------------------------------------------------------
// Channel bindings and routing
// ---------------------------------------------------------------------------
/// The runtime binding of one configured channel: the session it listens
/// on and the event names it accepts.
#[derive(Debug)]
pub struct Channel {
    /// Allowed events; empty means every event of the session.
    events: Vec<String>,
    /// The id of the session this channel was assigned to.
    dispatch_id: i32,
}

/// The view of a [`Channel`].
#[verifier::ext_equal]
pub struct ChannelView {
    pub events: Seq<Seq<char>>,
    pub dispatch_id: i32,
}

impl View for Channel {
    type V = ChannelView;

    closed spec fn view(&self) -> ChannelView {
        ChannelView {
            events: Seq::new(self.events@.len(), |i: int| self.events@[i]@),
            dispatch_id: self.dispatch_id,
        }
    }
}

/// A channel accepts a notification when it is bound to the producing
/// session and the event name is allowed (an empty allowed set accepts
/// everything).
pub open spec fn spec_is_listening_for(c: ChannelView, dispatch_id: i32, event: Seq<char>) -> bool {
    c.dispatch_id == dispatch_id && (c.events.len() == 0 || c.events.contains(event))
}

impl Channel {
    /// Bind a configured channel to the session it was assigned.
    pub fn new(dispatch_id: i32, conf: ChannelConfig) -> (r: Self)
        ensures
            r@.dispatch_id == dispatch_id,
            r@.events == conf@.allowed_events,
    {
        let r = Channel { events: conf.allowed_events, dispatch_id };
        proof {
            assert(r@.events =~= conf@.allowed_events);
        }
        r
    }

    /// Whether this channel accepts `event` from session `dispatch_id`,
    /// as [`spec_is_listening_for`] states it.
    #[verifier::loop_isolation(false)]
    pub fn is_listening_for(&self, dispatch_id: i32, event: &str) -> (r: bool)
        ensures
            r == spec_is_listening_for(self@, dispatch_id, event@),
    {
        if self.dispatch_id != dispatch_id {
            return false;
        }
        if self.events.len() == 0 {
            return true;
        }
        let mut i: usize = 0;
        while i < self.events.len()
            invariant
                0 <= i <= self.events@.len(),
                forall|j: int| 0 <= j < i ==> self@.events[j] != event@,
                self@.events.len() == self.events@.len(),
            decreases self.events@.len() - i,
        {
            if str_eq(self.events[i].as_str(), event) {
                assert(self@.events[i as int] == event@);
                return true;
            }
            i = i + 1;
        }
        assert(!self@.events.contains(event@));
        false
    }
}

/// The positions of every channel that accepts `event` from session
/// `dispatch_id`, in increasing order.
pub fn matching_channels(channels: &Vec<Channel>, dispatch_id: i32, event: &str) -> (r: Vec<ChanId>)
    ensures
        forall|k: int|
            0 <= k < r@.len() ==> #[trigger] r@[k] < channels@.len() && spec_is_listening_for(
                channels@[r@[k] as int]@,
                dispatch_id,
                event@,
            ),
        forall|j: int|
            0 <= j < channels@.len() && spec_is_listening_for(
                #[trigger] channels@[j]@,
                dispatch_id,
                event@,
            ) ==> r@.contains(j as ChanId),
        forall|a: int, b: int| 0 <= a < b < r@.len() ==> r@[a] < r@[b],
{
    let mut out: Vec<ChanId> = Vec::new();
    let mut j: usize = 0;
    while j < channels.len()
        invariant
            0 <= j <= channels@.len(),
            forall|k: int|
                0 <= k < out@.len() ==> #[trigger] out@[k] < j && spec_is_listening_for(
                    channels@[out@[k] as int]@,
                    dispatch_id,
                    event@,
                ),
            forall|i: int|
                0 <= i < j && spec_is_listening_for(
                    #[trigger] channels@[i]@,
                    dispatch_id,
                    event@,
                ) ==> out@.contains(i as ChanId),
            forall|a: int, b: int| 0 <= a < b < out@.len() ==> out@[a] < out@[b],
        decreases channels@.len() - j,
    {
        let ghost pre = out@;
        if channels[j].is_listening_for(dispatch_id, event) {
            out.push(j);
            proof {
                assert forall|i: int|
                    0 <= i < j + 1 && spec_is_listening_for(
                        #[trigger] channels@[i]@,
                        dispatch_id,
                        event@,
                    ) implies out@.contains(i as ChanId) by {
                    if i < j {
                        assert(pre.contains(i as ChanId));
                        let k = choose|k: int| 0 <= k < pre.len() && pre[k] == i as ChanId;
                        assert(out@[k] == i as ChanId);
                    } else {
                        assert(out@[out@.len() - 1] == j as ChanId);
                    }
                }
            }
        }
        j = j + 1;
    }
    out
}

// ---------------------------------------------------------------------------
// Events
// ---------------------------------------------------------------------------
/// The event broadcast to every worker.
#[derive(Debug, Clone)]
pub struct Event {
    id: String,
    event: String,
    session: i32,
    payload: String,
    channels: Values<ChanId>,
}

/// The view of an [`Event`].
#[verifier::ext_equal]
pub struct EventView {
    pub id: Seq<char>,
    pub event: Seq<char>,
    pub session: i32,
    pub payload: Seq<char>,
    pub channels: Seq<ChanId>,
}

impl View for Event {
    type V = EventView;

    closed spec fn view(&self) -> EventView {
        EventView {
            id: self.id@,
            event: self.event@,
            session: self.session,
            payload: self.payload@,
            channels: self.channels@,
        }
    }
}

impl Event {
    /// Build an event from a notification: the event keeps the
    /// notification's channel name, session and payload, with the given
    /// unique id and routed channel positions.
    pub fn new(id: String, notification: Notification, channels: Values<ChanId>) -> (r: Self)
        ensures
            r@.id == id@,
            r@.event == notification@.channel,
            r@.session == notification@.process_id,
            r@.payload == notification@.payload,
            r@.channels == channels@,
    {
        Event {
            id,
            session: notification.process_id,
            event: notification.channel,
            payload: notification.payload,
            channels,
        }
    }

    /// The unique id of this event.
    pub fn id(&self) -> (r: &str)
        ensures
            r@ == self@.id,
    {
        self.id.as_str()
    }

    /// The channel positions to notify.
    pub fn channels(&self) -> (r: &[ChanId])
        ensures
            r@ == self@.channels,
    {
        self.channels.as_slice()
    }

    /// The Postgres event name.
    pub fn event(&self) -> (r: &str)
        ensures
            r@ == self@.event,
    {
        self.event.as_str()
    }

    /// The backend process id of the producing session.
    pub fn session_pid(&self) -> (r: i32)
        ensures
            r == self@.session,
    {
        self.session
    }

    /// The payload text.
    pub fn payload(&self) -> (r: &str)
        ensures
            r@ == self@.payload,
    {
        self.payload.as_str()
    }
}

impl Default for Event {
    /// The placeholder event that primes the fan-out bus: every field
    /// empty, no channel listed.
    fn default() -> (r: Event)
        ensures
            r@.id.len() == 0,
            r@.event.len() == 0,
            r@.payload.len() == 0,
            r@.channels.len() == 0,
            r@.session == 0,
    {
        Event {
            id: String::new(),
            event: String::new(),
            session: 0,
            payload: String::new(),
            channels: Values::default(),
        }
    }
}

/// The hyphenated rendering of a UUID: 36 characters, a `-` at the four
/// fixed positions and a lowercase hexadecimal digit everywhere else.
pub open spec fn spec_uuid_hyphenated(s: Seq<char>) -> bool {
    s.len() == 36 && forall|i: int|
        0 <= i < 36 ==> (if i == 8 || i == 13 || i == 18 || i == 23 {
            s[i] == '-'
        } else {
            ('0' <= #[trigger] s[i] && s[i] <= '9') || ('a' <= s[i] && s[i] <= 'f')
        })
}

/// Relies on `uuid::Uuid::new_v4` and its `Display` form: a fresh random
/// identifier in the hyphenated lowercase-hex shape. Nothing relates two
/// calls: the value is random. Does not return if the operating system's
/// random source fails.
#[verifier::external_body]
fn fresh_uuid() -> (r: String)
    ensures
        spec_uuid_hyphenated(r@),
        r.is_ascii(),
{
    uuid::Uuid::new_v4().to_string()
}

/// Route one tagged notification: when at least one channel accepts it,
/// an event carrying exactly the accepting positions and a fresh unique
/// id; otherwise nothing, and the notification is dropped.
pub fn dispatch_step(channels: &Vec<Channel>, dispatch: PgNotificationDispatch) -> (r: Option<
    Event,
>)
    ensures
        (r is Some) <==> (exists|j: int|
            0 <= j < channels@.len() && spec_is_listening_for(
                #[trigger] channels@[j]@,
                dispatch@.dispatch_id,
                dispatch@.notification.channel,
            )),
        r matches Some(e) ==> {
            &&& e@.event == dispatch@.notification.channel
            &&& e@.session == dispatch@.notification.process_id
            &&& e@.payload == dispatch@.notification.payload
            &&& spec_uuid_hyphenated(e@.id)
            &&& forall|k: int|
                0 <= k < e@.channels.len() ==> #[trigger] e@.channels[k] < channels@.len()
                    && spec_is_listening_for(
                    channels@[e@.channels[k] as int]@,
                    dispatch@.dispatch_id,
                    dispatch@.notification.channel,
                )
            &&& forall|j: int|
                0 <= j < channels@.len() && spec_is_listening_for(
                    #[trigger] channels@[j]@,
                    dispatch@.dispatch_id,
                    dispatch@.notification.channel,
                ) ==> e@.channels.contains(j as ChanId)
            &&& forall|a: int, b: int|
                0 <= a < b < e@.channels.len() ==> e@.channels[a] < e@.channels[b]
        },
{
    let dispatch_id = dispatch.dispatch_id();
    let ids = matching_channels(channels, dispatch_id, dispatch.notification().channel());
    if ids.len() == 0 {
        proof {
            assert(forall|j: int|
                0 <= j < channels@.len() ==> !spec_is_listening_for(
                    #[trigger] channels@[j]@,
                    dispatch@.dispatch_id,
                    dispatch@.notification.channel,
                )) by {
                assert(forall|j: int|
                    0 <= j < channels@.len() && spec_is_listening_for(
                        #[trigger] channels@[j]@,
                        dispatch@.dispatch_id,
                        dispatch@.notification.channel,
                    ) ==> ids@.contains(j as ChanId));
            }
        }
        None
    } else {
        let ghost idsv = ids@;
        let id = fresh_uuid();
        let e = Event::new(id, dispatch.take_notification(), Values::from_vec(ids));
        proof {
            assert(e@.channels == idsv);
            assert(spec_is_listening_for(
                channels@[idsv[0] as int]@,
                dispatch@.dispatch_id,
                dispatch@.notification.channel,
            ));
        }
        Some(e)
    }
}

} // verus!
