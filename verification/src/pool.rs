//! The listener pool: one record per live Postgres LISTEN session.
//!
//! The live connections stay with the caller; the pool holds what the
//! hub decides with — each session's resolved parameters, backend pid,
//! listen set and closed flag — and enforces that one session serves one
//! target. The caller connects and reconnects, and records the outcomes
//! here.

use vstd::prelude::*;

use crate::conninfo::{same_target, spec_same_target, ConnectParams, ParamsView};
use crate::strutil::{str_eq, strs_view};

verus! {

/// The state of one LISTEN session.
#[derive(Debug)]
pub struct ListenerSession {
    params: ConnectParams,
    session_pid: i32,
    events: Vec<String>,
    closed: bool,
}

/// The view of a [`ListenerSession`].
#[verifier::ext_equal]
pub struct SessionView {
    pub params: ParamsView,
    pub session_pid: i32,
    pub events: Seq<Seq<char>>,
    pub closed: bool,
}

impl View for ListenerSession {
    type V = SessionView;

    closed spec fn view(&self) -> SessionView {
        SessionView {
            params: self.params@,
            session_pid: self.session_pid,
            events: strs_view(self.events@),
            closed: self.closed,
        }
    }
}

impl ListenerSession {
    /// The listen set holds each event name once.
    pub open spec fn wf(&self) -> bool {
        forall|a: int, b: int|
            0 <= a < b < self@.events.len() ==> self@.events[a] != self@.events[b]
    }

    /// Record a session that the caller has just connected: its resolved
    /// parameters and the backend pid the server assigned; nothing
    /// listened to yet.
    pub fn new(params: ConnectParams, session_pid: i32) -> (r: Self)
        ensures
            r@.params == params@,
            r@.session_pid == session_pid,
            r@.events.len() == 0,
            !r@.closed,
            r.wf(),
    {
        let r = ListenerSession { params, session_pid, events: Vec::new(), closed: false };
        proof {
            assert(r@.events =~= Seq::<Seq<char>>::empty());
        }
        r
    }

    /// The resolved parameters this session was connected with.
    pub fn config(&self) -> (r: &ConnectParams)
        ensures
            r@ == self@.params,
    {
        &self.params
    }

    /// The backend process id; stable for the session's lifetime.
    pub fn session_pid(&self) -> (r: i32)
        ensures
            r == self@.session_pid,
    {
        self.session_pid
    }

    /// Whether the session's polling task has exited.
    pub fn is_closed(&self) -> (r: bool)
        ensures
            r == self@.closed,
    {
        self.closed
    }

    /// Record that the polling task exited.
    pub fn mark_closed(&mut self)
        ensures
            final(self)@ == (SessionView { closed: true, ..old(self)@ }),
    {
        self.closed = true;
        proof {
            assert(self@ =~= (SessionView { closed: true, ..old(self)@ }));
        }
    }

    fn contains_event(&self, channel: &str) -> (r: bool)
        ensures
            r == self@.events.contains(channel@),
    {
        let mut i: usize = 0;
        while i < self.events.len()
            invariant
                0 <= i <= self.events@.len(),
                self@.events.len() == self.events@.len(),
                forall|j: int| 0 <= j < i ==> self@.events[j] != channel@,
            decreases self.events@.len() - i,
        {
            if str_eq(self.events[i].as_str(), channel) {
                assert(self@.events[i as int] == channel@);
                return true;
            }
            i = i + 1;
        }
        assert(!self@.events.contains(channel@));
        false
    }

    /// Record that `LISTEN channel` was issued: the name joins the
    /// listen set; true exactly when the set changed.
    pub fn mark_listen(&mut self, channel: &str) -> (r: bool)
        ensures
            r == !old(self)@.events.contains(channel@),
            final(self)@.events.contains(channel@),
            forall|e: Seq<char>|
                e != channel@ ==> (final(self)@.events.contains(e) <==> old(
                    self,
                )@.events.contains(e)),
            final(self)@.params == old(self)@.params,
            final(self)@.session_pid == old(self)@.session_pid,
            final(self)@.closed == old(self)@.closed,
            old(self).wf() ==> final(self).wf(),
    {
        if self.contains_event(channel) {
            return false;
        }
        let ghost pre = self@.events;
        self.events.push(channel.to_owned());
        proof {
            assert(self@.events =~= pre.push(channel@));
            assert(self@.events[self@.events.len() - 1] == channel@);
            assert forall|e: Seq<char>| e != channel@ implies (self@.events.contains(e) <==> pre
                .contains(e)) by {
                if pre.contains(e) {
                    let k = choose|k: int| 0 <= k < pre.len() && pre[k] == e;
                    assert(self@.events[k] == e);
                }
                if self@.events.contains(e) {
                    let k = choose|k: int|
                        0 <= k < self@.events.len() && self@.events[k] == e;
                    assert(k < pre.len());
                    assert(pre[k] == e);
                }
            }
        }
        true
    }

    /// Record that `UNLISTEN channel` was issued: the name leaves the
    /// listen set; true exactly when it was there.
    pub fn mark_unlisten(&mut self, channel: &str) -> (r: bool)
        ensures
            r == old(self)@.events.contains(channel@),
            forall|e: Seq<char>|
                e != channel@ ==> (final(self)@.events.contains(e) <==> old(
                    self,
                )@.events.contains(e)),
            old(self).wf() ==> !final(self)@.events.contains(channel@),
            old(self).wf() ==> final(self).wf(),
            final(self)@.params == old(self)@.params,
            final(self)@.session_pid == old(self)@.session_pid,
            final(self)@.closed == old(self)@.closed,
    {
        let mut i: usize = 0;
        let ghost pre = self@.events;
        while i < self.events.len()
            invariant
                0 <= i <= self.events@.len(),
                self@.events.len() == self.events@.len(),
                self@.events == pre,
                pre == old(self)@.events,
                forall|j: int| 0 <= j < i ==> self@.events[j] != channel@,
                self@.params == old(self)@.params,
                self@.session_pid == old(self)@.session_pid,
                self@.closed == old(self)@.closed,
            decreases self.events@.len() - i,
        {
            if str_eq(self.events[i].as_str(), channel) {
                assert(pre[i as int] == channel@);
                assert(old(self)@.events.contains(channel@));
                self.events.remove(i);
                proof {
                    let now = self@.events;
                    assert(now =~= pre.remove(i as int));
                    assert(forall|k: int|
                        0 <= k < now.len() ==> now[k] == (if k < i {
                            pre[k]
                        } else {
                            pre[k + 1]
                        }));
                    assert forall|e: Seq<char>| e != channel@ implies (now.contains(e) <==> pre
                        .contains(e)) by {
                        if now.contains(e) {
                            let k = choose|k: int| 0 <= k < now.len() && now[k] == e;
                            if k < i {
                                assert(pre[k] == e);
                            } else {
                                assert(pre[k + 1] == e);
                            }
                        }
                        if pre.contains(e) {
                            let k = choose|k: int| 0 <= k < pre.len() && pre[k] == e;
                            assert(k != i);
                            if k < i {
                                assert(now[k] == e);
                            } else {
                                assert(now[k - 1] == e);
                            }
                        }
                    }
                    if old(self).wf() && now.contains(channel@) {
                        let k = choose|k: int| 0 <= k < now.len() && now[k] == channel@;
                        if k < i {
                            assert(pre[k] == channel@ && pre[i as int] == channel@);
                            assert(false);
                        } else {
                            assert(pre[k + 1] == channel@ && pre[i as int] == channel@);
                            assert(false);
                        }
                    }
                }
                return true;
            }
            i = i + 1;
        }
        assert(!pre.contains(channel@));
        false
    }

    /// Record a successful respawn: the same parameters and listen set,
    /// a fresh backend pid, no longer closed.
    pub fn record_respawn(&mut self, new_pid: i32)
        ensures
            final(self)@ == (SessionView {
                session_pid: new_pid,
                closed: false,
                ..old(self)@
            }),
    {
        self.session_pid = new_pid;
        self.closed = false;
        proof {
            assert(self@ =~= (SessionView { session_pid: new_pid, closed: false, ..old(self)@ }));
        }
    }

    /// The `LISTEN` statement for one event name. The name comes from
    /// configuration and is interpolated as it stands.
    pub fn listen_sql(channel: &str) -> (r: String)
        ensures
            r@ == "LISTEN "@ + channel@ + ";"@,
    {
        "LISTEN ".to_owned().concat(channel).concat(";")
    }

    /// The batch of `LISTEN` statements a respawned session re-issues,
    /// one per name in its listen set, in order.
    pub fn batch_listen_sql(events: &Vec<String>) -> (r: String)
        ensures
            r@ == spec_batch_sql(strs_view(events@)),
    {
        let ghost evs = strs_view(events@);
        let mut out = String::new();
        let mut i: usize = 0;
        proof {
            assert(evs.subrange(0, 0) =~= Seq::<Seq<char>>::empty());
            assert(out@ =~= spec_batch_sql(evs.subrange(0, 0)));
        }
        while i < events.len()
            invariant
                0 <= i <= events@.len(),
                evs == strs_view(events@),
                evs.len() == events@.len(),
                out@ == spec_batch_sql(evs.subrange(0, i as int)),
            decreases events@.len() - i,
        {
            let stmt = Self::listen_sql(events[i].as_str());
            out.append(stmt.as_str());
            proof {
                assert(evs.subrange(0, i + 1).drop_last() =~= evs.subrange(0, i as int));
                assert(evs.subrange(0, i + 1).last() == evs[i as int]);
                lemma_batch_sql_step(evs.subrange(0, i + 1));
            }
            i = i + 1;
        }
        proof {
            assert(evs.subrange(0, evs.len() as int) =~= evs);
        }
        out
    }

    /// The session's listen set, for re-issuing after a respawn.
    pub fn events(&self) -> (r: &Vec<String>)
        ensures
            strs_view(r@) == self@.events,
    {
        &self.events
    }
}

/// The concatenated `LISTEN` statements for a list of event names.
pub open spec fn spec_batch_sql(evs: Seq<Seq<char>>) -> Seq<char>
    decreases evs.len(),
{
    if evs.len() == 0 {
        Seq::empty()
    } else {
        spec_batch_sql(evs.drop_last()) + "LISTEN "@ + evs.last() + ";"@
    }
}

proof fn lemma_batch_sql_step(evs: Seq<Seq<char>>)
    requires
        evs.len() > 0,
    ensures
        spec_batch_sql(evs) == spec_batch_sql(evs.drop_last()) + "LISTEN "@ + evs.last() + ";"@,
{
}

// ---------------------------------------------------------------------------
// The pool
// ---------------------------------------------------------------------------
/// The listener pool: session records in creation order. Order is never
/// altered, so the session ids the dispatcher bound stay valid.
#[derive(Debug)]
pub struct Pool {
    sessions: Vec<ListenerSession>,
}

impl View for Pool {
    type V = Seq<SessionView>;

    closed spec fn view(&self) -> Seq<SessionView> {
        Seq::new(self.sessions@.len(), |i: int| self.sessions@[i]@)
    }
}

impl Pool {
    /// A pool serves each target with at most one session.
    pub open spec fn wf(&self) -> bool {
        forall|i: int, j: int|
            0 <= i < j < self@.len() ==> !spec_same_target(
                (#[trigger] self@[i]).params,
                (#[trigger] self@[j]).params,
            )
    }

    /// An empty pool.
    pub fn new() -> (r: Pool)
        ensures
            r@.len() == 0,
            r.wf(),
    {
        let r = Pool { sessions: Vec::new() };
        proof {
            assert(r@ =~= Seq::<SessionView>::empty());
        }
        r
    }

    /// How many sessions the pool holds.
    pub fn len(&self) -> (r: usize)
        ensures
            r == self@.len(),
    {
        self.sessions.len()
    }

    /// The session at a position.
    pub fn session(&self, i: usize) -> (r: &ListenerSession)
        requires
            i < self@.len(),
        ensures
            r@ == self@[i as int],
    {
        &self.sessions[i]
    }

    /// The first session that serves the same target, if any; `None`
    /// exactly when no session does.
    pub fn find_session(&self, params: &ConnectParams) -> (r: Option<usize>)
        ensures
            match r {
                Some(i) => i < self@.len() && spec_same_target(self@[i as int].params, params@)
                    && (forall|j: int|
                    0 <= j < i ==> !spec_same_target(#[trigger] self@[j].params, params@)),
                None => forall|j: int|
                    0 <= j < self@.len() ==> !spec_same_target(
                        #[trigger] self@[j].params,
                        params@,
                    ),
            },
    {
        let mut i: usize = 0;
        while i < self.sessions.len()
            invariant
                0 <= i <= self.sessions@.len(),
                self@.len() == self.sessions@.len(),
                forall|j: int| 0 <= j < i ==> !spec_same_target(#[trigger] self@[j].params, params@),
            decreases self.sessions@.len() - i,
        {
            if same_target(&self.sessions[i].params_ref(), params) {
                return Some(i);
            }
            i = i + 1;
        }
        None
    }

    /// Add a session for a target nothing serves yet; the pool stays
    /// well-formed and existing positions are untouched.
    pub fn register_session(&mut self, s: ListenerSession) -> (r: usize)
        requires
            forall|j: int|
                0 <= j < old(self)@.len() ==> !spec_same_target(
                    #[trigger] old(self)@[j].params,
                    s@.params,
                ),
            old(self).wf(),
        ensures
            final(self)@ =~= old(self)@.push(s@),
            final(self).wf(),
            r == old(self)@.len(),
    {
        let r = self.sessions.len();
        self.sessions.push(s);
        proof {
            assert(self@ =~= old(self)@.push(s@));
        }
        r
    }

    /// Record a `LISTEN` on the session at `i`; true exactly when its
    /// listen set changed. Other sessions are untouched.
    pub fn listen_on(&mut self, i: usize, channel: &str) -> (r: bool)
        requires
            i < old(self)@.len(),
        ensures
            r == !old(self)@[i as int].events.contains(channel@),
            final(self)@.len() == old(self)@.len(),
            final(self)@[i as int].events.contains(channel@),
            final(self)@[i as int].params == old(self)@[i as int].params,
            final(self)@[i as int].session_pid == old(self)@[i as int].session_pid,
            final(self)@[i as int].closed == old(self)@[i as int].closed,
            forall|j: int| 0 <= j < old(self)@.len() && j != i ==> final(self)@[j] == old(self)@[j],
            old(self).wf() ==> final(self).wf(),
    {
        let s = &mut self.sessions[i];
        let r = s.mark_listen(channel);
        proof {
            assert(forall|j: int|
                0 <= j < self@.len() && j != i ==> self@[j] == old(self)@[j]);
        }
        r
    }

    /// Record that the session at `i` closed.
    pub fn close_session(&mut self, i: usize)
        requires
            i < old(self)@.len(),
        ensures
            final(self)@.len() == old(self)@.len(),
            final(self)@[i as int] == (SessionView { closed: true, ..old(self)@[i as int] }),
            forall|j: int| 0 <= j < old(self)@.len() && j != i ==> final(self)@[j] == old(self)@[j],
            old(self).wf() ==> final(self).wf(),
    {
        let s = &mut self.sessions[i];
        s.mark_closed();
        proof {
            assert(forall|x: int|
                0 <= x < self@.len() ==> (#[trigger] self@[x]).params == old(self)@[x].params);
        }
    }

    /// The positions of every closed session, in increasing order.
    pub fn closed_indices(&self) -> (r: Vec<usize>)
        ensures
            forall|k: int| 0 <= k < r@.len() ==> #[trigger] r@[k] < self@.len() && self@[r@[k] as int].closed,
            forall|j: int| 0 <= j < self@.len() && self@[j].closed ==> r@.contains(j as usize),
            forall|a: int, b: int| 0 <= a < b < r@.len() ==> r@[a] < r@[b],
    {
        let mut out: Vec<usize> = Vec::new();
        let mut j: usize = 0;
        while j < self.sessions.len()
            invariant
                0 <= j <= self.sessions@.len(),
                self@.len() == self.sessions@.len(),
                forall|k: int|
                    0 <= k < out@.len() ==> #[trigger] out@[k] < j && self@[out@[k] as int].closed,
                forall|i: int| 0 <= i < j && self@[i].closed ==> out@.contains(i as usize),
                forall|a: int, b: int| 0 <= a < b < out@.len() ==> out@[a] < out@[b],
            decreases self.sessions@.len() - j,
        {
            let ghost pre = out@;
            if self.sessions[j].is_closed() {
                out.push(j);
                proof {
                    assert forall|i: int| 0 <= i < j + 1 && self@[i].closed implies out@.contains(
                        i as usize,
                    ) by {
                        if i < j {
                            assert(pre.contains(i as usize));
                            let k = choose|k: int| 0 <= k < pre.len() && pre[k] == i as usize;
                            assert(out@[k] == i as usize);
                        } else {
                            assert(out@[out@.len() - 1] == j as usize);
                        }
                    }
                }
            }
            j = j + 1;
        }
        out
    }

    /// Record the outcomes of one reconnect sweep: each entry names a
    /// closed session and, when the respawn succeeded, its fresh backend
    /// pid. A respawned session keeps its parameters and its whole
    /// listen set and is open again; a failed one stays closed and
    /// unchanged; every other session, and the pool's order, is
    /// untouched.
    pub fn apply_respawns(&mut self, outcomes: &Vec<(usize, Option<i32>)>)
        requires
            forall|k: int|
                0 <= k < outcomes@.len() ==> (#[trigger] outcomes@[k]).0 < old(self)@.len() && old(
                    self,
                )@[outcomes@[k].0 as int].closed,
            forall|a: int, b: int|
                0 <= a < b < outcomes@.len() ==> (#[trigger] outcomes@[a]).0 != (
                #[trigger] outcomes@[b]).0,
        ensures
            final(self)@.len() == old(self)@.len(),
            forall|k: int|
                0 <= k < outcomes@.len() ==> final(self)@[(#[trigger] outcomes@[k]).0 as int] == (
                match outcomes@[k].1 {
                    Some(pid) => SessionView {
                        session_pid: pid,
                        closed: false,
                        ..old(self)@[outcomes@[k].0 as int]
                    },
                    None => old(self)@[outcomes@[k].0 as int],
                }),
            forall|j: int|
                0 <= j < old(self)@.len() && (forall|k: int|
                    0 <= k < outcomes@.len() ==> (#[trigger] outcomes@[k]).0 != j)
                    ==> final(self)@[j] == old(self)@[j],
            old(self).wf() ==> final(self).wf(),
    {
        let mut k: usize = 0;
        while k < outcomes.len()
            invariant
                0 <= k <= outcomes@.len(),
                self@.len() == old(self)@.len(),
                forall|a: int, b: int|
                    0 <= a < b < outcomes@.len() ==> (#[trigger] outcomes@[a]).0 != (
                    #[trigger] outcomes@[b]).0,
                forall|kk: int|
                    0 <= kk < outcomes@.len() ==> (#[trigger] outcomes@[kk]).0 < old(self)@.len(),
                forall|kk: int|
                    0 <= kk < k ==> self@[(#[trigger] outcomes@[kk]).0 as int] == (
                    match outcomes@[kk].1 {
                        Some(pid) => SessionView {
                            session_pid: pid,
                            closed: false,
                            ..old(self)@[outcomes@[kk].0 as int]
                        },
                        None => old(self)@[outcomes@[kk].0 as int],
                    }),
                forall|j: int|
                    0 <= j < old(self)@.len() && (forall|kk: int|
                        0 <= kk < k ==> (#[trigger] outcomes@[kk]).0 != j)
                        ==> self@[j] == old(self)@[j],
            decreases outcomes@.len() - k,
        {
            let (i, outcome) = outcomes[k];
            match outcome {
                Some(pid) => {
                    let s = &mut self.sessions[i];
                    s.record_respawn(pid);
                },
                None => {},
            }
            k = k + 1;
        }
    }

    /// In a well-formed pool two sessions serving one target are the
    /// same session: adding a connection for a target that is already
    /// served reuses its session, so the pool holds exactly one session
    /// per distinct `(hosts, dbname, user)`.
    pub proof fn lemma_single_session_per_target(&self, q: ParamsView, i: int, j: int)
        requires
            self.wf(),
            0 <= i < self@.len(),
            0 <= j < self@.len(),
            spec_same_target(self@[i].params, q),
            spec_same_target(self@[j].params, q),
        ensures
            i == j,
    {
        if i < j {
            assert(!spec_same_target(self@[i].params, self@[j].params));
        } else if j < i {
            assert(!spec_same_target(self@[j].params, self@[i].params));
        }
    }
}

impl ListenerSession {
    /// The parameters, by reference, for target comparison.
    fn params_ref(&self) -> (r: &ConnectParams)
        ensures
            r@ == self@.params,
    {
        &self.params
    }
}

} // verus!
