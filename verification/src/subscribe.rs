//! The per-worker subscription table and the broadcast cycle.
//!
//! A worker owns one `Broadcaster`. Subscribers join a bucket per
//! configured channel position; on each event the caller sends the SSE
//! frame to every client of the listed buckets, collects the identities
//! whose send failed, and hands them back here: the failed clients are
//! reaped and the subscriptions that arrived during the sends are
//! resolved into the table.

use vstd::prelude::*;

use crate::errors::Error;
use crate::events::{ChanId, Event};
use crate::strutil::{str_eq, strs_view};

verus! {

/// One SSE subscriber: its channel position, request path, unique
/// identity, the send handle (opaque to the table), and what was
/// recorded of the requester.
#[derive(Debug)]
pub struct SseClient<S> {
    /// The channel position subscribed to.
    pub chan_id: ChanId,
    /// The request path, for logging.
    pub path: String,
    /// A unique identity; reaping is decided by it.
    pub ident: String,
    /// The sending half of the client's SSE channel.
    pub sender: S,
    /// The real client address, when known.
    pub realip_remote_addr: Option<String>,
    /// The peer address, when known.
    pub peer_addr: Option<String>,
    /// The `X-Identity` header, when given.
    pub client_id: Option<String>,
}

/// An identity list holds `id` when some element reads the same.
pub open spec fn has_ident(failed: Seq<Seq<char>>, id: Seq<char>) -> bool {
    exists|k: int| 0 <= k < failed.len() && failed[k] == id
}

fn ident_failed(failed: &Vec<String>, id: &str) -> (r: bool)
    ensures
        r == has_ident(strs_view(failed@), id@),
{
    let mut k: usize = 0;
    while k < failed.len()
        invariant
            0 <= k <= failed@.len(),
            forall|j: int| 0 <= j < k ==> failed@[j]@ != id@,
        decreases failed@.len() - k,
    {
        if str_eq(failed[k].as_str(), id) {
            assert(strs_view(failed@)[k as int] == id@);
            return true;
        }
        k = k + 1;
    }
    assert(forall|j: int| 0 <= j < failed@.len() ==> strs_view(failed@)[j] != id@);
    false
}

/// What reaping leaves of a bucket: the clients whose identity is not in
/// the failed list, in order.
pub open spec fn spec_reap<S>(s: Seq<SseClient<S>>, failed: Seq<Seq<char>>) -> Seq<SseClient<S>>
    decreases s.len(),
{
    if s.len() == 0 {
        Seq::empty()
    } else {
        let rest = spec_reap(s.drop_first(), failed);
        if has_ident(failed, s[0].ident@) {
            rest
        } else {
            seq![s[0]] + rest
        }
    }
}

/// The pending clients that belong to bucket `c`, in arrival order.
pub open spec fn spec_pending_for<S>(p: Seq<SseClient<S>>, c: ChanId) -> Seq<SseClient<S>>
    decreases p.len(),
{
    if p.len() == 0 {
        Seq::empty()
    } else {
        let rest = spec_pending_for(p.drop_first(), c);
        if p[0].chan_id == c {
            seq![p[0]] + rest
        } else {
            rest
        }
    }
}

proof fn lemma_reap_contains<S>(s: Seq<SseClient<S>>, failed: Seq<Seq<char>>, c: SseClient<S>)
    ensures
        spec_reap(s, failed).contains(c) <==> (s.contains(c) && !has_ident(failed, c.ident@)),
    decreases s.len(),
{
    if s.len() > 0 {
        lemma_reap_contains(s.drop_first(), failed, c);
        let rest = spec_reap(s.drop_first(), failed);
        if has_ident(failed, s[0].ident@) {
            if s.contains(c) && !has_ident(failed, c.ident@) {
                let k = choose|k: int| 0 <= k < s.len() && s[k] == c;
                assert(s.drop_first()[k - 1] == c);
            }
            if s.drop_first().contains(c) {
                let k = choose|k: int| 0 <= k < s.drop_first().len() && s.drop_first()[k] == c;
                assert(s[k + 1] == c);
            }
        } else {
            let whole = seq![s[0]] + rest;
            if s.contains(c) && !has_ident(failed, c.ident@) {
                let k = choose|k: int| 0 <= k < s.len() && s[k] == c;
                if k == 0 {
                    assert(whole[0] == c);
                } else {
                    assert(s.drop_first()[k - 1] == c);
                    let m = choose|m: int| 0 <= m < rest.len() && rest[m] == c;
                    assert(whole[m + 1] == c);
                }
            }
            if whole.contains(c) {
                let k = choose|k: int| 0 <= k < whole.len() && whole[k] == c;
                if k == 0 {
                    assert(c == s[0]);
                    assert(s.contains(c)) by {
                        assert(s[0] == c);
                    }
                } else {
                    assert(rest[k - 1] == c);
                    assert(rest.contains(c)) by {
                        assert(rest[k - 1] == c);
                    }
                    let m = choose|m: int|
                        0 <= m < s.drop_first().len() && s.drop_first()[m] == c;
                    assert(s[m + 1] == c);
                }
            }
        }
    }
}

proof fn lemma_pending_for_contains<S>(p: Seq<SseClient<S>>, c: ChanId, cl: SseClient<S>)
    ensures
        spec_pending_for(p, c).contains(cl) ==> p.contains(cl) && cl.chan_id == c,
    decreases p.len(),
{
    if p.len() > 0 {
        lemma_pending_for_contains(p.drop_first(), c, cl);
        let rest = spec_pending_for(p.drop_first(), c);
        if p[0].chan_id == c {
            let whole = seq![p[0]] + rest;
            if whole.contains(cl) {
                let k = choose|k: int| 0 <= k < whole.len() && whole[k] == cl;
                if k == 0 {
                    assert(p[0] == cl);
                } else {
                    assert(rest[k - 1] == cl);
                    assert(rest.contains(cl)) by {
                        assert(rest[k - 1] == cl);
                    }
                }
            }
        }
        if p.drop_first().contains(cl) {
            let k = choose|k: int| 0 <= k < p.drop_first().len() && p.drop_first()[k] == cl;
            assert(p[k + 1] == cl);
        }
    }
}

/// The per-worker broadcaster: the subscription table, the clients that
/// arrived during a broadcast, and the configured channel ids.
#[derive(Debug)]
pub struct Broadcaster<S> {
    /// SSE channel buffer size handed to each new client.
    pub buffer_size: usize,
    /// The subscription ids, in configuration order; the position of an
    /// id is its channel position.
    pub allowed_subscriptions: Vec<String>,
    /// One bucket of clients per channel position.
    pub subs: Vec<Vec<SseClient<S>>>,
    /// Clients accepted while the table was busy broadcasting.
    pub pending_subscriptions: Vec<SseClient<S>>,
}

/// The table is sized by the configuration and every client sits in the
/// bucket of its channel position.
pub open spec fn spec_broadcaster_wf<S>(b: &Broadcaster<S>) -> bool {
    &&& b.subs@.len() == b.allowed_subscriptions@.len()
    &&& forall|i: int, k: int|
        0 <= i < b.subs@.len() && 0 <= k < b.subs@[i]@.len() ==> (#[trigger] b.subs@[i]@[k]).chan_id
            == i
    &&& forall|k: int|
        0 <= k < b.pending_subscriptions@.len() ==> (
        #[trigger] b.pending_subscriptions@[k]).chan_id < b.subs@.len()
}

impl<S> Broadcaster<S> {
    /// A broadcaster for the configured channel ids, with one empty
    /// bucket per channel and the given per-client buffer size.
    pub fn new(buffer_size: usize, channels: Vec<String>) -> (r: Broadcaster<S>)
        ensures
            r.buffer_size == buffer_size,
            r.allowed_subscriptions@ == channels@,
            r.subs@.len() == channels@.len(),
            forall|i: int| 0 <= i < r.subs@.len() ==> (#[trigger] r.subs@[i])@.len() == 0,
            r.pending_subscriptions@.len() == 0,
            spec_broadcaster_wf(&r),
    {
        let mut subs: Vec<Vec<SseClient<S>>> = Vec::new();
        let mut i: usize = 0;
        while i < channels.len()
            invariant
                subs@.len() == i,
                0 <= i <= channels@.len(),
                forall|j: int| 0 <= j < i ==> (#[trigger] subs@[j])@.len() == 0,
            decreases channels@.len() - i,
        {
            subs.push(Vec::new());
            i = i + 1;
        }
        Broadcaster {
            buffer_size,
            allowed_subscriptions: channels,
            subs,
            pending_subscriptions: Vec::new(),
        }
    }

    /// The channel position of a subscription id: the first configured
    /// channel bearing it, or the not-found error when none does.
    pub fn resolve_subscription(&self, id: &str) -> (r: Result<ChanId, Error>)
        ensures
            match r {
                Ok(i) => i < self.allowed_subscriptions@.len()
                    && self.allowed_subscriptions@[i as int]@ == id@ && (forall|j: int|
                    0 <= j < i ==> self.allowed_subscriptions@[j]@ != id@),
                Err(e) => e is SubscriptionNotFound && (forall|j: int|
                    0 <= j < self.allowed_subscriptions@.len()
                        ==> self.allowed_subscriptions@[j]@ != id@),
            },
    {
        let mut i: usize = 0;
        while i < self.allowed_subscriptions.len()
            invariant
                0 <= i <= self.allowed_subscriptions@.len(),
                forall|j: int| 0 <= j < i ==> self.allowed_subscriptions@[j]@ != id@,
            decreases self.allowed_subscriptions@.len() - i,
        {
            if str_eq(self.allowed_subscriptions[i].as_str(), id) {
                return Ok(i);
            }
            i = i + 1;
        }
        Err(Error::SubscriptionNotFound)
    }

    /// Put a new client straight into its bucket.
    pub fn insert_client(&mut self, c: SseClient<S>)
        requires
            c.chan_id < old(self).subs@.len(),
        ensures
            final(self).subs@.len() == old(self).subs@.len(),
            final(self).subs@[c.chan_id as int]@ == old(self).subs@[c.chan_id as int]@.push(c),
            forall|i: int|
                0 <= i < old(self).subs@.len() && i != c.chan_id ==> final(self).subs@[i] == old(self).subs@[i],
            final(self).pending_subscriptions == old(self).pending_subscriptions,
            final(self).allowed_subscriptions == old(self).allowed_subscriptions,
            final(self).buffer_size == old(self).buffer_size,
            spec_broadcaster_wf(&*old(self)) ==> spec_broadcaster_wf(&*final(self)),
    {
        let id = c.chan_id;
        let bucket = &mut self.subs[id];
        bucket.push(c);
    }

    /// Hold a client aside while the table is busy; it joins its bucket
    /// at the end of the running broadcast cycle.
    pub fn defer_client(&mut self, c: SseClient<S>)
        requires
            c.chan_id < old(self).subs@.len(),
        ensures
            final(self).pending_subscriptions@ == old(self).pending_subscriptions@.push(c),
            final(self).subs == old(self).subs,
            final(self).allowed_subscriptions == old(self).allowed_subscriptions,
            final(self).buffer_size == old(self).buffer_size,
            spec_broadcaster_wf(&*old(self)) ==> spec_broadcaster_wf(&*final(self)),
    {
        self.pending_subscriptions.push(c);
    }

    /// End one broadcast cycle over the buckets of `channels`: reap
    /// every client whose identity is among `failed`, then resolve the
    /// pending clients into their buckets.
    ///
    /// The stated outcome carries the broadcast-cycle law: a client
    /// present at the start whose send succeeded is still subscribed at
    /// the end; a client whose send failed is gone, and can only bear a
    /// failed identity again if a fresh pending client carried it.
    #[verifier::rlimit(60)]
    pub fn reap_and_resolve(&mut self, channels: &[ChanId], failed: &Vec<String>)
        requires
            spec_broadcaster_wf(&*old(self)),
        ensures
            final(self).subs@.len() == old(self).subs@.len(),
            final(self).pending_subscriptions@.len() == 0,
            final(self).allowed_subscriptions == old(self).allowed_subscriptions,
            final(self).buffer_size == old(self).buffer_size,
            spec_broadcaster_wf(&*final(self)),
            // the new buckets, exactly
            forall|i: int|
                0 <= i < old(self).subs@.len() && channels@.contains(i as ChanId) ==> final(self).subs@[i]@ =~= spec_reap(old(self).subs@[i]@, strs_view(failed@))
                    + spec_pending_for(old(self).pending_subscriptions@, i as ChanId),
            forall|i: int|
                0 <= i < old(self).subs@.len() && !channels@.contains(i as ChanId) ==> final(self).subs@[i]@ =~= old(self).subs@[i]@ + spec_pending_for(
                    old(self).pending_subscriptions@,
                    i as ChanId,
                ),
            // a broadcast client whose send succeeded stays
            forall|i: int, k: int|
                0 <= i < old(self).subs@.len() && channels@.contains(i as ChanId) && 0 <= k < old(self).subs@[i]@.len() && !has_ident(
                    strs_view(failed@),
                    (#[trigger] old(self).subs@[i]@[k]).ident@,
                ) ==> final(self).subs@[i]@.contains(old(self).subs@[i]@[k]),
            // a client whose send failed is reaped
            forall|i: int, cl: SseClient<S>|
                0 <= i < old(self).subs@.len() && channels@.contains(i as ChanId) && final(self).subs@[i]@.contains(cl) && has_ident(strs_view(failed@), cl.ident@) ==> old(self).pending_subscriptions@.contains(cl),
    {
        let ghost failedv = strs_view(failed@);
        let ghost subs0 = old(self).subs@;
        let ghost pending0 = old(self).pending_subscriptions@;
        let n0 = self.subs.len();
        proof {
            assert(subs0.len() == n0);
        }
        // reap the failed clients out of each broadcast bucket
        if failed.len() > 0 {
            let mut ci: usize = 0;
            while ci < channels.len()
                invariant
                    0 <= ci <= channels@.len(),
                    self.subs@.len() == subs0.len(),
                    subs0.len() <= usize::MAX,
                    failedv == strs_view(failed@),
                    forall|i: int|
                        0 <= i < subs0.len() && channels@.subrange(0, ci as int).contains(
                            i as ChanId,
                        ) ==> (#[trigger] self.subs@[i])@ =~= spec_reap(subs0[i]@, failedv),
                    forall|i: int|
                        0 <= i < subs0.len() && !channels@.subrange(0, ci as int).contains(
                            i as ChanId,
                        ) ==> self.subs@[i] == subs0[i],
                    self.pending_subscriptions@ == pending0,
                    self.allowed_subscriptions == old(self).allowed_subscriptions,
                    self.buffer_size == old(self).buffer_size,
                    forall|i: int, k: int|
                        0 <= i < self.subs@.len() && 0 <= k < self.subs@[i]@.len() ==> (
                        #[trigger] self.subs@[i]@[k]).chan_id == i,
                decreases channels@.len() - ci,
            {
                let c = channels[ci];
                if c < self.subs.len() {
                    let ghost already = channels@.subrange(0, ci as int).contains(c);
                    self.reap_bucket(c, failed);
                    proof {
                        if already {
                            lemma_reap_twice(subs0[c as int]@, failedv);
                        }
                    }
                }
                proof {
                    assert(channels@.subrange(0, ci + 1).drop_last() =~= channels@.subrange(
                        0,
                        ci as int,
                    ));
                    assert forall|i: int|
                        0 <= i < subs0.len() && channels@.subrange(0, ci + 1).contains(
                            i as ChanId,
                        ) implies (#[trigger] self.subs@[i])@ =~= spec_reap(
                        subs0[i]@,
                        failedv,
                    ) by {
                        let pre = channels@.subrange(0, ci as int);
                        let now = channels@.subrange(0, ci + 1);
                        if i == c {
                        } else {
                            let k = choose|k: int| 0 <= k < now.len() && now[k] == i as ChanId;
                            assert(pre[k] == i as ChanId);
                            assert(pre.contains(i as ChanId));
                        }
                    }
                    assert forall|i: int|
                        0 <= i < subs0.len() && !channels@.subrange(0, ci + 1).contains(
                            i as ChanId,
                        ) implies self.subs@[i] == subs0[i] by {
                        let pre = channels@.subrange(0, ci as int);
                        let now = channels@.subrange(0, ci + 1);
                        assert(forall|k: int|
                            0 <= k < pre.len() ==> pre[k] == now[k]);
                        if pre.contains(i as ChanId) {
                            let k = choose|k: int| 0 <= k < pre.len() && pre[k] == i as ChanId;
                            assert(now[k] == i as ChanId);
                        }
                        assert(i != c || now[ci as int] == c as ChanId);
                    }
                }
                ci = ci + 1;
            }
            proof {
                assert(channels@.subrange(0, channels@.len() as int) =~= channels@);
            }
        } else {
            proof {
                assert(forall|i: int|
                    0 <= i < subs0.len() ==> spec_reap((#[trigger] subs0[i])@, failedv)
                        =~= subs0[i]@) by {
                    assert forall|i: int| 0 <= i < subs0.len() implies spec_reap(
                        (#[trigger] subs0[i])@,
                        failedv,
                    ) =~= subs0[i]@ by {
                        lemma_reap_nothing(subs0[i]@, failedv);
                    }
                }
            }
        }
        // resolve the pending subscriptions into their buckets
        let ghost mid = self.subs@;
        proof {
            assert(mid.len() == subs0.len());
        }
        while self.pending_subscriptions.len() > 0
            invariant
                self.subs@.len() == mid.len(),
                mid.len() <= usize::MAX,
                forall|i: int|
                    0 <= i < mid.len() ==> (#[trigger] self.subs@[i])@ + spec_pending_for(
                        self.pending_subscriptions@,
                        i as ChanId,
                    ) =~= mid[i]@ + spec_pending_for(pending0, i as ChanId),
                forall|k: int|
                    0 <= k < self.pending_subscriptions@.len() ==> (
                    #[trigger] self.pending_subscriptions@[k]).chan_id < self.subs@.len(),
                self.allowed_subscriptions == old(self).allowed_subscriptions,
                self.buffer_size == old(self).buffer_size,
                forall|i: int, k: int|
                    0 <= i < self.subs@.len() && 0 <= k < self.subs@[i]@.len() ==> (
                    #[trigger] self.subs@[i]@[k]).chan_id == i,
            decreases self.pending_subscriptions@.len(),
        {
            let ghost ppre = self.pending_subscriptions@;
            let ghost spre = self.subs@;
            let cl = self.pending_subscriptions.remove(0);
            let id = cl.chan_id;
            let bucket = &mut self.subs[id];
            bucket.push(cl);
            proof {
                assert(self.pending_subscriptions@ =~= ppre.drop_first());
                assert forall|i: int| 0 <= i < mid.len() implies (#[trigger] self.subs@[i])@
                    + spec_pending_for(self.pending_subscriptions@, i as ChanId) =~= mid[i]@
                    + spec_pending_for(pending0, i as ChanId) by {
                    if i == id {
                        assert(spec_pending_for(ppre, i as ChanId) =~= seq![ppre[0]]
                            + spec_pending_for(ppre.drop_first(), i as ChanId));
                        assert(self.subs@[i]@ =~= spre[i]@.push(cl));
                        assert(spre[i]@.push(cl) + spec_pending_for(ppre.drop_first(), i as ChanId)
                            =~= spre[i]@ + spec_pending_for(ppre, i as ChanId));
                    } else {
                        assert(ppre[0] == cl);
                        assert(ppre[0].chan_id == id);
                        assert(ppre[0].chan_id != i);
                        assert(spec_pending_for(ppre, i as ChanId) =~= spec_pending_for(
                            ppre.drop_first(),
                            i as ChanId,
                        ));
                        assert(self.subs@[i] == spre[i]);
                    }
                }
            }
        }
        // the stated outcome follows from the bucket equations
        proof {
            assert(forall|i: int|
                0 <= i < mid.len() ==> (#[trigger] self.subs@[i])@ =~= mid[i]@ + spec_pending_for(
                    pending0,
                    i as ChanId,
                )) by {
                assert forall|i: int| 0 <= i < mid.len() implies (#[trigger] self.subs@[i])@
                    =~= mid[i]@ + spec_pending_for(pending0, i as ChanId) by {
                    lemma_pending_for_empty::<S>(self.pending_subscriptions@, i as ChanId);
                    assert(self.subs@[i]@ + spec_pending_for(
                        self.pending_subscriptions@,
                        i as ChanId,
                    ) =~= self.subs@[i]@);
                }
            }
            assert forall|i: int, k: int|
                0 <= i < subs0.len() && channels@.contains(i as ChanId) && 0 <= k < subs0[i]@.len()
                    && !has_ident(failedv, (#[trigger] subs0[i]@[k]).ident@) implies self.subs@[i]@
                .contains(subs0[i]@[k]) by {
                let cl = subs0[i]@[k];
                assert(subs0[i]@.contains(cl));
                lemma_reap_contains(subs0[i]@, failedv, cl);
                let m = choose|m: int|
                    0 <= m < spec_reap(subs0[i]@, failedv).len() && spec_reap(
                        subs0[i]@,
                        failedv,
                    )[m] == cl;
                assert(self.subs@[i]@[m] == cl);
            }
            assert forall|i: int, cl: SseClient<S>|
                0 <= i < subs0.len() && channels@.contains(i as ChanId) && self.subs@[i]@.contains(
                    cl,
                ) && has_ident(failedv, cl.ident@) implies pending0.contains(cl) by {
                let m = choose|m: int|
                    0 <= m < self.subs@[i]@.len() && self.subs@[i]@[m] == cl;
                let reaped = spec_reap(subs0[i]@, failedv);
                if m < reaped.len() {
                    assert(reaped[m] == cl);
                    assert(reaped.contains(cl)) by {
                        assert(reaped[m] == cl);
                    }
                    lemma_reap_contains(subs0[i]@, failedv, cl);
                } else {
                    let pf = spec_pending_for(pending0, i as ChanId);
                    assert(pf[m - reaped.len()] == cl);
                    assert(pf.contains(cl)) by {
                        assert(pf[m - reaped.len()] == cl);
                    }
                    lemma_pending_for_contains(pending0, i as ChanId, cl);
                }
            }
        }
    }

    /// Remove every client of bucket `c` whose identity is among
    /// `failed`, keeping the order of the rest.
    fn reap_bucket(&mut self, c: ChanId, failed: &Vec<String>)
        requires
            c < old(self).subs@.len(),
        ensures
            final(self).subs@.len() == old(self).subs@.len(),
            final(self).subs@[c as int]@ =~= spec_reap(
                old(self).subs@[c as int]@,
                strs_view(failed@),
            ),
            forall|i: int|
                0 <= i < old(self).subs@.len() && i != c ==> final(self).subs@[i] == old(self).subs@[i],
            final(self).pending_subscriptions == old(self).pending_subscriptions,
            final(self).allowed_subscriptions == old(self).allowed_subscriptions,
            final(self).buffer_size == old(self).buffer_size,
            forall|k: int|
                0 <= k < final(self).subs@[c as int]@.len() ==> old(self).subs@[c as int]@.contains(
                    #[trigger] final(self).subs@[c as int]@[k],
                ),
    {
        let ghost failedv = strs_view(failed@);
        let bucket = &mut self.subs[c];
        let ghost orig = bucket@;
        let mut kept: Vec<SseClient<S>> = Vec::new();
        proof {
            assert(spec_reap(orig, failedv) =~= kept@ + spec_reap(bucket@, failedv));
        }
        while bucket.len() > 0
            invariant
                spec_reap(orig, failedv) =~= kept@ + spec_reap(bucket@, failedv),
                failedv == strs_view(failed@),
                forall|k: int| 0 <= k < kept@.len() ==> orig.contains(#[trigger] kept@[k]),
                forall|k: int| 0 <= k < bucket@.len() ==> orig.contains(#[trigger] bucket@[k]),
            decreases bucket@.len(),
        {
            let ghost bpre = bucket@;
            let cl = bucket.remove(0);
            proof {
                assert(bucket@ =~= bpre.drop_first());
                assert(bpre[0] == cl);
            }
            if !ident_failed(failed, cl.ident.as_str()) {
                kept.push(cl);
                proof {
                    assert(kept@.drop_last() + seq![cl] =~= kept@);
                    assert(spec_reap(bpre, failedv) =~= seq![cl] + spec_reap(bucket@, failedv));
                    assert(orig.contains(cl)) by {
                        let k = choose|k: int| 0 <= k < bpre.len() && bpre[k] == cl;
                    }
                }
            } else {
                proof {
                    assert(spec_reap(bpre, failedv) =~= spec_reap(bucket@, failedv));
                }
            }
        }
        proof {
            assert(spec_reap(bucket@, failedv) =~= Seq::<SseClient<S>>::empty());
            assert(kept@ =~= spec_reap(orig, failedv));
        }
        let b = &mut self.subs[c];
        let mut kept = kept;
        core::mem::swap(b, &mut kept);
    }
}

proof fn lemma_reap_nothing<S>(s: Seq<SseClient<S>>, failed: Seq<Seq<char>>)
    requires
        failed.len() == 0,
    ensures
        spec_reap(s, failed) =~= s,
    decreases s.len(),
{
    if s.len() > 0 {
        lemma_reap_nothing(s.drop_first(), failed);
        assert(seq![s[0]] + s.drop_first() =~= s);
    }
}

proof fn lemma_reap_twice<S>(s: Seq<SseClient<S>>, failed: Seq<Seq<char>>)
    ensures
        spec_reap(spec_reap(s, failed), failed) =~= spec_reap(s, failed),
    decreases s.len(),
{
    if s.len() > 0 {
        lemma_reap_twice(s.drop_first(), failed);
        let rest = spec_reap(s.drop_first(), failed);
        if has_ident(failed, s[0].ident@) {
        } else {
            let whole = seq![s[0]] + rest;
            assert(whole.drop_first() =~= rest);
            assert(whole[0] == s[0]);
            assert(spec_reap(whole, failed) =~= seq![s[0]] + spec_reap(rest, failed));
        }
    }
}

proof fn lemma_pending_for_empty<S>(p: Seq<SseClient<S>>, c: ChanId)
    requires
        p.len() == 0,
    ensures
        spec_pending_for(p, c) =~= Seq::<SseClient<S>>::empty(),
{
}

// ---------------------------------------------------------------------------
// The SSE frame
// ---------------------------------------------------------------------------
/// The fields of one SSE frame, before wire encoding.
#[derive(Debug, Clone)]
pub struct SseFrame {
    /// The `id:` field.
    pub id: String,
    /// The `event:` field.
    pub event: String,
    /// The `data:` field.
    pub data: String,
}

/// The frame sent for an event: `id` is the event's unique id, `event`
/// its Postgres event name, `data` its payload, each byte for byte.
pub fn frame_for(event: &Event) -> (f: SseFrame)
    ensures
        f.id@ == event@.id,
        f.event@ == event@.event,
        f.data@ == event@.payload,
{
    SseFrame {
        id: event.id().to_owned(),
        event: event.event().to_owned(),
        data: event.payload().to_owned(),
    }
}

/// The wire form of a frame: the `id`, `event` and `data` lines, then a
/// blank line.
pub fn render_frame(f: &SseFrame) -> (r: String)
    ensures
        r@ == "id: "@ + f.id@ + "\nevent: "@ + f.event@ + "\ndata: "@ + f.data@ + "\n\n"@,
{
    "id: ".to_owned().concat(f.id.as_str()).concat("\nevent: ").concat(f.event.as_str()).concat(
        "\ndata: ",
    ).concat(f.data.as_str()).concat("\n\n")
}

} // verus!
