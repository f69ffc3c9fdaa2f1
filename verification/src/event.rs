//! The event queue and per-node listener subscriptions.
//!
//! Events are emitted into a queue tagged with a source identity and an
//! event-kind tag. A listener is a per-owning-node subscription table mapping
//! (source identity, event kind) to a handler handle; at most one handler is
//! registered per key — registering again replaces the prior handler.
//!
//! A dispatch pass is two-phase: it first computes, from the table as it
//! stands, the exact sequence of handler invocations — for every subscription
//! in registration order, its matching queued events in emission order — and
//! only after the pass do the deferred subscription changes accumulated
//! through `late_on`/`late_remove` apply. This keeps the table fixed while it
//! is being iterated; handlers that subscribe or unsubscribe as a side effect
//! of the very event being processed use the deferred forms.
//!
//! The handlers themselves are closures of the unverified widget layer; here
//! each is a plain handle. The caller runs the returned invocations in order
//! and then closes the pass.

use vstd::prelude::*;

verus! {

/// One queued event: the emitting node's identity, the event-kind tag and
/// the payload.
pub struct Event<P> {
    pub source: u64,
    pub tag: u64,
    pub payload: P,
}

/// The process-wide event queue, living as long as the application session.
pub struct Queue<P> {
    events: Vec<Event<P>>,
}

impl<P> Queue<P> {
    /// The queued events, in emission order.
    pub closed spec fn events_spec(&self) -> Seq<Event<P>> {
        self.events@
    }

    /// The number of queued events.
    pub open spec fn len_spec(&self) -> int {
        self.events_spec().len() as int
    }

    /// A fresh, empty queue.
    pub fn new() -> (r: Queue<P>)
        ensures
            r.events_spec() == Seq::<Event<P>>::empty(),
    {
        Queue { events: Vec::new() }
    }

    /// Returns the number of queued events.
    pub fn len(&self) -> (r: usize)
        ensures
            r as int == self.len_spec(),
    {
        self.events.len()
    }

    /// Emits an event on behalf of `source`, appending it to the queue.
    pub fn emit(&mut self, source: u64, tag: u64, payload: P)
        ensures
            final(self).events_spec() == old(self).events_spec().push(
                Event { source, tag, payload },
            ),
    {
        self.events.push(Event { source, tag, payload });
    }

    /// Returns the source identity of the queued event at `i`.
    pub fn source_of(&self, i: usize) -> (r: u64)
        requires
            (i as int) < self.len_spec(),
        ensures
            r == self.events_spec()[i as int].source,
    {
        self.events[i].source
    }

    /// Returns the event-kind tag of the queued event at `i`.
    pub fn tag_of(&self, i: usize) -> (r: u64)
        requires
            (i as int) < self.len_spec(),
        ensures
            r == self.events_spec()[i as int].tag,
    {
        self.events[i].tag
    }

    /// Returns the payload of the queued event at `i`.
    pub fn payload_of(&self, i: usize) -> (r: &P)
        requires
            (i as int) < self.len_spec(),
        ensures
            *r == self.events_spec()[i as int].payload,
    {
        &self.events[i].payload
    }

    /// Returns mutable access to the payload of the queued event at `i`:
    /// handlers claim consumable events through this.
    pub fn payload_mut(&mut self, i: usize) -> (r: &mut P)
        requires
            (i as int) < old(self).len_spec(),
        ensures
            *r == old(self).events_spec()[i as int].payload,
            final(self).events_spec() == old(self).events_spec().update(
                i as int,
                Event {
                    source: old(self).events_spec()[i as int].source,
                    tag: old(self).events_spec()[i as int].tag,
                    payload: *final(r),
                },
            ),
    {
        let e = &mut self.events[i];
        &mut e.payload
    }
}

/// One subscription of a listener: events from `source` with kind `tag` go
/// to the handler with handle `handler`.
#[derive(Clone, Copy, Debug, PartialEq, Eq, Structural)]
pub struct Subscription {
    pub source: u64,
    pub tag: u64,
    pub handler: u64,
}

/// A deferred subscription change, applied after the active dispatch pass.
#[derive(Clone, Copy, Debug, PartialEq, Eq, Structural)]
pub enum LateOp {
    /// Add (or replace) a subscription.
    On(Subscription),
    /// Remove the subscription keyed by (source, tag).
    Remove(u64, u64),
}

/// One handler invocation of a dispatch pass: run the handler with handle
/// `handler` on the queued event at index `event`.
#[derive(Clone, Copy, Debug, PartialEq, Eq, Structural)]
pub struct Invocation {
    pub handler: u64,
    pub event: usize,
}

/// Whether `subs` holds a subscription keyed by (source, tag).
pub open spec fn has_key(subs: Seq<Subscription>, source: u64, tag: u64) -> bool {
    exists|w: int|
        0 <= w < subs.len() && (#[trigger] subs[w]).source == source && subs[w].tag == tag
}

/// The index of the subscription keyed by (source, tag); meaningful when the
/// key is present (with distinct keys it is unique).
pub open spec fn key_index(subs: Seq<Subscription>, source: u64, tag: u64) -> int {
    choose|w: int|
        0 <= w < subs.len() && (#[trigger] subs[w]).source == source && subs[w].tag == tag
}

/// Subscription keys are pairwise distinct.
pub open spec fn keys_distinct(subs: Seq<Subscription>) -> bool {
    forall|w1: int, w2: int|
        0 <= w1 < w2 < subs.len() ==> ((#[trigger] subs[w1]).source != (
        #[trigger] subs[w2]).source || subs[w1].tag != subs[w2].tag)
}

/// The table after adding subscription `sub`: an existing subscription under
/// the same key is replaced in place, otherwise `sub` is appended.
pub open spec fn upsert_spec(subs: Seq<Subscription>, sub: Subscription) -> Seq<Subscription> {
    if has_key(subs, sub.source, sub.tag) {
        subs.update(key_index(subs, sub.source, sub.tag), sub)
    } else {
        subs.push(sub)
    }
}

/// The table after removing the subscription keyed by (source, tag), if any.
pub open spec fn remove_key_spec(subs: Seq<Subscription>, source: u64, tag: u64) -> Seq<
    Subscription,
> {
    if has_key(subs, source, tag) {
        subs.remove(key_index(subs, source, tag))
    } else {
        subs
    }
}

/// The table after one deferred change.
pub open spec fn apply_op_spec(subs: Seq<Subscription>, op: LateOp) -> Seq<Subscription> {
    match op {
        LateOp::On(sub) => upsert_spec(subs, sub),
        LateOp::Remove(source, tag) => remove_key_spec(subs, source, tag),
    }
}

/// The table after a list of deferred changes, applied in order.
pub open spec fn apply_ops_spec(subs: Seq<Subscription>, ops: Seq<LateOp>) -> Seq<Subscription>
    decreases ops.len(),
{
    if ops.len() == 0 {
        subs
    } else {
        apply_ops_spec(apply_op_spec(subs, ops[0]), ops.skip(1))
    }
}

/// Adding a subscription keeps keys distinct.
pub proof fn lemma_upsert_distinct(subs: Seq<Subscription>, sub: Subscription)
    requires
        keys_distinct(subs),
    ensures
        keys_distinct(upsert_spec(subs, sub)),
{
    if has_key(subs, sub.source, sub.tag) {
        let w = key_index(subs, sub.source, sub.tag);
        let post = subs.update(w, sub);
        assert forall|w1: int, w2: int| 0 <= w1 < w2 < post.len() implies ((
        #[trigger] post[w1]).source != (#[trigger] post[w2]).source || post[w1].tag
            != post[w2].tag) by {
            assert(subs[w1].source == post[w1].source || w1 == w);
            assert(subs[w2].source == post[w2].source || w2 == w);
        };
    } else {
        let post = subs.push(sub);
        assert forall|w1: int, w2: int| 0 <= w1 < w2 < post.len() implies ((
        #[trigger] post[w1]).source != (#[trigger] post[w2]).source || post[w1].tag
            != post[w2].tag) by {
            if w2 == subs.len() {
                assert(post[w2] == sub);
                assert(post[w1] == subs[w1]);
                assert(!(subs[w1].source == sub.source && subs[w1].tag == sub.tag));
            }
        };
    }
}

/// Removing a subscription keeps keys distinct.
pub proof fn lemma_remove_distinct(subs: Seq<Subscription>, source: u64, tag: u64)
    requires
        keys_distinct(subs),
    ensures
        keys_distinct(remove_key_spec(subs, source, tag)),
{
    if has_key(subs, source, tag) {
        let w = key_index(subs, source, tag);
        let post = subs.remove(w);
        assert forall|w1: int, w2: int| 0 <= w1 < w2 < post.len() implies ((
        #[trigger] post[w1]).source != (#[trigger] post[w2]).source || post[w1].tag
            != post[w2].tag) by {
            let o1: int = if w1 < w {
                w1
            } else {
                w1 + 1
            };
            let o2: int = if w2 < w {
                w2
            } else {
                w2 + 1
            };
            assert(post[w1] == subs[o1]);
            assert(post[w2] == subs[o2]);
        };
    }
}

/// Whether a deferred change is keyed by (source, tag).
pub open spec fn op_touches(op: LateOp, source: u64, tag: u64) -> bool {
    match op {
        LateOp::On(s) => s.source == source && s.tag == tag,
        LateOp::Remove(s, t) => s == source && t == tag,
    }
}

/// A subscription whose key no deferred change touches survives them all.
proof fn lemma_untouched_key_preserved(
    table: Seq<Subscription>,
    ops: Seq<LateOp>,
    sub: Subscription,
)
    requires
        keys_distinct(table),
        table.contains(sub),
        forall|j: int| 0 <= j < ops.len() ==> !op_touches(#[trigger] ops[j], sub.source, sub.tag),
    ensures
        apply_ops_spec(table, ops).contains(sub),
    decreases ops.len(),
{
    if ops.len() > 0 {
        let w = choose|w: int| 0 <= w < table.len() && table[w] == sub;
        let next = apply_op_spec(table, ops[0]);
        match ops[0] {
            LateOp::On(s2) => {
                lemma_upsert_distinct(table, s2);
                if has_key(table, s2.source, s2.tag) {
                    let w2 = key_index(table, s2.source, s2.tag);
                    assert(table[w2].source == s2.source && table[w2].tag == s2.tag);
                    assert(w2 != w);
                    assert(next[w] == sub);
                } else {
                    assert(next[w] == sub);
                }
                assert(next.contains(sub));
            },
            LateOp::Remove(src, tag) => {
                lemma_remove_distinct(table, src, tag);
                if has_key(table, src, tag) {
                    let w2 = key_index(table, src, tag);
                    assert(table[w2].source == src && table[w2].tag == tag);
                    assert(w2 != w);
                    if w < w2 {
                        assert(next[w] == sub);
                    } else {
                        assert(next[w - 1] == sub);
                    }
                }
                assert(next.contains(sub));
            },
        }
        lemma_untouched_key_preserved(next, ops.skip(1), sub);
    }
}

/// Deferred mutation, second half: a subscription added during a pass by a
/// deferred add — with no later deferred change touching its key — is in the
/// table once the pass ends, so its handler receives its matching events
/// from the next pass on.
pub proof fn lemma_deferred_on_applies(
    subs: Seq<Subscription>,
    ops: Seq<LateOp>,
    k: int,
    sub: Subscription,
)
    requires
        keys_distinct(subs),
        0 <= k < ops.len(),
        ops[k] == LateOp::On(sub),
        forall|j: int| k < j < ops.len() ==> !op_touches(#[trigger] ops[j], sub.source, sub.tag),
    ensures
        apply_ops_spec(subs, ops).contains(sub),
    decreases k,
{
    if k == 0 {
        let next = upsert_spec(subs, sub);
        lemma_upsert_distinct(subs, sub);
        if has_key(subs, sub.source, sub.tag) {
            let w = key_index(subs, sub.source, sub.tag);
            assert(next[w] == sub);
        } else {
            assert(next[subs.len() as int] == sub);
        }
        assert(next.contains(sub));
        assert forall|j: int|
            0 <= j < ops.skip(1).len() implies !op_touches(
            #[trigger] ops.skip(1)[j],
            sub.source,
            sub.tag,
        ) by {
            assert(ops.skip(1)[j] == ops[j + 1]);
        };
        lemma_untouched_key_preserved(next, ops.skip(1), sub);
    } else {
        match ops[0] {
            LateOp::On(s2) => lemma_upsert_distinct(subs, s2),
            LateOp::Remove(src, tag) => lemma_remove_distinct(subs, src, tag),
        }
        assert forall|j: int|
            k - 1 < j < ops.skip(1).len() implies !op_touches(
            #[trigger] ops.skip(1)[j],
            sub.source,
            sub.tag,
        ) by {
            assert(ops.skip(1)[j] == ops[j + 1]);
        };
        assert(ops.skip(1)[k - 1] == ops[k]);
        lemma_deferred_on_applies(apply_op_spec(subs, ops[0]), ops.skip(1), k - 1, sub);
    }
}

/// The invocations one subscription receives from the events at positions
/// `k` and later, in emission order.
pub open spec fn sched_entry_spec<P>(sub: Subscription, events: Seq<Event<P>>, k: int) -> Seq<
    Invocation,
>
    decreases events.len() - k,
    when 0 <= k <= events.len()
{
    if k >= events.len() {
        Seq::empty()
    } else {
        (if events[k].source == sub.source && events[k].tag == sub.tag {
            seq![Invocation { handler: sub.handler, event: k as usize }]
        } else {
            Seq::empty()
        }) + sched_entry_spec(sub, events, k + 1)
    }
}

/// The invocations of a dispatch pass over the subscriptions at positions
/// `s` and later: every subscription, in registration order, receives its
/// matching events from position `start` on, in emission order.
pub open spec fn schedule_spec<P>(
    subs: Seq<Subscription>,
    s: int,
    events: Seq<Event<P>>,
    start: int,
) -> Seq<Invocation>
    decreases subs.len() - s,
    when 0 <= s <= subs.len() && 0 <= start <= events.len()
{
    if s >= subs.len() {
        Seq::empty()
    } else {
        sched_entry_spec(subs[s], events, start) + schedule_spec(subs, s + 1, events, start)
    }
}

/// A handler that no subscription of the pass carries receives nothing from
/// one subscription's share of the schedule.
pub proof fn lemma_sched_entry_handlers<P>(sub: Subscription, events: Seq<Event<P>>, k: int, h: u64)
    requires
        0 <= k <= events.len(),
        sub.handler != h,
    ensures
        forall|x: int|
            0 <= x < sched_entry_spec(sub, events, k).len() ==> (#[trigger] sched_entry_spec(
                sub,
                events,
                k,
            )[x]).handler != h,
    decreases events.len() - k,
{
    if k < events.len() {
        lemma_sched_entry_handlers(sub, events, k + 1, h);
        let full = sched_entry_spec(sub, events, k);
        let rest = sched_entry_spec(sub, events, k + 1);
        assert forall|x: int| 0 <= x < full.len() implies (#[trigger] full[x]).handler != h by {
            if events[k].source == sub.source && events[k].tag == sub.tag {
                if x > 0 {
                    assert(full[x] == rest[x - 1]);
                }
            } else {
                assert(full[x] == rest[x]);
            }
        };
    }
}

/// Deferred mutation: a handler that is subscribed during a dispatch pass —
/// so that no subscription of the table at the start of the pass carried it
/// — is not invoked in that pass, even if matching events remain in it. It
/// can only run in a later pass, after the deferred changes applied.
pub proof fn lemma_deferred_handler_not_in_pass<P>(
    subs: Seq<Subscription>,
    s: int,
    events: Seq<Event<P>>,
    start: int,
    h: u64,
)
    requires
        0 <= s <= subs.len(),
        0 <= start <= events.len(),
        forall|w: int| 0 <= w < subs.len() ==> (#[trigger] subs[w]).handler != h,
    ensures
        forall|x: int|
            0 <= x < schedule_spec(subs, s, events, start).len() ==> (#[trigger] schedule_spec(
                subs,
                s,
                events,
                start,
            )[x]).handler != h,
    decreases subs.len() - s,
{
    if s < subs.len() {
        lemma_sched_entry_handlers(subs[s], events, start, h);
        lemma_deferred_handler_not_in_pass(subs, s + 1, events, start, h);
        let full = schedule_spec(subs, s, events, start);
        let head = sched_entry_spec(subs[s], events, start);
        let rest = schedule_spec(subs, s + 1, events, start);
        assert forall|x: int| 0 <= x < full.len() implies (#[trigger] full[x]).handler != h by {
            if x < head.len() {
                assert(full[x] == head[x]);
            } else {
                assert(full[x] == rest[x - head.len()]);
            }
        };
    }
}

/// A per-owning-node listener: the subscription table, the deferred changes
/// of the active pass, the queue position up to which events were already
/// dispatched, and whether a pass is active.
pub struct Listener {
    subs: Vec<Subscription>,
    late: Vec<LateOp>,
    seen: usize,
    dispatching: bool,
}

impl Listener {
    /// The subscription table, in registration order.
    pub closed spec fn subs_spec(&self) -> Seq<Subscription> {
        self.subs@
    }

    /// The deferred changes accumulated during the active pass.
    pub closed spec fn late_spec(&self) -> Seq<LateOp> {
        self.late@
    }

    /// The queue position up to which events were already dispatched.
    pub closed spec fn seen_spec(&self) -> int {
        self.seen as int
    }

    /// Whether a dispatch pass is active.
    pub closed spec fn in_dispatch(&self) -> bool {
        self.dispatching
    }

    /// The listener is well formed: subscription keys are pairwise distinct.
    pub open spec fn wf(&self) -> bool {
        keys_distinct(self.subs_spec())
    }

    /// A fresh listener that will see the events emitted after queue
    /// position `start`.
    pub fn new(start: usize) -> (r: Listener)
        ensures
            r.wf(),
            r.subs_spec() == Seq::<Subscription>::empty(),
            r.late_spec() == Seq::<LateOp>::empty(),
            r.seen_spec() == start as int,
            !r.in_dispatch(),
    {
        Listener { subs: Vec::new(), late: Vec::new(), seen: start, dispatching: false }
    }

    /// Finds the position of the subscription keyed by (source, tag).
    fn position_of(&self, source: u64, tag: u64) -> (r: Option<usize>)
        requires
            self.wf(),
        ensures
            r is Some <==> has_key(self.subs_spec(), source, tag),
            r matches Some(w) ==> w as int == key_index(self.subs_spec(), source, tag) && (
            w as int) < self.subs_spec().len(),
    {
        let n = self.subs.len();
        let mut w: usize = 0;
        while w < n
            invariant
                self.wf(),
                n as int == self.subs_spec().len(),
                w <= n,
                forall|v: int|
                    0 <= v < w as int ==> ((#[trigger] self.subs_spec()[v]).source != source
                        || self.subs_spec()[v].tag != tag),
            decreases n - w,
        {
            if self.subs[w].source == source && self.subs[w].tag == tag {
                proof {
                    let k = key_index(self.subs_spec(), source, tag);
                    assert(has_key(self.subs_spec(), source, tag));
                    if k != w as int {
                        assert(self.subs_spec()[k].source == source && self.subs_spec()[k].tag
                            == tag);
                        assert(false);
                    }
                }
                return Some(w);
            }
            w = w + 1;
        }
        proof {
            if has_key(self.subs_spec(), source, tag) {
                let k = key_index(self.subs_spec(), source, tag);
                assert(self.subs_spec()[k].source == source && self.subs_spec()[k].tag == tag);
                assert(false);
            }
        }
        None
    }

    /// Adds a handler for events from `source` with kind `tag`.
    ///
    /// If the key is already being handled, the handler is replaced. Not for
    /// use during a dispatch pass — the table is being iterated then; use
    /// [`Listener::late_on`] instead.
    pub fn on(&mut self, source: u64, tag: u64, handler: u64)
        requires
            old(self).wf(),
            !old(self).in_dispatch(),
        ensures
            final(self).wf(),
            final(self).subs_spec() == upsert_spec(
                old(self).subs_spec(),
                Subscription { source, tag, handler },
            ),
            final(self).late_spec() == old(self).late_spec(),
            final(self).seen_spec() == old(self).seen_spec(),
            !final(self).in_dispatch(),
    {
        let sub = Subscription { source, tag, handler };
        match self.position_of(source, tag) {
            Some(w) => {
                self.subs[w] = sub;
            },
            None => {
                self.subs.push(sub);
            },
        }
        proof {
            lemma_upsert_distinct(old(self).subs_spec(), sub);
        }
    }

    /// As [`Listener::on`], consuming and returning the listener, for
    /// builder-style registration.
    pub fn and_on(self, source: u64, tag: u64, handler: u64) -> (r: Listener)
        requires
            self.wf(),
            !self.in_dispatch(),
        ensures
            r.wf(),
            r.subs_spec() == upsert_spec(
                self.subs_spec(),
                Subscription { source, tag, handler },
            ),
            r.late_spec() == self.late_spec(),
            r.seen_spec() == self.seen_spec(),
            !r.in_dispatch(),
    {
        let mut this = self;
        this.on(source, tag, handler);
        this
    }

    /// Removes the handler keyed by (source, tag), returning whether one was
    /// registered. Not for use during a dispatch pass; use
    /// [`Listener::late_remove`] instead.
    pub fn remove(&mut self, source: u64, tag: u64) -> (r: bool)
        requires
            old(self).wf(),
            !old(self).in_dispatch(),
        ensures
            final(self).wf(),
            r == has_key(old(self).subs_spec(), source, tag),
            final(self).subs_spec() == remove_key_spec(old(self).subs_spec(), source, tag),
            final(self).late_spec() == old(self).late_spec(),
            final(self).seen_spec() == old(self).seen_spec(),
            !final(self).in_dispatch(),
    {
        let r = match self.position_of(source, tag) {
            Some(w) => {
                self.subs.remove(w);
                true
            },
            None => false,
        };
        proof {
            lemma_remove_distinct(old(self).subs_spec(), source, tag);
        }
        r
    }

    /// Returns `true` if a handler is handling (source, tag).
    pub fn contains(&self, source: u64, tag: u64) -> (r: bool)
        requires
            self.wf(),
        ensures
            r == has_key(self.subs_spec(), source, tag),
    {
        match self.position_of(source, tag) {
            Some(_) => true,
            None => false,
        }
    }

    /// As [`Listener::on`], but deferred: the subscription is added only
    /// after the active dispatch pass ends, so the new handler is not
    /// invoked during that pass.
    pub fn late_on(&mut self, source: u64, tag: u64, handler: u64)
        requires
            old(self).wf(),
        ensures
            final(self).wf(),
            final(self).subs_spec() == old(self).subs_spec(),
            final(self).late_spec() == old(self).late_spec().push(
                LateOp::On(Subscription { source, tag, handler }),
            ),
            final(self).seen_spec() == old(self).seen_spec(),
            final(self).in_dispatch() == old(self).in_dispatch(),
    {
        self.late.push(LateOp::On(Subscription { source, tag, handler }));
    }

    /// As [`Listener::remove`], but deferred until the active dispatch pass
    /// ends.
    pub fn late_remove(&mut self, source: u64, tag: u64)
        requires
            old(self).wf(),
        ensures
            final(self).wf(),
            final(self).subs_spec() == old(self).subs_spec(),
            final(self).late_spec() == old(self).late_spec().push(LateOp::Remove(source, tag)),
            final(self).seen_spec() == old(self).seen_spec(),
            final(self).in_dispatch() == old(self).in_dispatch(),
    {
        self.late.push(LateOp::Remove(source, tag));
    }

    /// Opens a dispatch pass: computes the invocations of this pass — for
    /// every currently registered subscription, in registration order, the
    /// events not yet seen that match its key, in emission order — and marks
    /// the table as being iterated.
    ///
    /// The caller runs the invocations and then calls
    /// [`Listener::end_dispatch`], which applies the deferred changes.
    pub fn begin_dispatch<P>(&mut self, q: &Queue<P>) -> (r: Vec<Invocation>)
        requires
            old(self).wf(),
            !old(self).in_dispatch(),
            old(self).seen_spec() <= q.len_spec(),
        ensures
            final(self).wf(),
            r@ == schedule_spec(
                old(self).subs_spec(),
                0,
                q.events_spec(),
                old(self).seen_spec(),
            ),
            final(self).subs_spec() == old(self).subs_spec(),
            final(self).late_spec() == old(self).late_spec(),
            final(self).seen_spec() == q.len_spec(),
            final(self).in_dispatch(),
    {
        let ghost events = q.events_spec();
        let ghost start = self.seen_spec();
        let n = self.subs.len();
        let qlen = q.len();
        let mut out: Vec<Invocation> = Vec::new();
        let mut s: usize = 0;
        while s < n
            invariant
                self.wf(),
                events == q.events_spec(),
                start == self.seen_spec(),
                0 <= start <= events.len(),
                qlen as int == events.len(),
                n as int == self.subs_spec().len(),
                s <= n,
                out@ + schedule_spec(self.subs_spec(), s as int, events, start) == schedule_spec(
                    self.subs_spec(),
                    0,
                    events,
                    start,
                ),
            decreases n - s,
        {
            let sub = self.subs[s];
            let ghost outer_prev = out@;
            let mut k: usize = self.seen;
            while k < qlen
                invariant
                    self.wf(),
                    events == q.events_spec(),
                    start == self.seen_spec(),
                    0 <= start <= events.len(),
                    qlen as int == events.len(),
                    n as int == self.subs_spec().len(),
                    s < n,
                    sub == self.subs_spec()[s as int],
                    start <= k as int <= events.len(),
                    out@ + sched_entry_spec(sub, events, k as int) == outer_prev + sched_entry_spec(
                        sub,
                        events,
                        start,
                    ),
                decreases qlen - k,
            {
                let e = &q.events[k];
                let ghost prev = out@;
                if e.source == sub.source && e.tag == sub.tag {
                    out.push(Invocation { handler: sub.handler, event: k });
                }
                proof {
                    assert(sched_entry_spec(sub, events, k as int) == (if events[k as int].source
                        == sub.source && events[k as int].tag == sub.tag {
                        seq![Invocation { handler: sub.handler, event: k }]
                    } else {
                        Seq::empty()
                    }) + sched_entry_spec(sub, events, k as int + 1));
                    assert(out@ + sched_entry_spec(sub, events, k as int + 1) =~= prev
                        + sched_entry_spec(sub, events, k as int));
                }
                k = k + 1;
            }
            proof {
                assert(sched_entry_spec(sub, events, events.len() as int) =~= Seq::<
                    Invocation,
                >::empty());
                assert(out@ =~= outer_prev + sched_entry_spec(sub, events, start));
                assert(schedule_spec(self.subs_spec(), s as int, events, start) == sched_entry_spec(
                    sub,
                    events,
                    start,
                ) + schedule_spec(self.subs_spec(), s as int + 1, events, start));
                assert(out@ + schedule_spec(self.subs_spec(), s as int + 1, events, start)
                    =~= outer_prev + schedule_spec(self.subs_spec(), s as int, events, start));
            }
            s = s + 1;
        }
        proof {
            assert(schedule_spec(self.subs_spec(), n as int, events, start) =~= Seq::<
                Invocation,
            >::empty());
            assert(out@ =~= schedule_spec(self.subs_spec(), 0, events, start));
        }
        self.seen = qlen;
        self.dispatching = true;
        out
    }

    /// Closes a dispatch pass: applies the deferred changes accumulated
    /// during it, in order, and releases the table.
    pub fn end_dispatch(&mut self)
        requires
            old(self).wf(),
            old(self).in_dispatch(),
        ensures
            final(self).wf(),
            final(self).subs_spec() == apply_ops_spec(
                old(self).subs_spec(),
                old(self).late_spec(),
            ),
            final(self).late_spec() == Seq::<LateOp>::empty(),
            final(self).seen_spec() == old(self).seen_spec(),
            !final(self).in_dispatch(),
    {
        let ghost ops = self.late_spec();
        proof {
            assert(ops.skip(0) =~= ops);
        }
        let m = self.late.len();
        let mut k: usize = 0;
        while k < m
            invariant
                self.wf(),
                m as int == ops.len(),
                k <= m,
                self.late_spec() == ops,
                self.seen_spec() == old(self).seen_spec(),
                self.in_dispatch() == old(self).in_dispatch(),
                apply_ops_spec(self.subs_spec(), ops.skip(k as int)) == apply_ops_spec(
                    old(self).subs_spec(),
                    ops,
                ),
            decreases m - k,
        {
            let op = self.late[k];
            let ghost pre_subs = self.subs_spec();
            match op {
                LateOp::On(sub) => {
                    match self.position_of(sub.source, sub.tag) {
                        Some(w) => {
                            self.subs[w] = sub;
                        },
                        None => {
                            self.subs.push(sub);
                        },
                    }
                    proof {
                        lemma_upsert_distinct(pre_subs, sub);
                    }
                },
                LateOp::Remove(source, tag) => {
                    match self.position_of(source, tag) {
                        Some(w) => {
                            self.subs.remove(w);
                        },
                        None => {},
                    }
                    proof {
                        lemma_remove_distinct(pre_subs, source, tag);
                    }
                },
            }
            proof {
                assert(self.subs_spec() == apply_op_spec(pre_subs, ops[k as int]));
                assert(ops.skip(k as int)[0] == ops[k as int]);
                assert(ops.skip(k as int).skip(1) =~= ops.skip(k as int + 1));
                assert(apply_ops_spec(pre_subs, ops.skip(k as int)) == apply_ops_spec(
                    self.subs_spec(),
                    ops.skip(k as int + 1),
                ));
            }
            k = k + 1;
        }
        proof {
            assert(ops.skip(m as int).len() == 0);
            assert(apply_ops_spec(self.subs_spec(), ops.skip(m as int)) == self.subs_spec());
        }
        self.late = Vec::new();
        self.dispatching = false;
    }
}

} // verus!
