//! The journal of routing events, from which the spending of the day is known.

use crate::units::{clamp, Ratio, Usd};
use vstd::prelude::*;

pub use crate::clock::now_unix;

verus! {

/// Seconds in a day. Spending is grouped by calendar day, in UTC.
pub const SECONDS_PER_DAY: u64 = 86_400;

/// What is noted of a request once it was handled.
#[derive(Debug, PartialEq)]
pub struct RoutingEvent {
    /// Seconds since 1970-01-01 UTC.
    pub timestamp: u64,
    pub route: String,
    pub complexity: Ratio,
    pub input_tokens: usize,
    pub output_tokens: usize,
    pub cost_usd: Usd,
    pub latency_ms: u64,
    pub success: bool,
    pub fallback: bool,
    pub decision_reason: String,
}

impl Clone for RoutingEvent {
    fn clone(&self) -> (r: RoutingEvent)
        ensures
            r == *self,
    {
        RoutingEvent {
            timestamp: self.timestamp,
            route: self.route.clone(),
            complexity: self.complexity,
            input_tokens: self.input_tokens,
            output_tokens: self.output_tokens,
            cost_usd: self.cost_usd,
            latency_ms: self.latency_ms,
            success: self.success,
            fallback: self.fallback,
            decision_reason: self.decision_reason.clone(),
        }
    }
}

/// The events of a journal at one time, in the order in which they were recorded.
pub open spec fn at(events: Seq<RoutingEvent>, t: u64) -> Seq<RoutingEvent> {
    events.filter(|e: RoutingEvent| e.timestamp == t)
}

/// Events stand in the order of their times.
pub open spec fn in_time_order(events: Seq<RoutingEvent>) -> bool {
    forall|i: int, j: int|
        0 <= i <= j < events.len() ==> (#[trigger] events[i]).timestamp <= (
        #[trigger] events[j]).timestamp
}

/// `read` holds the events of a journal from `since` on, in the order of their
/// times; those of one time stand in the order in which they were recorded.
pub open spec fn reads_since(
    journal: Seq<RoutingEvent>,
    since: u64,
    read: Seq<RoutingEvent>,
) -> bool {
    &&& in_time_order(read)
    &&& forall|t: u64| #[trigger]
        at(read, t) == if t >= since {
            at(journal, t)
        } else {
            Seq::<RoutingEvent>::empty()
        }
}

/// The first second of the day in which `now` lies.
pub open spec fn day_start(now: u64) -> int {
    now - now % SECONDS_PER_DAY
}

/// Whether time `t` lies in the day of `now`: a window of `SECONDS_PER_DAY` seconds.
pub open spec fn in_day_of(t: u64, now: u64) -> bool {
    day_start(now) <= t < day_start(now) + SECONDS_PER_DAY
}

/// What the events of the day of `now` cost together, in pico-dollars.
pub open spec fn spent_on(events: Seq<RoutingEvent>, now: u64) -> int
    decreases events.len(),
{
    if events.len() == 0 {
        0
    } else if in_day_of(events.last().timestamp, now) {
        clamp(spent_on(events.drop_last(), now) + events.last().cost_usd.pico)
    } else {
        spent_on(events.drop_last(), now)
    }
}

/// The journal, in the order in which its events were recorded.
#[derive(Debug)]
pub struct EventStore {
    events: Vec<RoutingEvent>,
}

impl View for EventStore {
    type V = Seq<RoutingEvent>;

    closed spec fn view(&self) -> Seq<RoutingEvent> {
        self.events@
    }
}

impl EventStore {
    /// An empty journal.
    pub fn open_in_memory() -> (r: EventStore)
        ensures
            r@ == Seq::<RoutingEvent>::empty(),
    {
        EventStore { events: Vec::new() }
    }

    /// A journal of events that were recorded before, in that order.
    pub fn from_events(events: Vec<RoutingEvent>) -> (r: EventStore)
        ensures
            r@ == events@,
    {
        EventStore { events }
    }

    /// Records an event.
    pub fn record(&mut self, event: RoutingEvent)
        ensures
            final(self)@ == old(self)@.push(event),
    {
        self.events.push(event);
    }

    /// The event recorded last, if there is any.
    pub fn last(&self) -> (r: Option<&RoutingEvent>)
        ensures
            r == (if self@.len() > 0 {
                Some(&self@.last())
            } else {
                None
            }),
    {
        let n: usize = self.events.len();
        if n > 0 {
            Some(&self.events[n - 1])
        } else {
            None
        }
    }

    /// All events, in the order of their times.
    pub fn all(&self) -> (r: Vec<RoutingEvent>)
        ensures
            reads_since(self@, 0, r@),
            r@.to_multiset() == self@.to_multiset(),
    {
        let r = self.query_since(0);
        proof {
            law_all_reads_every_event(self@, r@);
        }
        r
    }

    /// The events from `since` on, in the order of their times.
    pub fn query_since(&self, since: u64) -> (r: Vec<RoutingEvent>)
        ensures
            reads_since(self@, since, r@),
    {
        let mut r: Vec<RoutingEvent> = Vec::new();
        let mut i: usize = 0;
        proof {
            assert forall|t: u64| #[trigger]
                at(r@, t) == if t >= since {
                    at(self@.take(0), t)
                } else {
                    Seq::<RoutingEvent>::empty()
                } by {
                lemma_none_at(r@, t);
                lemma_none_at(self@.take(0), t);
            }
        }
        while i < self.events.len()
            invariant
                i <= self@.len(),
                self@ == self.events@,
                reads_since(self@.take(i as int), since, r@),
            decreases self@.len() - i,
        {
            let ghost so_far = self@.take(i as int);
            let ghost before = r@;
            let timestamp: u64 = self.events[i].timestamp;
            if timestamp >= since {
                let mut p: usize = r.len();
                while p > 0 && r[p - 1].timestamp > timestamp
                    invariant
                        p <= r@.len(),
                        forall|k: int| p <= k < r@.len() ==> (#[trigger] r@[k]).timestamp > timestamp,
                    decreases p,
                {
                    p = p - 1;
                }
                assert(in_time_order(before));
                r.insert(p, self.events[i].clone());
                proof {
                    lemma_inserted(before, p as int, self@[i as int]);
                }
            }
            proof {
                lemma_read_one_more(so_far, since, before, r@, self@[i as int]);
                assert(self@.take(i + 1) =~= so_far.push(self@[i as int]));
            }
            i = i + 1;
        }
        assert(self@.take(i as int) =~= self@);
        r
    }

    /// What was spent on the day in which `now` lies.
    pub fn cost_today(&self, now: u64) -> (r: Usd)
        ensures
            r.pico == spent_on(self@, now),
    {
        let start: u64 = (now / SECONDS_PER_DAY) * SECONDS_PER_DAY;
        let mut sum: Usd = Usd::zero();
        let mut i: usize = 0;
        while i < self.events.len()
            invariant
                i <= self@.len(),
                self@ == self.events@,
                start == day_start(now),
                sum.pico == spent_on(self@.take(i as int), now),
            decreases self@.len() - i,
        {
            proof {
                assert(self@.take(i + 1).drop_last() =~= self@.take(i as int));
            }
            let timestamp: u64 = self.events[i].timestamp;
            if timestamp >= start && timestamp - start < SECONDS_PER_DAY {
                sum = sum.plus(self.events[i].cost_usd);
            }
            i = i + 1;
        }
        assert(self@.take(i as int) =~= self@);
        sum
    }

    /// The number of events.
    pub fn count(&self) -> (n: u64)
        ensures
            n == self@.len(),
    {
        self.events.len() as u64
    }
}

proof fn lemma_at_push(events: Seq<RoutingEvent>, e: RoutingEvent, t: u64)
    ensures
        at(events.push(e), t) == if e.timestamp == t {
            at(events, t).push(e)
        } else {
            at(events, t)
        },
{
    reveal(Seq::filter);
    assert(events.push(e).drop_last() =~= events);
}

proof fn lemma_none_at(events: Seq<RoutingEvent>, t: u64)
    requires
        forall|k: int| 0 <= k < events.len() ==> (#[trigger] events[k]).timestamp != t,
    ensures
        at(events, t) == Seq::<RoutingEvent>::empty(),
    decreases events.len(),
{
    reveal(Seq::filter);
    if events.len() > 0 {
        let rest = events.drop_last();
        assert forall|k: int| 0 <= k < rest.len() implies (#[trigger] rest[k]).timestamp != t by {
            assert(rest[k] == events[k]);
        }
        lemma_none_at(rest, t);
        assert(events.last().timestamp != t);
    }
}

proof fn lemma_inserted(read: Seq<RoutingEvent>, p: int, e: RoutingEvent)
    requires
        0 <= p <= read.len(),
        in_time_order(read),
        p > 0 ==> read[p - 1].timestamp <= e.timestamp,
        forall|k: int| p <= k < read.len() ==> (#[trigger] read[k]).timestamp > e.timestamp,
    ensures
        in_time_order(read.insert(p, e)),
        forall|t: u64| #[trigger]
            at(read.insert(p, e), t) == if e.timestamp == t {
                at(read, t).push(e)
            } else {
                at(read, t)
            },
{
    let new = read.insert(p, e);
    assert forall|i: int, j: int| 0 <= i <= j < new.len() implies (#[trigger] new[i]).timestamp <= (
    #[trigger] new[j]).timestamp by {
        if p > 0 && i < p && j == p {
            assert(read[i].timestamp <= read[p - 1].timestamp);
        }
    }
    assert forall|t: u64| #[trigger]
        at(new, t) == if e.timestamp == t {
            at(read, t).push(e)
        } else {
            at(read, t)
        } by {
        let low = read.take(p);
        let high = read.skip(p);
        let pred = |x: RoutingEvent| x.timestamp == t;
        assert(new =~= low.push(e) + high);
        assert(read =~= low + high);
        Seq::filter_distributes_over_add(low.push(e), high, pred);
        Seq::filter_distributes_over_add(low, high, pred);
        lemma_at_push(low, e, t);
        if e.timestamp == t {
            assert forall|k: int| 0 <= k < high.len() implies (#[trigger] high[k]).timestamp
                != t by {
                assert(read[p + k].timestamp > e.timestamp);
            }
            lemma_none_at(high, t);
            assert(at(new, t) =~= at(read, t).push(e));
        }
    }
}

proof fn lemma_read_one_more(
    journal: Seq<RoutingEvent>,
    since: u64,
    before: Seq<RoutingEvent>,
    after: Seq<RoutingEvent>,
    e: RoutingEvent,
)
    requires
        reads_since(journal, since, before),
        in_time_order(after),
        e.timestamp < since ==> after == before,
        e.timestamp >= since ==> forall|t: u64| #[trigger]
            at(after, t) == if e.timestamp == t {
                at(before, t).push(e)
            } else {
                at(before, t)
            },
    ensures
        reads_since(journal.push(e), since, after),
{
    assert forall|t: u64| #[trigger]
        at(after, t) == if t >= since {
            at(journal.push(e), t)
        } else {
            Seq::<RoutingEvent>::empty()
        } by {
        lemma_at_push(journal, e, t);
        assert(at(before, t) == if t >= since {
            at(journal, t)
        } else {
            Seq::<RoutingEvent>::empty()
        });
    }
}

proof fn lemma_ends_with(events: Seq<RoutingEvent>)
    requires
        events.len() > 0,
    ensures
        at(events, events.last().timestamp).len() > 0,
        at(events, events.last().timestamp).last() == events.last(),
        forall|t: u64| #[trigger]
            at(events.drop_last(), t) == if events.last().timestamp == t {
                at(events, t).drop_last()
            } else {
                at(events, t)
            },
{
    assert forall|t: u64| #[trigger]
        at(events.drop_last(), t) == if events.last().timestamp == t {
            at(events, t).drop_last()
        } else {
            at(events, t)
        } by {
        lemma_at_push(events.drop_last(), events.last(), t);
        assert(events.drop_last().push(events.last()) =~= events);
        assert(at(events.drop_last(), t).push(events.last()).drop_last() =~= at(
            events.drop_last(),
            t,
        ));
    }
    lemma_at_push(events.drop_last(), events.last(), events.last().timestamp);
    assert(events.drop_last().push(events.last()) =~= events);
}

proof fn lemma_one_at(events: Seq<RoutingEvent>, t: u64)
    requires
        at(events, t).len() > 0,
    ensures
        exists|k: int| 0 <= k < events.len() && (#[trigger] events[k]).timestamp == t,
{
    if forall|k: int| 0 <= k < events.len() ==> (#[trigger] events[k]).timestamp != t {
        lemma_none_at(events, t);
    }
}

/// Order and contents leave no choice: two readings with the same events at each
/// time are the same.
pub proof fn law_reading_is_determined(a: Seq<RoutingEvent>, b: Seq<RoutingEvent>)
    requires
        in_time_order(a),
        in_time_order(b),
        forall|t: u64| #[trigger] at(a, t) == at(b, t),
    ensures
        a == b,
    decreases a.len(),
{
    if a.len() == 0 {
        if b.len() > 0 {
            lemma_ends_with(b);
            lemma_none_at(a, b.last().timestamp);
            assert(at(a, b.last().timestamp) == at(b, b.last().timestamp));
        }
        assert(a =~= b);
    } else {
        let t = a.last().timestamp;
        lemma_ends_with(a);
        assert(at(a, t) == at(b, t));
        lemma_one_at(b, t);
        lemma_ends_with(b);
        let u = b.last().timestamp;
        assert(at(a, u) == at(b, u));
        lemma_one_at(a, u);
        let k = choose|k: int| 0 <= k < b.len() && (#[trigger] b[k]).timestamp == t;
        assert(b[k].timestamp <= b[b.len() - 1].timestamp);
        let l = choose|l: int| 0 <= l < a.len() && (#[trigger] a[l]).timestamp == u;
        assert(a[l].timestamp <= a[a.len() - 1].timestamp);
        assert(a.last() == b.last());
        let ra = a.drop_last();
        let rb = b.drop_last();
        assert forall|s: u64| #[trigger] at(ra, s) == at(rb, s) by {
            assert(at(a, s) == at(b, s));
            assert(at(rb, s) == if u == s {
                at(b, s).drop_last()
            } else {
                at(b, s)
            });
        }
        law_reading_is_determined(ra, rb);
        assert(a =~= ra.push(a.last()));
        assert(b =~= rb.push(b.last()));
    }
}

pub(crate) proof fn lemma_count_at(events: Seq<RoutingEvent>, e: RoutingEvent)
    ensures
        events.to_multiset().count(e) == at(events, e.timestamp).to_multiset().count(e),
    decreases events.len(),
{
    broadcast use vstd::seq_lib::group_to_multiset_ensures;

    if events.len() == 0 {
        lemma_none_at(events, e.timestamp);
    } else {
        let rest = events.drop_last();
        let last = events.last();
        lemma_count_at(rest, e);
        lemma_at_push(rest, last, e.timestamp);
        assert(rest.push(last) =~= events);
        assert(events.to_multiset() == rest.to_multiset().insert(last));
    }
}

/// Reading everything gives back every event that was recorded, as often as it
/// was recorded.
pub proof fn law_all_reads_every_event(journal: Seq<RoutingEvent>, read: Seq<RoutingEvent>)
    requires
        reads_since(journal, 0, read),
    ensures
        read.to_multiset() == journal.to_multiset(),
{
    assert forall|e: RoutingEvent| read.to_multiset().count(e) == journal.to_multiset().count(
        e,
    ) by {
        lemma_count_at(read, e);
        lemma_count_at(journal, e);
        assert(at(read, e.timestamp) == at(journal, e.timestamp));
    }
    assert(read.to_multiset() =~= journal.to_multiset());
}

/// An event that was recorded is read back, from its time or an earlier one on.
pub proof fn law_a_recorded_event_is_read_back(
    journal: Seq<RoutingEvent>,
    event: RoutingEvent,
    since: u64,
    read: Seq<RoutingEvent>,
)
    requires
        reads_since(journal.push(event), since, read),
        event.timestamp >= since,
    ensures
        read.contains(event),
{
    let t = event.timestamp;
    lemma_at_push(journal, event, t);
    assert(at(read, t) == at(journal.push(event), t));
    let found = at(read, t);
    assert(found.last() == event);
    lemma_at_is_part(read, t, found.len() - 1);
}

proof fn lemma_at_is_part(events: Seq<RoutingEvent>, t: u64, i: int)
    requires
        0 <= i < at(events, t).len(),
    ensures
        events.contains(at(events, t)[i]),
        at(events, t)[i].timestamp == t,
    decreases events.len(),
{
    reveal(Seq::filter);
    if events.len() > 0 {
        let rest = events.drop_last();
        let last = events.last();
        lemma_at_push(rest, last, t);
        assert(rest.push(last) =~= events);
        if i < at(rest, t).len() {
            lemma_at_is_part(rest, t, i);
            let k = rest.index_of(at(rest, t)[i]);
            assert(events[k] == rest[k]);
        } else {
            assert(events[events.len() - 1] == last);
        }
    }
}

/// Nothing from before `since` is read.
pub proof fn law_nothing_older_is_read(
    journal: Seq<RoutingEvent>,
    since: u64,
    read: Seq<RoutingEvent>,
    i: int,
)
    requires
        reads_since(journal, since, read),
        0 <= i < read.len(),
    ensures
        read[i].timestamp >= since,
        journal.contains(read[i]),
{
    let t = read[i].timestamp;
    read.lemma_filter_contains(|e: RoutingEvent| e.timestamp == t, i);
    let j = at(read, t).index_of(read[i]);
    assert(at(read, t)[j] == read[i]);
    if t >= since {
        lemma_at_is_part(journal, t, j);
    }
}

/// Events of today count as spent today, and those of earlier and later days do
/// not.
pub proof fn law_only_today_counts(events: Seq<RoutingEvent>, event: RoutingEvent, now: u64)
    ensures
        in_day_of(event.timestamp, now) ==> spent_on(events.push(event), now) == clamp(
            spent_on(events, now) + event.cost_usd.pico,
        ),
        !in_day_of(event.timestamp, now) ==> spent_on(events.push(event), now) == spent_on(
            events,
            now,
        ),
{
    assert(events.push(event).drop_last() =~= events);
}

/// A day starts at a multiple of its length, and `now` lies within it.
pub proof fn law_day_is_aligned(now: u64)
    ensures
        day_start(now) % SECONDS_PER_DAY as int == 0,
        in_day_of(now, now),
{
    assert(now == SECONDS_PER_DAY as int * (now as int / SECONDS_PER_DAY as int) + now as int
        % SECONDS_PER_DAY as int);
    assert(day_start(now) == SECONDS_PER_DAY as int * (now as int / SECONDS_PER_DAY as int));
}

/// Two times lie in the same day exactly if each lies in the day of the other.
pub proof fn law_days_do_not_overlap(t: u64, now: u64)
    ensures
        in_day_of(t, now) <==> day_start(t) == day_start(now),
        in_day_of(t, now) <==> in_day_of(now, t),
{
    law_day_is_aligned(t);
    law_day_is_aligned(now);
}

/// The exact sum of the costs of the day of `now`.
pub open spec fn exact_sum_on(events: Seq<RoutingEvent>, now: u64) -> int
    decreases events.len(),
{
    if events.len() == 0 {
        0
    } else if in_day_of(events.last().timestamp, now) {
        exact_sum_on(events.drop_last(), now) + events.last().cost_usd.pico
    } else {
        exact_sum_on(events.drop_last(), now)
    }
}

/// Where no cost is negative and the sum can be held, what was spent is the
/// exact sum of the costs.
pub proof fn law_spending_is_the_exact_sum(events: Seq<RoutingEvent>, now: u64)
    requires
        forall|i: int| 0 <= i < events.len() ==> (#[trigger] events[i]).cost_usd.pico >= 0,
        exact_sum_on(events, now) <= i128::MAX,
    ensures
        spent_on(events, now) == exact_sum_on(events, now),
        exact_sum_on(events, now) >= 0,
    decreases events.len(),
{
    if events.len() > 0 {
        let rest = events.drop_last();
        assert forall|i: int| 0 <= i < rest.len() implies (#[trigger] rest[i]).cost_usd.pico
            >= 0 by {
            assert(rest[i] == events[i]);
        }
        assert(events.last().cost_usd.pico >= 0);
        law_spending_is_the_exact_sum(rest, now);
    }
}

proof fn lemma_place(read: Seq<RoutingEvent>, e: RoutingEvent) -> (p: int)
    requires
        in_time_order(read),
    ensures
        0 <= p <= read.len(),
        p > 0 ==> read[p - 1].timestamp <= e.timestamp,
        forall|k: int| p <= k < read.len() ==> (#[trigger] read[k]).timestamp > e.timestamp,
    decreases read.len(),
{
    if read.len() == 0 || read.last().timestamp <= e.timestamp {
        read.len() as int
    } else {
        let rest = read.drop_last();
        let p = lemma_place(rest, e);
        assert forall|k: int| p <= k < read.len() implies (#[trigger] read[k]).timestamp
            > e.timestamp by {
            if k < rest.len() {
                assert(rest[k] == read[k]);
            }
        }
        p
    }
}

/// Recording adds one event and leaves the others as they are, equal ones too: what
/// is read afterwards is what was read before with the event put in at its time.
pub proof fn law_recording_adds_one_event(
    journal: Seq<RoutingEvent>,
    event: RoutingEvent,
    before: Seq<RoutingEvent>,
    after: Seq<RoutingEvent>,
)
    requires
        reads_since(journal, 0, before),
        reads_since(journal.push(event), 0, after),
    ensures
        journal.push(event).len() == journal.len() + 1,
        after.len() == before.len() + 1,
        after.to_multiset() == before.to_multiset().insert(event),
        exists|p: int| 0 <= p <= before.len() && after == #[trigger] before.insert(p, event),
{
    broadcast use vstd::seq_lib::group_to_multiset_ensures;

    let p = lemma_place(before, event);
    let new = before.insert(p, event);
    lemma_inserted(before, p, event);
    lemma_read_one_more(journal, 0, before, new, event);
    assert forall|t: u64| #[trigger] at(new, t) == at(after, t) by {
        assert(at(after, t) == at(journal.push(event), t));
    }
    law_reading_is_determined(new, after);
    law_all_reads_every_event(journal, before);
    law_all_reads_every_event(journal.push(event), after);
}

} // verus!
