//! What is read back of the journal, and its balance.

use crate::laws::decision::held;
use crate::laws::run::bill;
use crate::pricing::RoutePricing;
use crate::report::{
    baseline_of, covers, on_route, summarizes, total_of, RouteSummary,
};
use crate::store::{at, reads_since, RoutingEvent};
use vstd::prelude::*;

verus! {

/// A reading from some time on holds exactly the events of the journal from that
/// time on, each as often as it was recorded, in the order of their times; those of
/// one time stand in the order in which they were recorded.
pub proof fn law_what_a_query_reads(
    journal: Seq<RoutingEvent>,
    since: u64,
    read: Seq<RoutingEvent>,
    event: RoutingEvent,
    t: u64,
)
    requires
        reads_since(journal, since, read),
    ensures
        forall|i: int, j: int|
            0 <= i < j < read.len() ==> (#[trigger] read[i]).timestamp <= (
            #[trigger] read[j]).timestamp,
        read.to_multiset().count(event) == if event.timestamp >= since {
            journal.to_multiset().count(event)
        } else {
            0
        },
        t >= since ==> read.filter(|e: RoutingEvent| e.timestamp == t) == journal.filter(
            |e: RoutingEvent| e.timestamp == t,
        ),
        t < since ==> read.filter(|e: RoutingEvent| e.timestamp == t).len() == 0,
{
    broadcast use vstd::seq_lib::group_to_multiset_ensures;

    crate::store::lemma_count_at(read, event);
    crate::store::lemma_count_at(journal, event);
    assert(at(read, event.timestamp) == if event.timestamp >= since {
        at(journal, event.timestamp)
    } else {
        Seq::<RoutingEvent>::empty()
    });
    assert(at(read, t) == if t >= since {
        at(journal, t)
    } else {
        Seq::<RoutingEvent>::empty()
    });
}

/// The balance of a journal, event by event: each adds its cost to the total, and to
/// the comparison what its input and its output, one token at least, would have cost
/// at the rates of the premium route.
pub proof fn law_each_event_enters_the_balance(
    rates: Map<Seq<char>, RoutePricing>,
    events: Seq<RoutingEvent>,
    event: RoutingEvent,
)
    ensures
        events.len() == 0 ==> total_of(events) == 0 && baseline_of(rates, events) == 0,
        total_of(events.push(event)) == held(total_of(events) + event.cost_usd.pico),
        baseline_of(rates, events.push(event)) == held(
            baseline_of(rates, events) + bill(
                rates,
                "paid-premium"@,
                event.input_tokens as int,
                if event.output_tokens == 0 {
                    1
                } else {
                    event.output_tokens as int
                },
            ),
        ),
{
    assert(events.push(event).drop_last() =~= events);
}

/// The figures of a route, event by event: only events of that very route enter,
/// each with one call, its success, its cost and its latency.
pub proof fn law_each_event_enters_its_route(
    events: Seq<RoutingEvent>,
    event: RoutingEvent,
    route: Seq<char>,
    before: RouteSummary,
    after: RouteSummary,
)
    requires
        summarizes(before, events, route),
        summarizes(after, events.push(event), route),
    ensures
        before.route@ == route,
        after.route@ == route,
        events.len() == 0 ==> before.calls == 0 && before.successes == 0 && before.cost_usd.pico
            == 0 && before.latency_ms == 0,
        event.route@ != route ==> after.calls == before.calls && after.successes
            == before.successes && after.cost_usd == before.cost_usd && after.latency_ms
            == before.latency_ms,
        event.route@ == route ==> {
            &&& after.calls == before.calls + 1
            &&& after.successes == before.successes + (if event.success {
                1int
            } else {
                0
            })
            &&& after.cost_usd.pico == held(before.cost_usd.pico + event.cost_usd.pico)
            &&& after.latency_ms == before.latency_ms + event.latency_ms
        },
{
    reveal(Seq::filter);
    assert(events.push(event).drop_last() =~= events);
    let own = on_route(events, route);
    if event.route@ == route {
        assert(on_route(events.push(event), route) =~= own.push(event));
        assert(own.push(event).drop_last() =~= own);
    } else {
        assert(on_route(events.push(event), route) =~= own);
    }
}

proof fn lemma_on_route(
    events: Seq<RoutingEvent>,
    route: Seq<char>,
    own: spec_fn(RoutingEvent) -> bool,
)
    requires
        forall|e: RoutingEvent| #[trigger] own(e) == (e.route@ == route),
    ensures
        events.filter(own) == on_route(events, route),
    decreases events.len(),
{
    reveal(Seq::filter);
    if events.len() > 0 {
        lemma_on_route(events.drop_last(), route, own);
        assert(own(events.last()) == (events.last().route@ == route));
    }
}

/// The routes of a balance are those of the three tiers that handled any request,
/// local first, then paid-cheap, then paid-premium, each with its own figures.
pub proof fn law_which_routes_a_balance_lists(list: Seq<RouteSummary>, events: Seq<RoutingEvent>)
    requires
        covers(list, events, 3),
    ensures
        ({
            let local = events.filter(|e: RoutingEvent| e.route@ == "local"@).len();
            let cheap = events.filter(|e: RoutingEvent| e.route@ == "paid-cheap"@).len();
            let premium = events.filter(|e: RoutingEvent| e.route@ == "paid-premium"@).len();
            let second = if local > 0 {
                1int
            } else {
                0
            };
            let third = second + if cheap > 0 {
                1int
            } else {
                0
            };
            &&& list.len() == third + if premium > 0 {
                1int
            } else {
                0
            }
            &&& local > 0 ==> {
                &&& summarizes(list[0], events, "local"@)
                &&& list[0].calls == local
            }
            &&& cheap > 0 ==> {
                &&& summarizes(list[second], events, "paid-cheap"@)
                &&& list[second].calls == cheap
            }
            &&& premium > 0 ==> {
                &&& summarizes(list[third], events, "paid-premium"@)
                &&& list[third].calls == premium
            }
        }),
{
    crate::router::lemma_tiers_differ();
    reveal_with_fuel(covers, 4);
    lemma_on_route(events, "local"@, |e: RoutingEvent| e.route@ == "local"@);
    lemma_on_route(events, "paid-cheap"@, |e: RoutingEvent| e.route@ == "paid-cheap"@);
    lemma_on_route(events, "paid-premium"@, |e: RoutingEvent| e.route@ == "paid-premium"@);
    assert(list.len() >= 2 ==> list.drop_last().last() == list[list.len() - 2]);
    assert(list.len() >= 3 ==> list.drop_last().drop_last().last() == list[list.len() - 3]);
}

} // verus!
