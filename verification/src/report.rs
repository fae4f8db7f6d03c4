//! The balance of a journal: what was spent, what the premium route would have
//! cost for everything, and how the requests spread over the routes.

use crate::pricing::{cost_on, PricingTable, RoutePricing};
use crate::router::{tier, ROUTE_TIERS};
use crate::store::RoutingEvent;
use crate::text::same_text;
use crate::units::{clamp, Usd};
use vstd::prelude::*;

verus! {

/// The requests that one route handled.
#[derive(Clone, Copy, Debug, PartialEq)]
pub struct RouteSummary {
    pub route: &'static str,
    pub calls: usize,
    pub successes: usize,
    pub cost_usd: Usd,
    /// The sum of the latencies, in milliseconds.
    pub latency_ms: u128,
}

/// The balance of a journal.
#[derive(Clone, Debug, PartialEq)]
pub struct Report {
    pub events: usize,
    pub total_cost: Usd,
    /// What everything would have cost on the premium route.
    pub baseline_cost: Usd,
    pub savings: Usd,
    /// One summary for each tier that handled any request, in their order.
    pub routes: Vec<RouteSummary>,
}

/// What events cost together, in pico-dollars.
pub open spec fn total_of(events: Seq<RoutingEvent>) -> int
    decreases events.len(),
{
    if events.len() == 0 {
        0
    } else {
        clamp(total_of(events.drop_last()) + events.last().cost_usd.pico)
    }
}

/// What an event would have cost on the premium route, with at least one token
/// of output, in pico-dollars.
pub open spec fn premium_cost(rates: Map<Seq<char>, RoutePricing>, e: RoutingEvent) -> int {
    cost_on(
        rates,
        "paid-premium"@,
        e.input_tokens as int,
        if e.output_tokens > 1 {
            e.output_tokens as int
        } else {
            1
        },
    )
}

/// What events would have cost on the premium route together, in pico-dollars.
pub open spec fn baseline_of(
    rates: Map<Seq<char>, RoutePricing>,
    events: Seq<RoutingEvent>,
) -> int
    decreases events.len(),
{
    if events.len() == 0 {
        0
    } else {
        clamp(baseline_of(rates, events.drop_last()) + premium_cost(rates, events.last()))
    }
}

/// The events of a route.
pub open spec fn on_route(events: Seq<RoutingEvent>, route: Seq<char>) -> Seq<RoutingEvent> {
    events.filter(|e: RoutingEvent| e.route@ == route)
}

/// How many events are successes.
pub open spec fn successes_of(events: Seq<RoutingEvent>) -> nat {
    events.filter(|e: RoutingEvent| e.success).len()
}

/// The sum of the latencies of events, in milliseconds.
pub open spec fn latency_of(events: Seq<RoutingEvent>) -> int
    decreases events.len(),
{
    if events.len() == 0 {
        0
    } else {
        latency_of(events.drop_last()) + events.last().latency_ms
    }
}

/// A summary is that of a route.
pub open spec fn summarizes(s: RouteSummary, events: Seq<RoutingEvent>, route: Seq<char>) -> bool {
    let own = on_route(events, route);
    &&& s.route@ == route
    &&& s.calls == own.len()
    &&& s.successes == successes_of(own)
    &&& s.cost_usd.pico == total_of(own)
    &&& s.latency_ms == latency_of(own)
}

/// A list holds the summaries of those of the first `k` tiers that handled any
/// request.
pub open spec fn covers(list: Seq<RouteSummary>, events: Seq<RoutingEvent>, k: int) -> bool
    decreases k,
{
    if k <= 0 {
        list.len() == 0
    } else if on_route(events, tier(k - 1)).len() > 0 {
        &&& list.len() > 0
        &&& summarizes(list.last(), events, tier(k - 1))
        &&& covers(list.drop_last(), events, k - 1)
    } else {
        covers(list, events, k - 1)
    }
}

fn summarize_route(events: &Vec<RoutingEvent>, route: &'static str) -> (s: RouteSummary)
    ensures
        summarizes(s, events@, route@),
{
    let mut s = RouteSummary {
        route,
        calls: 0,
        successes: 0,
        cost_usd: Usd::zero(),
        latency_ms: 0,
    };
    let mut i: usize = 0;
    proof {
        reveal(Seq::filter);
    }
    while i < events.len()
        invariant
            i <= events@.len(),
            summarizes(s, events@.take(i as int), route@),
            s.successes <= s.calls <= i,
            s.latency_ms <= i * u64::MAX,
        decreases events@.len() - i,
    {
        let ghost own = on_route(events@.take(i as int), route@);
        proof {
            reveal(Seq::filter);
            assert(events@.take(i + 1).drop_last() =~= events@.take(i as int));
            assert(own.push(events@[i as int]).drop_last() =~= own);
            assert((i + 1) * u64::MAX == i * u64::MAX + u64::MAX) by (nonlinear_arith);
            assert((i + 1) * u64::MAX <= u64::MAX * u64::MAX) by (nonlinear_arith)
                requires
                    i + 1 <= u64::MAX,
            ;
        }
        let e: &RoutingEvent = &events[i];
        if same_text(e.route.as_str(), route) {
            s.calls = s.calls + 1;
            if e.success {
                s.successes = s.successes + 1;
            }
            s.cost_usd = s.cost_usd.plus(e.cost_usd);
            s.latency_ms = s.latency_ms + e.latency_ms as u128;
        }
        i = i + 1;
    }
    assert(events@.take(i as int) =~= events@);
    s
}

/// The balance of a list of events at given rates.
pub fn summarize(events: &Vec<RoutingEvent>, pricing: &PricingTable) -> (r: Report)
    ensures
        r.events == events@.len(),
        r.total_cost.pico == total_of(events@),
        r.baseline_cost.pico == baseline_of(pricing@, events@),
        r.savings.pico == clamp(baseline_of(pricing@, events@) - total_of(events@)),
        covers(r.routes@, events@, 3),
{
    let mut total_cost: Usd = Usd::zero();
    let mut baseline_cost: Usd = Usd::zero();
    let mut i: usize = 0;
    while i < events.len()
        invariant
            i <= events@.len(),
            total_cost.pico == total_of(events@.take(i as int)),
            baseline_cost.pico == baseline_of(pricing@, events@.take(i as int)),
        decreases events@.len() - i,
    {
        proof {
            assert(events@.take(i + 1).drop_last() =~= events@.take(i as int));
        }
        let output: usize = if events[i].output_tokens > 1 {
            events[i].output_tokens
        } else {
            1
        };
        total_cost = total_cost.plus(events[i].cost_usd);
        baseline_cost = baseline_cost.plus(
            pricing.cost_for("paid-premium", events[i].input_tokens, output),
        );
        i = i + 1;
    }
    assert(events@.take(i as int) =~= events@);
    let mut routes: Vec<RouteSummary> = Vec::new();
    let mut k: usize = 0;
    while k < 3
        invariant
            k <= 3,
            covers(routes@, events@, k as int),
        decreases 3 - k,
    {
        let s = summarize_route(events, ROUTE_TIERS[k]);
        if s.calls > 0 {
            let ghost before = routes@;
            routes.push(s);
            assert(routes@.drop_last() =~= before);
        }
        k = k + 1;
    }
    Report {
        events: events.len(),
        total_cost,
        baseline_cost,
        savings: baseline_cost.minus(total_cost),
        routes,
    }
}

/// No request is counted twice or left out: where every event is of a tier, the
/// calls of the three tiers add up to all events.
pub proof fn law_tiers_share_out_the_events(events: Seq<RoutingEvent>)
    requires
        forall|i: int|
            0 <= i < events.len() ==> !crate::router::off_tiers((#[trigger] events[i]).route@),
    ensures
        on_route(events, tier(0)).len() + on_route(events, tier(1)).len() + on_route(
            events,
            tier(2),
        ).len() == events.len(),
    decreases events.len(),
{
    reveal(Seq::filter);
    crate::router::lemma_tiers_differ();
    if events.len() > 0 {
        let rest = events.drop_last();
        assert forall|i: int| 0 <= i < rest.len() implies !crate::router::off_tiers(
            (#[trigger] rest[i]).route@,
        ) by {
            assert(rest[i] == events[i]);
        }
        law_tiers_share_out_the_events(rest);
        assert(!crate::router::off_tiers(events[events.len() - 1].route@));
    }
}

/// Requests that were all answered by the premium route, at the rates of the
/// table and with some output, save nothing.
pub proof fn law_premium_requests_save_nothing(
    rates: Map<Seq<char>, RoutePricing>,
    events: Seq<RoutingEvent>,
)
    requires
        forall|i: int|
            0 <= i < events.len() ==> (#[trigger] events[i]).output_tokens > 0
                && events[i].cost_usd.pico == premium_cost(rates, events[i]),
    ensures
        clamp(baseline_of(rates, events) - total_of(events)) == 0,
        baseline_of(rates, events) == total_of(events),
    decreases events.len(),
{
    if events.len() > 0 {
        let rest = events.drop_last();
        assert forall|i: int| 0 <= i < rest.len() implies (#[trigger] rest[i]).output_tokens > 0
            && rest[i].cost_usd.pico == premium_cost(rates, rest[i]) by {
            assert(rest[i] == events[i]);
        }
        law_premium_requests_save_nothing(rates, rest);
        assert(events[events.len() - 1].cost_usd.pico == premium_cost(rates, events.last()));
    }
}

} // verus!
