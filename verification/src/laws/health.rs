//! Breakers, field by field and over time.

use crate::circuit::{admitted, available, fresh, recorded, settled, BreakerState, Health};
use crate::laws::decision::{lets_through, name};
use crate::router::{decides, Router, RoutingDecision};
use crate::units::{Ratio, Usd, RATIO_ONE};
use vstd::prelude::*;

verus! {

/// A new route has a success rate of one, no outcomes, a closed breaker, and the
/// settings that it was given.
pub proof fn law_a_new_route_is_presumed_to_work(failure_threshold: Ratio, cooldown: u128)
    ensures
        fresh(failure_threshold, cooldown).rate.units == 1_500_000_000_000_000_000,
        fresh(failure_threshold, cooldown).samples == 0,
        fresh(failure_threshold, cooldown).state is Closed,
        fresh(failure_threshold, cooldown).cooldown == cooldown,
        fresh(failure_threshold, cooldown).failure_threshold == failure_threshold,
{
}

/// What one outcome does to a route. A success of a trial makes it like new. Any
/// other outcome moves the average by three tenths of the way, rounded down, and is
/// counted; a failed trial opens the breaker now; a closed breaker opens now exactly
/// if there are at least five outcomes and the average is below the threshold; an
/// open one stays as it is. The settings never change.
pub proof fn law_what_an_outcome_does(h: Health, success: bool, now: u128)
    requires
        h.rate.units <= RATIO_ONE,
    ensures
        ({
            let g = recorded(h, success, now);
            let sum = 7 * h.rate.units + if success {
                4_500_000_000_000_000_000int
            } else {
                0int
            };
            &&& g.cooldown == h.cooldown
            &&& g.failure_threshold == h.failure_threshold
            &&& h.state is HalfOpen && success ==> {
                &&& g.rate.units == 1_500_000_000_000_000_000
                &&& g.samples == 0
                &&& g.state is Closed
            }
            &&& !(h.state is HalfOpen && success) ==> {
                &&& 10 * g.rate.units <= sum < 10 * g.rate.units + 10
                &&& h.samples < u64::MAX ==> g.samples == h.samples + 1
                &&& h.samples == u64::MAX ==> g.samples == u64::MAX
            }
            &&& h.state is HalfOpen && !success ==> g.state == (BreakerState::Open {
                opened_at: now,
            })
            &&& h.state is Closed && g.samples >= 5 && g.rate.units < h.failure_threshold.units
                ==> g.state == (BreakerState::Open { opened_at: now })
            &&& h.state is Closed && !(g.samples >= 5 && g.rate.units
                < h.failure_threshold.units) ==> g.state is Closed
            &&& h.state is Open ==> g.state == h.state
        }),
{
}

/// Asking and looking: both answer whether the breaker lets a call through. Asking
/// hands out the trial of a breaker that is not closed, looking only notes that an
/// open one is due for its trial; neither changes anything else.
pub proof fn law_what_asking_and_looking_do(h: Health, now: u128)
    ensures
        available(h, now) == lets_through(h, now),
        admitted(h, now) == (Health {
            state: if h.state is Closed || !lets_through(h, now) {
                h.state
            } else {
                BreakerState::HalfOpen { trial_out: true }
            },
            ..h
        }),
        settled(h, now) == (Health {
            state: if h.state is Open && lets_through(h, now) {
                BreakerState::HalfOpen { trial_out: false }
            } else {
                h.state
            },
            ..h
        }),
{
}

/// A breaker that opens on an outcome rests from then on: its opening is a new
/// reading, not before any that the router took earlier. So until the cooldown has passed since
/// that reading, a paid route is not chosen, and the local one is not while there is
/// no budget and a paid one lets calls through.
pub proof fn law_a_rest_starts_with_the_failure(
    before: Router,
    after: Router,
    k: int,
    success: bool,
    now: u128,
    later: u128,
    complexity: Ratio,
    tokens: nat,
    spent: Usd,
    d: RoutingDecision,
)
    requires
        0 <= k < 3,
        now >= before.last_reading(),
        after.health(name(k)) == recorded(before.health(name(k)), success, now),
        !(before.health(name(k)).state is Open),
        after.health(name(k)).state is Open,
        before.last_reading() <= later < before.last_reading() + after.health(name(k)).cooldown,
        decides(after.outlook(complexity, tokens, spent, later), d),
    ensures
        after.health(name(k)).state->opened_at >= before.last_reading(),
        after.health(name(k)).cooldown == before.health(name(k)).cooldown,
        !lets_through(after.health(name(k)), later),
        k > 0 ==> d.route@ != name(k),
        k == 0 && after.config().daily_budget_usd is None && (lets_through(
            after.health("paid-cheap"@),
            later,
        ) || lets_through(after.health("paid-premium"@), later)) ==> d.route@ != "local"@,
{
    crate::router::lemma_tiers_differ();
    let h = after.health(name(k));
    assert(!lets_through(h, later));
    crate::laws::decision::law_a_decision_follows_the_table(
        after,
        complexity,
        tokens,
        spent,
        later,
        d,
    );
    assert(k == 0 || k == 1 || k == 2);
}

} // verus!
