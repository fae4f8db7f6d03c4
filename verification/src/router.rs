//! The routing policy.
//!
//! A decision makes no call and writes nothing: it chooses a route from the
//! complexity of the prompt, what was spent today and the recent health of each
//! route.

use crate::circuit::{admitted, available, fresh, recorded, settled, Health, RouteStats};
use crate::clock::{clock_shows, one_reading_more, span, RouteClock};
use crate::complexity::{analyze, findings, lowercase, score_of};
use crate::pricing::{cost_on, PricingTable, RoutePricing};
use crate::routes::RouteMap;
use crate::text::{push_ratio, push_usd, ratio_text, same_text, usd_text};
use crate::tokens::{estimate_tokens, tokens_for};
use crate::units::{clamp, Ratio, Usd, RATIO_ONE};
use std::time::Instant;
use vstd::prelude::*;
use vstd::string::*;

verus! {

/// The routes, from the cheapest and weakest to the dearest and strongest.
/// Fallbacks and escalations move along this order.
pub const ROUTE_TIERS: [&'static str; 3] = ["local", "paid-cheap", "paid-premium"];

/// Size of the answer assumed when a cost is projected before the call.
pub const ASSUMED_OUTPUT_TOKENS: usize = 500;

/// The settings of the routing policy.
#[derive(Clone, Copy, Debug)]
pub struct AutopilotConfig {
    /// Below this complexity the local model is tried.
    pub local_complexity_threshold: Ratio,
    /// From this complexity on the premium model is used.
    pub premium_complexity_threshold: Ratio,
    /// Budget of a day; `None` is no limit.
    pub daily_budget_usd: Option<Usd>,
    /// Smoothed success rate below which the local route is passed over, even
    /// before its breaker opens.
    pub min_local_success_rate: Ratio,
    /// Smoothed success rate below which a breaker opens.
    pub circuit_failure_threshold: Ratio,
    /// Rest of an open breaker, in nanoseconds.
    pub circuit_cooldown: u128,
}

impl Default for AutopilotConfig {
    fn default() -> (r: AutopilotConfig)
        ensures
            100 * r.local_complexity_threshold.units == 35 * RATIO_ONE,
            100 * r.premium_complexity_threshold.units == 70 * RATIO_ONE,
            r.daily_budget_usd is None,
            100 * r.min_local_success_rate.units == 70 * RATIO_ONE,
            100 * r.circuit_failure_threshold.units == 50 * RATIO_ONE,
            r.circuit_cooldown == 120_000_000_000,
    {
        AutopilotConfig {
            local_complexity_threshold: Ratio::percent(35),
            premium_complexity_threshold: Ratio::percent(70),
            daily_budget_usd: None,
            min_local_success_rate: Ratio::percent(70),
            circuit_failure_threshold: Ratio::percent(50),
            circuit_cooldown: 120_000_000_000,
        }
    }
}

/// A route chosen for a prompt, and why.
#[derive(Clone, Debug, PartialEq)]
pub struct RoutingDecision {
    pub route: String,
    pub complexity: Ratio,
    pub estimated_cost_usd: Usd,
    pub forced_by_budget: bool,
    pub reason: String,
}

/// The name of a tier.
pub open spec fn tier(i: int) -> Seq<char> {
    ROUTE_TIERS@[i]@
}

/// A route is none of the tiers.
pub open spec fn off_tiers(route: Seq<char>) -> bool {
    route != tier(0) && route != tier(1) && route != tier(2)
}

pub(crate) proof fn lemma_tiers_differ()
    ensures
        tier(0) != tier(1),
        tier(0) != tier(2),
        tier(1) != tier(2),
        tier(0) == "local"@,
        tier(1) == "paid-cheap"@,
        tier(2) == "paid-premium"@,
{
    reveal_strlit("local");
    reveal_strlit("paid-cheap");
    reveal_strlit("paid-premium");
    assert(tier(0).len() == 5);
    assert(tier(1).len() == 10);
    assert(tier(2).len() == 12);
}

/// A route may be used at `now`: its breaker lets it through and, for the local
/// route, its success rate is high enough or it is due for its trial.
pub open spec fn healthy(config: AutopilotConfig, route: Seq<char>, h: Health, now: u128) -> bool {
    &&& available(h, now)
    &&& route == "local"@ ==> h.rate.units >= config.min_local_success_rate.units || settled(
        h,
        now,
    ).state is HalfOpen
}

/// The first healthy tier from `i` upwards; 3 if there is none.
pub open spec fn first_up(up: Seq<bool>, i: int) -> int
    decreases 3 - i,
{
    if i >= 3 {
        3
    } else if up[i] {
        i
    } else {
        first_up(up, i + 1)
    }
}

/// The first healthy tier from `i` downwards; -1 if there is none.
pub open spec fn first_down(up: Seq<bool>, i: int) -> int
    decreases i + 1,
{
    if i < 0 {
        -1
    } else if up[i] {
        i
    } else {
        first_down(up, i - 1)
    }
}

/// The tier used in place of `start`: the first healthy one from there upwards,
/// else downwards, else the local one, even if it is not healthy.
pub open spec fn landing(up: Seq<bool>, start: int) -> int {
    if first_up(up, start) < 3 {
        first_up(up, start)
    } else if first_down(up, start - 1) >= 0 {
        first_down(up, start - 1)
    } else {
        0
    }
}

/// Whether the search from `start` asks about tier `k`.
pub open spec fn searched(up: Seq<bool>, start: int, k: int) -> bool {
    if start <= k {
        k <= first_up(up, start)
    } else {
        first_up(up, start) == 3 && first_down(up, start - 1) <= k
    }
}

/// What a decision depends on.
pub struct Outlook {
    pub config: AutopilotConfig,
    pub complexity: Ratio,
    pub spent: Usd,
    /// Which tiers are healthy.
    pub up: Seq<bool>,
    /// The projected cost of the call on each tier, in pico-dollars.
    pub projected: Seq<int>,
}

/// The tier that the complexity alone asks for.
pub open spec fn base_tier(o: Outlook) -> int {
    if o.complexity.units < o.config.local_complexity_threshold.units {
        0
    } else if o.complexity.units < o.config.premium_complexity_threshold.units {
        1
    } else {
        2
    }
}

/// The call on tier `k` would go over the budget of the day.
pub open spec fn over_budget(o: Outlook, k: int) -> bool {
    match o.config.daily_budget_usd {
        Some(budget) => clamp(o.spent.pico + o.projected[k]) > budget.pico,
        None => false,
    }
}

/// The first tier from `i` downwards that is healthy and within the budget; the
/// local one if there is none.
pub open spec fn affordable(o: Outlook, i: int) -> int
    decreases i,
{
    if i <= 0 || (!over_budget(o, i) && o.up[i]) {
        i
    } else {
        affordable(o, i - 1)
    }
}

/// The tier that the health of the routes leads to, before any budget.
pub open spec fn healthy_tier(o: Outlook) -> int {
    landing(o.up, base_tier(o))
}

/// The tier that is chosen.
pub open spec fn chosen_tier(o: Outlook) -> int {
    if o.config.daily_budget_usd is Some {
        affordable(o, healthy_tier(o))
    } else {
        healthy_tier(o)
    }
}

/// Whether the budget made the decision pass over a tier.
pub open spec fn forced(o: Outlook) -> bool {
    exists|k: int| chosen_tier(o) < k <= healthy_tier(o) && #[trigger] over_budget(o, k)
}

/// Whether the decision asks about the health of tier `k`.
pub open spec fn consulted(o: Outlook, k: int) -> bool {
    ||| searched(o.up, base_tier(o), k)
    ||| o.config.daily_budget_usd is Some && 1 <= k && chosen_tier(o) <= k <= healthy_tier(o)
}

/// A reason followed by one more.
pub open spec fn and_then(reason: Seq<char>, note: Seq<char>) -> Seq<char> {
    reason + " ; "@ + note
}

/// Why the decision starts at its base tier.
pub open spec fn base_note(o: Outlook) -> Seq<char> {
    "complexité "@ + ratio_text(o.complexity) + " → palier de base « "@ + tier(base_tier(o))
        + " »"@
}

/// Why another tier than the base one is considered.
pub open spec fn escalation_note(o: Outlook) -> Seq<char> {
    "« "@ + tier(base_tier(o)) + " » indisponible/dégradé → repli sur « "@ + tier(
        healthy_tier(o),
    ) + " »"@
}

/// Why the budget passes over tier `i`.
pub open spec fn budget_note(budget: Usd, spent: Usd, i: int) -> Seq<char> {
    "budget quotidien ("@ + usd_text(budget) + "$) dépassé par « "@ + tier(i) + " » (déjà "@
        + usd_text(spent) + "$ dépensés) → repli sur « "@ + tier(i - 1) + " »"@
}

/// Why its health passes over tier `i`.
pub open spec fn health_note(i: int) -> Seq<char> {
    "« "@ + tier(i) + " » indisponible/dégradé (repli budgétaire) → repli sur « "@ + tier(i - 1)
        + " »"@
}

/// A reason followed by why tier `i` is passed over.
pub open spec fn passed_over(o: Outlook, i: int, reason: Seq<char>) -> Seq<char> {
    let budgeted = if over_budget(o, i) {
        and_then(reason, budget_note(o.config.daily_budget_usd->0, o.spent, i))
    } else {
        reason
    };
    if o.up[i] {
        budgeted
    } else {
        and_then(budgeted, health_note(i))
    }
}

/// A reason followed by why each tier from `i` down to the affordable one is
/// passed over.
pub open spec fn descent(o: Outlook, i: int, reason: Seq<char>) -> Seq<char>
    decreases i,
{
    if i <= 0 || (!over_budget(o, i) && o.up[i]) {
        reason
    } else {
        descent(o, i - 1, passed_over(o, i, reason))
    }
}

/// The reason before any budget.
pub open spec fn health_reason(o: Outlook) -> Seq<char> {
    if healthy_tier(o) != base_tier(o) {
        and_then(base_note(o), escalation_note(o))
    } else {
        base_note(o)
    }
}

/// The reason of a decision, one note after the other.
pub open spec fn reason_of(o: Outlook) -> Seq<char> {
    if o.config.daily_budget_usd is Some {
        descent(o, healthy_tier(o), health_reason(o))
    } else {
        health_reason(o)
    }
}

/// A decision is the one that an outlook leads to.
pub open spec fn decides(o: Outlook, d: RoutingDecision) -> bool {
    &&& d.route@ == tier(chosen_tier(o))
    &&& d.complexity == o.complexity
    &&& d.estimated_cost_usd.pico == o.projected[chosen_tier(o)]
    &&& d.forced_by_budget == forced(o)
    &&& d.reason@ == reason_of(o)
}

/// The routing policy and the health of the routes.
pub struct Router {
    config: AutopilotConfig,
    pricing: PricingTable,
    stats: RouteMap<RouteStats>,
    clock: RouteClock,
}

impl Router {
    /// The settings.
    pub closed spec fn config(&self) -> AutopilotConfig {
        self.config
    }

    /// The rates.
    pub closed spec fn rates(&self) -> Map<Seq<char>, RoutePricing> {
        self.pricing@
    }

    /// The instant from which the clock of the router counts.
    pub closed spec fn origin(&self) -> Instant {
        self.clock.spec_origin()
    }

    /// The reading of the clock that the router took last.
    pub closed spec fn last_reading(&self) -> nat {
        self.clock.last_reading()
    }

    /// How often the router read its clock.
    pub closed spec fn readings(&self) -> u64 {
        self.clock.readings()
    }

    /// The health of a route, that of a new one if it was never used.
    pub closed spec fn health(&self, route: Seq<char>) -> Health {
        if self.stats@.contains_key(route) {
            self.stats@[route]@
        } else {
            fresh(self.config.circuit_failure_threshold, self.config.circuit_cooldown)
        }
    }

    /// Which tiers are healthy at `now`.
    pub open spec fn up(&self, now: u128) -> Seq<bool> {
        Seq::new(3, |k: int| healthy(self.config(), tier(k), self.health(tier(k)), now))
    }

    /// What a decision at `now` depends on.
    pub open spec fn outlook(
        &self,
        complexity: Ratio,
        tokens_in: nat,
        spent: Usd,
        now: u128,
    ) -> Outlook {
        Outlook {
            config: self.config(),
            complexity,
            spent,
            up: self.up(now),
            projected: Seq::new(
                3,
                |k: int|
                    cost_on(self.rates(), tier(k), tokens_in as int, ASSUMED_OUTPUT_TOKENS as int),
            ),
        }
    }

    /// Two routers have the same settings, rates and clock.
    pub open spec fn same_setup(&self, other: Router) -> bool {
        &&& self.config() == other.config()
        &&& self.rates() == other.rates()
        &&& self.origin() == other.origin()
    }

    /// A router is `before` but for the health of one route.
    pub open spec fn differs_on(&self, before: Router, route: Seq<char>) -> bool {
        &&& self.same_setup(before)
        &&& forall|r: Seq<char>| r != route ==> #[trigger] self.health(r) == before.health(r)
    }

    /// A router is `before` after the tiers that `asked` holds of were looked at,
    /// at `now`.
    pub open spec fn asked_since(
        &self,
        before: Router,
        now: u128,
        asked: spec_fn(int) -> bool,
    ) -> bool {
        &&& self.same_setup(before)
        &&& forall|k: int|
            0 <= k < 3 ==> self.health(#[trigger] tier(k)) == if asked(k) {
                settled(before.health(tier(k)), now)
            } else {
                before.health(tier(k))
            }
        &&& forall|r: Seq<char>|
            off_tiers(r) ==> #[trigger] self.health(r) == before.health(r)
    }

    /// The health of a route after a decision at `now`.
    pub open spec fn health_after(&self, o: Outlook, now: u128, route: Seq<char>) -> Health {
        if exists|k: int| 0 <= k < 3 && route == #[trigger] tier(k) && consulted(o, k) {
            settled(self.health(route), now)
        } else {
            self.health(route)
        }
    }

    /// A router whose routes were never used.
    pub fn new(config: AutopilotConfig, pricing: PricingTable) -> (r: Router)
        ensures
            r.config() == config,
            r.rates() == pricing@,
            forall|route: Seq<char>| #[trigger]
                r.health(route) == fresh(config.circuit_failure_threshold, config.circuit_cooldown),
    {
        let clock = RouteClock::counting_from(Instant::now());
        Router { config, pricing, stats: RouteMap::new(), clock }
    }

    /// The current time on the clock of the router, in nanoseconds: not before the
    /// reading that it took last.
    pub fn tick(&self) -> (n: u128)
        ensures
            clock_shows(self.origin(), n),
            n >= self.last_reading(),
    {
        self.clock.peek()
    }

    /// The instant at which the router read its clock last.
    pub fn latest(&self) -> (r: Instant)
        ensures
            span(r, self.origin()) == self.last_reading(),
    {
        self.clock.latest()
    }

    /// Reads the clock of the router and keeps the reading: later ones are not before
    /// it.
    pub fn advance(&mut self) -> (n: u128)
        ensures
            clock_shows(old(self).origin(), n),
            n >= old(self).last_reading(),
            final(self).last_reading() == n,
            final(self).readings() == one_reading_more(old(self).readings()),
            final(self).same_setup(*old(self)),
            forall|route: Seq<char>| #[trigger]
                final(self).health(route) == old(self).health(route),
    {
        self.clock.read()
    }

    /// The cost of a call on a route.
    pub fn cost_for(&self, route: &str, input_tokens: usize, output_tokens: usize) -> (r: Usd)
        ensures
            r.pico == cost_on(self.rates(), route@, input_tokens as int, output_tokens as int),
    {
        self.pricing.cost_for(route, input_tokens, output_tokens)
    }

    /// The statistics of a route, to ask or to change, timed by the clock of the
    /// router.
    pub fn stats_for(&mut self, route: &str) -> (stats: &mut RouteStats)
        ensures
            stats@ == old(self).health(route@),
            stats.origin() == old(self).origin(),
            stats.last_reading() == old(self).last_reading(),
            stats.readings() == old(self).readings(),
            final(self).last_reading() == old(self).last_reading(),
            final(self).readings() == old(self).readings(),
            final(self).differs_on(*old(self), route@),
            final(self).health(route@) == final(stats)@,
    {
        let initial = RouteStats::with_clock(
            self.config.circuit_failure_threshold,
            self.config.circuit_cooldown,
            self.clock.origin(),
        );
        let clock: RouteClock = self.clock;
        let stats = self.stats.get_or_insert(route, initial);
        stats.time_from(clock);
        stats
    }

    /// The smoothed success rate of a route, one if it was never used.
    pub fn success_rate(&mut self, route: &str) -> (r: Ratio)
        ensures
            r == old(self).health(route@).rate,
            r.units <= RATIO_ONE,
            final(self).same_setup(*old(self)),
            final(self).last_reading() == old(self).last_reading(),
            final(self).readings() == old(self).readings(),
            forall|other: Seq<char>| #[trigger]
                final(self).health(other) == old(self).health(other),
    {
        self.stats_for(route).success_rate()
    }

    /// Records the outcome of a call on a route that ended now.
    pub fn record_outcome(&mut self, route: &str, success: bool)
        ensures
            final(self).differs_on(*old(self), route@),
            final(self).readings() == one_reading_more(old(self).readings()),
            exists|now: u128| #[trigger]
                clock_shows(old(self).origin(), now) && now >= old(self).last_reading()
                    && final(self).last_reading() == now && final(self).health(route@) == recorded(
                    old(self).health(route@),
                    success,
                    now,
                ),
    {
        let now: u128 = self.advance();
        self.record_outcome_at(route, success, now);
    }

    /// Records the outcome of a call on a route that ended at `now`.
    pub fn record_outcome_at(&mut self, route: &str, success: bool, now: u128)
        ensures
            final(self).differs_on(*old(self), route@),
            final(self).health(route@) == recorded(old(self).health(route@), success, now),
            final(self).last_reading() == old(self).last_reading(),
            final(self).readings() == old(self).readings(),
    {
        self.stats_for(route).record_at(success, now);
    }

    /// Whether a route may be used now. This only looks at its breaker: no trial is
    /// handed out.
    pub fn is_route_healthy(&mut self, route: &str) -> (b: bool)
        ensures
            final(self).differs_on(*old(self), route@),
            final(self).readings() == one_reading_more(old(self).readings()),
            exists|now: u128| #[trigger]
                clock_shows(old(self).origin(), now) && now >= old(self).last_reading()
                    && final(self).last_reading() == now && b == healthy(
                    old(self).config(),
                    route@,
                    old(self).health(route@),
                    now,
                ) && final(self).health(route@) == settled(old(self).health(route@), now),
    {
        let now: u128 = self.advance();
        self.is_route_healthy_at(route, now)
    }

    /// Whether a route may be used at `now`. This only looks at its breaker: no
    /// trial is handed out.
    pub fn is_route_healthy_at(&mut self, route: &str, now: u128) -> (b: bool)
        ensures
            b == healthy(old(self).config(), route@, old(self).health(route@), now),
            final(self).differs_on(*old(self), route@),
            final(self).health(route@) == settled(old(self).health(route@), now),
            final(self).last_reading() == old(self).last_reading(),
            final(self).readings() == old(self).readings(),
    {
        let min_success: u64 = if same_text(route, "local") {
            self.config.min_local_success_rate.units
        } else {
            0
        };
        let stats = self.stats_for(route);
        stats.looks_available_at(now) && (stats.success_rate().units >= min_success
            || stats.is_half_open())
    }

    /// Asks a route to take a call at `now`: whether it may receive traffic. A
    /// breaker that is not closed hands out its trial.
    pub fn admit_at(&mut self, route: &str, now: u128) -> (b: bool)
        ensures
            b == available(old(self).health(route@), now),
            final(self).differs_on(*old(self), route@),
            final(self).health(route@) == admitted(old(self).health(route@), now),
            final(self).last_reading() == old(self).last_reading(),
            final(self).readings() == old(self).readings(),
    {
        self.stats_for(route).is_available_at(now)
    }

    /// The first healthy tier from `start` upwards (dearer and stronger), else
    /// downwards, else the local one; and whether it is another than `start`.
    fn first_healthy_from(&mut self, start: usize, now: u128) -> (r: (usize, bool))
        requires
            start < 3,
        ensures
            r.0 == landing(old(self).up(now), start as int),
            r.0 < 3,
            r.1 == (r.0 != start),
            final(self).asked_since(
                *old(self),
                now,
                |k: int| searched(old(self).up(now), start as int, k),
            ),
            final(self).last_reading() == old(self).last_reading(),
            final(self).readings() == old(self).readings(),
    {
        let ghost before = *self;
        let ghost up = self.up(now);
        proof {
            lemma_search(up, start as int);
        }
        let mut i: usize = start;
        while i < 3
            invariant
                start <= i <= 3,
                start < 3,
                before == *old(self),
                up == before.up(now),
                first_up(up, start as int) == first_up(up, i as int),
                self.last_reading() == before.last_reading(),
                self.readings() == before.readings(),
                self.asked_since(before, now, |k: int| start <= k < i),
            decreases 3 - i,
        {
            let ghost mid = *self;
            let ok: bool = self.is_route_healthy_at(ROUTE_TIERS[i], now);
            proof {
                lemma_asked_one_more(before, mid, *self, now, |k: int| start <= k < i, i as int);
            }
            if ok {
                assert(self.asked_since(before, now, |k: int| searched(up, start as int, k)));
                return (i, i != start);
            }
            i = i + 1;
        }
        let mut j: usize = start;
        while j > 0
            invariant
                0 <= j <= start < 3,
                before == *old(self),
                up == before.up(now),
                first_up(up, start as int) == 3,
                self.last_reading() == before.last_reading(),
                self.readings() == before.readings(),
                first_down(up, start - 1) == first_down(up, j - 1),
                self.asked_since(before, now, |k: int| j <= k < 3),
            decreases j,
        {
            let ghost mid = *self;
            let ghost asked = |k: int| j <= k < 3;
            j = j - 1;
            let ok: bool = self.is_route_healthy_at(ROUTE_TIERS[j], now);
            proof {
                lemma_asked_one_more(before, mid, *self, now, asked, j as int);
            }
            if ok {
                assert(self.asked_since(before, now, |k: int| searched(up, start as int, k)));
                return (j, true);
            }
        }
        assert(self.asked_since(before, now, |k: int| searched(up, start as int, k)));
        (0, start != 0)
    }

    /// Chooses a route for a prompt, now. `spent_today_usd` is what the journal
    /// says was spent today.
    pub fn decide(&mut self, prompt: &str, spent_today_usd: Usd) -> (d: RoutingDecision)
        ensures
            exists|now: u128|
                {
                    let o = old(self).prompt_outlook(prompt@, spent_today_usd, now);
                    &&& #[trigger] clock_shows(old(self).origin(), now)
                    &&& now >= old(self).last_reading()
                    &&& final(self).last_reading() == now
                    &&& final(self).readings() == one_reading_more(old(self).readings())
                    &&& decides(o, d)
                    &&& final(self).asked_since(*old(self), now, |k: int| consulted(o, k))
                },
    {
        let ghost before = *self;
        let now: u128 = self.advance();
        let ghost mid = *self;
        proof {
            assert(mid.up(now) =~= before.up(now));
        }
        let d = self.decide_at(prompt, spent_today_usd, now);
        proof {
            let o = before.prompt_outlook(prompt@, spent_today_usd, now);
            assert(mid.prompt_outlook(prompt@, spent_today_usd, now).projected =~= o.projected);
            lemma_asked_after_reading(before, mid, *self, now, |k: int| consulted(o, k));
        }
        d
    }

    /// What a decision on a prompt at `now` depends on.
    pub open spec fn prompt_outlook(&self, prompt: Seq<char>, spent: Usd, now: u128) -> Outlook {
        self.outlook(
            Ratio { units: score_of(findings(prompt, lowercase(prompt))) as u64 },
            tokens_for(prompt.len()),
            spent,
            now,
        )
    }

    /// Chooses a route for a prompt, at `now`.
    pub fn decide_at(&mut self, prompt: &str, spent_today_usd: Usd, now: u128) -> (d:
        RoutingDecision)
        ensures
            decides(old(self).prompt_outlook(prompt@, spent_today_usd, now), d),
            final(self).asked_since(
                *old(self),
                now,
                |k: int| consulted(old(self).prompt_outlook(prompt@, spent_today_usd, now), k),
            ),
            final(self).last_reading() == old(self).last_reading(),
            final(self).readings() == old(self).readings(),
    {
        let complexity: Ratio = analyze(prompt).score;
        let tokens_in: usize = estimate_tokens(prompt);
        self.decide_for(complexity, tokens_in, spent_today_usd, now)
    }

    /// Chooses a route at `now` for a prompt of which the complexity and the
    /// number of tokens are known.
    pub fn decide_for(
        &mut self,
        complexity: Ratio,
        tokens_in: usize,
        spent_today_usd: Usd,
        now: u128,
    ) -> (d: RoutingDecision)
        ensures
            decides(old(self).outlook(complexity, tokens_in as nat, spent_today_usd, now), d),
            final(self).asked_since(
                *old(self),
                now,
                |k: int|
                    consulted(
                        old(self).outlook(complexity, tokens_in as nat, spent_today_usd, now),
                        k,
                    ),
            ),
            final(self).last_reading() == old(self).last_reading(),
            final(self).readings() == old(self).readings(),
    {
        let ghost before = *self;
        let ghost o = self.outlook(complexity, tokens_in as nat, spent_today_usd, now);
        let base: usize = if complexity.units < self.config.local_complexity_threshold.units {
            0
        } else if complexity.units < self.config.premium_complexity_threshold.units {
            1
        } else {
            2
        };
        let (landed, escalated) = self.first_healthy_from(base, now);
        let mut reason: String = String::new();
        push_base_note(&mut reason, complexity, base);
        assert(reason@ =~= base_note(o));
        if escalated {
            push_escalation_note(&mut reason, base, landed);
        }
        assert(reason@ == health_reason(o));

        let mut index: usize = landed;
        let mut forced_by_budget: bool = false;
        if let Some(budget) = self.config.daily_budget_usd {
            let mut done: bool = false;
            while index > 0 && !done
                invariant
                    index <= landed < 3,
                    before == *old(self),
                    o == before.outlook(complexity, tokens_in as nat, spent_today_usd, now),
                    o.config.daily_budget_usd == Some(budget),
                    self.last_reading() == before.last_reading(),
                    self.readings() == before.readings(),
                    landed == healthy_tier(o),
                    base == base_tier(o),
                    self.asked_since(
                        before,
                        now,
                        |k: int|
                            searched(o.up, base as int, k) || (1 <= k && index < k <= landed) || (
                            done && k == index),
                    ),
                    affordable(o, landed as int) == affordable(o, index as int),
                    done ==> index > 0 && !over_budget(o, index as int) && o.up[index as int],
                    descent(o, landed as int, health_reason(o)) == descent(
                        o,
                        index as int,
                        reason@,
                    ),
                    forced_by_budget == exists|k: int|
                        index < k <= landed && #[trigger] over_budget(o, k),
                decreases index, (if done { 0int } else { 1int }),
            {
                let ghost mid = *self;
                let ghost asked = |k: int|
                    searched(o.up, base as int, k) || (1 <= k && index < k <= landed);
                let projected: Usd = self.pricing.cost_for(
                    ROUTE_TIERS[index],
                    tokens_in,
                    ASSUMED_OUTPUT_TOKENS,
                );
                let over: bool = spent_today_usd.plus(projected).pico > budget.pico;
                let ok: bool = self.is_route_healthy_at(ROUTE_TIERS[index], now);
                proof {
                    assert(mid.asked_since(before, now, asked));
                    lemma_asked_one_more(before, mid, *self, now, asked, index as int);
                    assert(over == over_budget(o, index as int));
                    assert(ok == o.up[index as int]);
                }
                if !over && ok {
                    done = true;
                } else {
                    if over {
                        forced_by_budget = true;
                        push_budget_note(&mut reason, budget, spent_today_usd, index);
                    }
                    if !ok {
                        push_health_note(&mut reason, index);
                    }
                    index = index - 1;
                }
            }
        }
        assert(index == chosen_tier(o));
        assert(reason@ == reason_of(o));
        let route: String = ROUTE_TIERS[index].to_owned();
        let estimated_cost_usd: Usd = self.pricing.cost_for(
            ROUTE_TIERS[index],
            tokens_in,
            ASSUMED_OUTPUT_TOKENS,
        );
        RoutingDecision { route, complexity, estimated_cost_usd, forced_by_budget, reason }
    }
}

fn push_base_note(reason: &mut String, complexity: Ratio, base: usize)
    requires
        base < 3,
    ensures
        final(reason)@ == old(reason)@ + ("complexité "@ + ratio_text(complexity)
            + " → palier de base « "@ + tier(base as int) + " »"@),
{
    reason.append("complexité ");
    push_ratio(reason, complexity);
    reason.append(" → palier de base « ");
    reason.append(ROUTE_TIERS[base]);
    reason.append(" »");
    assert(reason@ =~= old(reason)@ + ("complexité "@ + ratio_text(complexity)
        + " → palier de base « "@ + tier(base as int) + " »"@));
}

fn push_escalation_note(reason: &mut String, base: usize, landed: usize)
    requires
        base < 3,
        landed < 3,
    ensures
        final(reason)@ == and_then(
            old(reason)@,
            "« "@ + tier(base as int) + " » indisponible/dégradé → repli sur « "@ + tier(
                landed as int,
            ) + " »"@,
        ),
{
    reason.append(" ; ");
    reason.append("« ");
    reason.append(ROUTE_TIERS[base]);
    reason.append(" » indisponible/dégradé → repli sur « ");
    reason.append(ROUTE_TIERS[landed]);
    reason.append(" »");
    assert(reason@ =~= and_then(
        old(reason)@,
        "« "@ + tier(base as int) + " » indisponible/dégradé → repli sur « "@ + tier(
            landed as int,
        ) + " »"@,
    ));
}

fn push_budget_note(reason: &mut String, budget: Usd, spent: Usd, i: usize)
    requires
        0 < i < 3,
    ensures
        final(reason)@ == and_then(old(reason)@, budget_note(budget, spent, i as int)),
{
    reason.append(" ; ");
    reason.append("budget quotidien (");
    push_usd(reason, budget);
    reason.append("$) dépassé par « ");
    reason.append(ROUTE_TIERS[i]);
    reason.append(" » (déjà ");
    push_usd(reason, spent);
    reason.append("$ dépensés) → repli sur « ");
    reason.append(ROUTE_TIERS[i - 1]);
    reason.append(" »");
    assert(reason@ =~= and_then(old(reason)@, budget_note(budget, spent, i as int)));
}

fn push_health_note(reason: &mut String, i: usize)
    requires
        0 < i < 3,
    ensures
        final(reason)@ == and_then(old(reason)@, health_note(i as int)),
{
    reason.append(" ; ");
    reason.append("« ");
    reason.append(ROUTE_TIERS[i]);
    reason.append(" » indisponible/dégradé (repli budgétaire) → repli sur « ");
    reason.append(ROUTE_TIERS[i - 1]);
    reason.append(" »");
    assert(reason@ =~= and_then(old(reason)@, health_note(i as int)));
}

proof fn lemma_search(up: Seq<bool>, start: int)
    requires
        0 <= start < 3,
    ensures
        start <= first_up(up, start) <= 3,
        -1 <= first_down(up, start - 1) < start,
        0 <= landing(up, start) < 3,
{
    reveal_with_fuel(first_up, 4);
    reveal_with_fuel(first_down, 4);
}

proof fn lemma_asked_one_more(
    before: Router,
    mid: Router,
    after: Router,
    now: u128,
    asked: spec_fn(int) -> bool,
    i: int,
)
    requires
        0 <= i < 3,
        mid.asked_since(before, now, asked),
        after.differs_on(mid, tier(i)),
        after.health(tier(i)) == settled(mid.health(tier(i)), now),
    ensures
        after.asked_since(before, now, |k: int| asked(k) || k == i),
        healthy(mid.config(), tier(i), mid.health(tier(i)), now) == before.up(now)[i],
{
    lemma_tiers_differ();
    assert forall|k: int| 0 <= k < 3 implies after.health(#[trigger] tier(k)) == if asked(k) || k
        == i {
        settled(before.health(tier(k)), now)
    } else {
        before.health(tier(k))
    } by {
        assert(mid.health(tier(k)) == if asked(k) {
            settled(before.health(tier(k)), now)
        } else {
            before.health(tier(k))
        });
        if k != i {
            assert(tier(k) != tier(i));
            assert(after.health(tier(k)) == mid.health(tier(k)));
        }
    }
    assert forall|r: Seq<char>| off_tiers(r) implies #[trigger] after.health(r) == before.health(
        r,
    ) by {
        assert(r != tier(i));
        assert(after.health(r) == mid.health(r));
    }
}

pub(crate) proof fn lemma_asked_after_reading(
    before: Router,
    mid: Router,
    after: Router,
    now: u128,
    asked: spec_fn(int) -> bool,
)
    requires
        mid.same_setup(before),
        forall|route: Seq<char>| #[trigger] mid.health(route) == before.health(route),
        after.asked_since(mid, now, asked),
    ensures
        after.asked_since(before, now, asked),
{
    assert forall|k: int| 0 <= k < 3 implies after.health(#[trigger] tier(k)) == if asked(k) {
        settled(before.health(tier(k)), now)
    } else {
        before.health(tier(k))
    } by {
        assert(mid.health(tier(k)) == before.health(tier(k)));
    }
    assert forall|r: Seq<char>| off_tiers(r) implies #[trigger] after.health(r) == before.health(
        r,
    ) by {
        assert(mid.health(r) == before.health(r));
    }
}

pub(crate) proof fn lemma_health_after(before: Router, after: Router, o: Outlook, now: u128)
    requires
        after.asked_since(before, now, |k: int| consulted(o, k)),
    ensures
        forall|r: Seq<char>| #[trigger] after.health(r) == before.health_after(o, now, r),
{
    lemma_tiers_differ();
    assert forall|r: Seq<char>| #[trigger] after.health(r) == before.health_after(o, now, r) by {
        if !off_tiers(r) {
            let k: int = if r == tier(0) {
                0
            } else if r == tier(1) {
                1
            } else {
                2
            };
            assert(after.health(tier(k)) == if consulted(o, k) {
                settled(before.health(tier(k)), now)
            } else {
                before.health(tier(k))
            });
        }
    }
}

/// An outlook says of each of the three tiers whether it is healthy and what the
/// call would cost.
pub open spec fn well_formed(o: Outlook) -> bool {
    o.up.len() == 3 && o.projected.len() == 3
}

proof fn lemma_affordable(o: Outlook, i: int)
    requires
        0 <= i < 3,
    ensures
        0 <= affordable(o, i) <= i,
        affordable(o, i) > 0 ==> !over_budget(o, affordable(o, i)) && o.up[affordable(o, i)],
        forall|k: int|
            affordable(o, i) < k <= i ==> #[trigger] over_budget(o, k) || !o.up[k],
    decreases i,
{
    if i > 0 && (over_budget(o, i) || !o.up[i]) {
        lemma_affordable(o, i - 1);
    }
}

/// A decision always names one of the three tiers.
pub proof fn law_choice_is_a_tier(o: Outlook)
    requires
        well_formed(o),
    ensures
        0 <= base_tier(o) < 3,
        0 <= healthy_tier(o) < 3,
        0 <= chosen_tier(o) <= healthy_tier(o),
{
    lemma_search(o.up, base_tier(o));
    lemma_affordable(o, healthy_tier(o));
}

/// Without a budget the decision never is forced, and is the one that the health
/// of the routes leads to.
pub proof fn law_no_budget_never_forces(o: Outlook)
    requires
        well_formed(o),
        o.config.daily_budget_usd is None,
    ensures
        !forced(o),
        chosen_tier(o) == healthy_tier(o),
{
}

/// A route that is not healthy is never chosen, unless it is the local one: the
/// last resort.
pub proof fn law_choice_is_healthy_or_local(o: Outlook)
    requires
        well_formed(o),
    ensures
        chosen_tier(o) == 0 || o.up[chosen_tier(o)],
{
    reveal_with_fuel(first_up, 4);
    reveal_with_fuel(first_down, 4);
    law_choice_is_a_tier(o);
    lemma_affordable(o, healthy_tier(o));
}

/// With a budget, a paid route is only chosen if the projected call fits in it.
pub proof fn law_paid_choice_fits_the_budget(o: Outlook, budget: Usd)
    requires
        well_formed(o),
        o.config.daily_budget_usd == Some(budget),
        chosen_tier(o) > 0,
    ensures
        clamp(o.spent.pico + o.projected[chosen_tier(o)]) <= budget.pico,
{
    law_choice_is_a_tier(o);
    lemma_affordable(o, healthy_tier(o));
}

/// Once nothing is left of the budget, routes that cost something are not chosen.
pub proof fn law_exhausted_budget_leads_to_local(o: Outlook, budget: Usd)
    requires
        well_formed(o),
        o.config.daily_budget_usd == Some(budget),
        budget.pico < i128::MAX,
        o.spent.pico >= budget.pico,
        o.projected[1] > 0,
        o.projected[2] > 0,
    ensures
        chosen_tier(o) == 0,
{
    law_choice_is_a_tier(o);
    lemma_affordable(o, healthy_tier(o));
    assert(over_budget(o, 1) && over_budget(o, 2));
}

/// While every route is healthy and the call on the base tier fits in the
/// budget, if there is one, complexity alone decides.
pub proof fn law_complexity_decides_between_healthy_routes(o: Outlook)
    requires
        well_formed(o),
        o.up == seq![true, true, true],
        !over_budget(o, base_tier(o)),
    ensures
        chosen_tier(o) == base_tier(o),
        !forced(o),
        o.complexity.units < o.config.local_complexity_threshold.units ==> chosen_tier(o) == 0,
        o.config.local_complexity_threshold.units <= o.complexity.units
            < o.config.premium_complexity_threshold.units ==> chosen_tier(o) == 1,
{
    law_choice_is_a_tier(o);
}

/// A route that is down is replaced by the next healthy one above it.
pub proof fn law_unhealthy_base_escalates(o: Outlook)
    requires
        well_formed(o),
        o.config.daily_budget_usd is None,
        base_tier(o) < 2,
        !o.up[base_tier(o)],
        o.up[base_tier(o) + 1],
    ensures
        chosen_tier(o) == base_tier(o) + 1,
        reason_of(o) == and_then(base_note(o), escalation_note(o)),
{
    reveal_with_fuel(first_up, 4);
}

/// When no route is healthy the local one is used.
pub proof fn law_last_resort_is_local(o: Outlook)
    requires
        well_formed(o),
        o.up == seq![false, false, false],
    ensures
        chosen_tier(o) == 0,
{
    reveal_with_fuel(first_up, 4);
    reveal_with_fuel(first_down, 4);
}

/// A route whose breaker is open and still resting gets no traffic: a paid one
/// never, the local one unless no other is healthy or the budget leads to it.
pub proof fn law_resting_route_gets_no_traffic(
    router: Router,
    complexity: Ratio,
    tokens_in: nat,
    spent: Usd,
    now: u128,
    k: int,
)
    requires
        0 <= k < 3,
        !available(router.health(tier(k)), now),
    ensures
        ({
            let o = router.outlook(complexity, tokens_in, spent, now);
            &&& k > 0 ==> chosen_tier(o) != k
            &&& k == 0 && o.config.daily_budget_usd is None && (o.up[1] || o.up[2])
                ==> chosen_tier(o) != 0
        }),
{
    let o = router.outlook(complexity, tokens_in, spent, now);
    assert(!o.up[k]);
    law_choice_is_healthy_or_local(o);
    reveal_with_fuel(first_up, 4);
    reveal_with_fuel(first_down, 4);
}

/// A route whose cooldown is over is healthy again, the local one whatever its
/// success rate: without a budget it gets its trial with the next prompt that asks
/// for its tier.
pub proof fn law_rested_route_gets_its_trial(
    router: Router,
    complexity: Ratio,
    tokens_in: nat,
    spent: Usd,
    now: u128,
    k: int,
)
    requires
        0 <= k < 3,
        router.health(tier(k)).state is Open,
        available(router.health(tier(k)), now),
    ensures
        ({
            let o = router.outlook(complexity, tokens_in, spent, now);
            &&& o.up[k]
            &&& o.config.daily_budget_usd is None && base_tier(o) == k ==> chosen_tier(o) == k
        }),
{
}

/// The budget forces a decision exactly when it makes it a downgrade: when the
/// tier chosen is a cheaper one than the health of the routes leads to.
pub proof fn law_forced_decision_is_a_downgrade(o: Outlook)
    requires
        well_formed(o),
    ensures
        forced(o) <==> chosen_tier(o) < healthy_tier(o),
        forced(o) ==> o.config.daily_budget_usd is Some,
{
    reveal_with_fuel(first_up, 4);
    reveal_with_fuel(first_down, 4);
    law_choice_is_a_tier(o);
    if chosen_tier(o) < healthy_tier(o) {
        lemma_affordable(o, healthy_tier(o));
        assert(o.up[healthy_tier(o)]);
        assert(over_budget(o, healthy_tier(o)));
    }
}

proof fn lemma_affordable_is_monotone(o: Outlook, p: Outlook, i: int)
    requires
        0 <= i < 3,
        o.up == p.up,
        forall|k: int| #[trigger] over_budget(p, k) ==> over_budget(o, k),
    ensures
        affordable(o, i) <= affordable(p, i),
    decreases i,
{
    if i > 0 {
        lemma_affordable(o, i - 1);
        lemma_affordable(p, i - 1);
        lemma_affordable_is_monotone(o, p, i - 1);
        assert(over_budget(p, i) ==> over_budget(o, i));
    }
}

/// Nothing else changed, a smaller budget or a larger amount already spent never
/// leads to a dearer tier.
pub proof fn law_less_money_never_chooses_a_dearer_tier(
    o: Outlook,
    p: Outlook,
    less: Usd,
    more: Usd,
)
    requires
        well_formed(o),
        o.config.daily_budget_usd == Some(less),
        p == (Outlook {
            config: AutopilotConfig { daily_budget_usd: Some(more), ..o.config },
            spent: p.spent,
            ..o
        }),
        less.pico <= more.pico,
        p.spent.pico <= o.spent.pico,
    ensures
        chosen_tier(o) <= chosen_tier(p),
{
    law_choice_is_a_tier(o);
    lemma_affordable_is_monotone(o, p, healthy_tier(o));
}

/// A decision changes nothing that a decision at the same time depends on:
/// deciding again gives the same answer.
pub proof fn law_deciding_twice_is_deciding_once(
    before: Router,
    after: Router,
    complexity: Ratio,
    tokens_in: nat,
    spent: Usd,
    now: u128,
    asked: spec_fn(int) -> bool,
)
    requires
        after.asked_since(before, now, asked),
    ensures
        after.outlook(complexity, tokens_in, spent, now) == before.outlook(
            complexity,
            tokens_in,
            spent,
            now,
        ),
{
    assert forall|k: int| 0 <= k < 3 implies after.up(now)[k] == before.up(now)[k] by {
        assert(after.health(tier(k)) == if asked(k) {
            settled(before.health(tier(k)), now)
        } else {
            before.health(tier(k))
        });
    }
    assert(after.up(now) =~= before.up(now));
}

/// A decision records no outcome: success rates and counts stay as they are, and
/// a breaker that is not open stays as it is.
pub proof fn law_deciding_records_nothing(
    before: Router,
    after: Router,
    now: u128,
    asked: spec_fn(int) -> bool,
    route: Seq<char>,
)
    requires
        after.asked_since(before, now, asked),
    ensures
        after.health(route).rate == before.health(route).rate,
        after.health(route).samples == before.health(route).samples,
        !(before.health(route).state is Open) ==> after.health(route) == before.health(route),
{
    if !off_tiers(route) {
        let k: int = if route == tier(0) {
            0
        } else if route == tier(1) {
            1
        } else {
            2
        };
        assert(after.health(tier(k)) == if asked(k) {
            settled(before.health(tier(k)), now)
        } else {
            before.health(tier(k))
        });
    }
}

} // verus!
