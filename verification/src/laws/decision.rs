//! Decisions, as a table over the health of the three routes and what they cost.

use crate::circuit::{BreakerState, Health};
use crate::pricing::RoutePricing;
use crate::router::{chosen_tier, decides, tier, Router, RoutingDecision};
use crate::text::{ratio_text, usd_text};
use crate::units::{Ratio, Usd};
use vstd::prelude::*;

verus! {

/// The amount nearest to `x` that can be held.
pub open spec fn held(x: int) -> int {
    if x > 0x7fff_ffff_ffff_ffff_ffff_ffff_ffff_ffff {
        0x7fff_ffff_ffff_ffff_ffff_ffff_ffff_ffff
    } else if x < -0x8000_0000_0000_0000_0000_0000_0000_0000 {
        -0x8000_0000_0000_0000_0000_0000_0000_0000
    } else {
        x
    }
}

/// What a call with this many tokens of input and 500 of output costs on a route:
/// the tokens times the rates, nothing on a route without rates.
pub open spec fn call_cost(
    rates: Map<Seq<char>, RoutePricing>,
    route: Seq<char>,
    tokens: nat,
) -> int {
    if rates.contains_key(route) {
        held(tokens * rates[route].cost_per_1k_input + 500 * rates[route].cost_per_1k_output)
    } else {
        0
    }
}

/// The projected costs on which a decision rests are the tokens of the prompt times
/// the input rate and 500 times the output rate, on every tier and for every number
/// of tokens; the estimate of the decision is that of the route chosen.
pub proof fn law_projections_are_tokens_times_rates(
    router: Router,
    complexity: Ratio,
    tokens: nat,
    spent: Usd,
    now: u128,
    d: RoutingDecision,
)
    requires
        decides(router.outlook(complexity, tokens, spent, now), d),
    ensures
        ({
            let o = router.outlook(complexity, tokens, spent, now);
            &&& o.projected[0] == call_cost(router.rates(), "local"@, tokens)
            &&& o.projected[1] == call_cost(router.rates(), "paid-cheap"@, tokens)
            &&& o.projected[2] == call_cost(router.rates(), "paid-premium"@, tokens)
            &&& d.estimated_cost_usd.pico == call_cost(router.rates(), d.route@, tokens)
        }),
{
    let o = router.outlook(complexity, tokens, spent, now);
    crate::router::lemma_tiers_differ();
    crate::router::law_choice_is_a_tier(o);
    assert(chosen_tier(o) == 0 || chosen_tier(o) == 1 || chosen_tier(o) == 2);
}

/// The same of a decision on a prompt: its tokens are a fourth of its characters,
/// rounded up.
pub proof fn law_a_prompt_is_projected_at_its_tokens(
    router: Router,
    prompt: Seq<char>,
    tokens: nat,
    spent: Usd,
    now: u128,
    d: RoutingDecision,
)
    requires
        decides(router.prompt_outlook(prompt, spent, now), d),
        4 * tokens >= prompt.len(),
        4 * tokens < prompt.len() + 4,
    ensures
        d.estimated_cost_usd.pico == call_cost(router.rates(), d.route@, tokens),
        ({
            let o = router.prompt_outlook(prompt, spent, now);
            &&& o.projected[0] == call_cost(router.rates(), "local"@, tokens)
            &&& o.projected[1] == call_cost(router.rates(), "paid-cheap"@, tokens)
            &&& o.projected[2] == call_cost(router.rates(), "paid-premium"@, tokens)
        }),
{
    let o = router.prompt_outlook(prompt, spent, now);
    law_projections_are_tokens_times_rates(router, o.complexity, tokens, spent, now, d);
}

/// The breaker of a route lets a call through at `now`.
pub open spec fn lets_through(h: Health, now: u128) -> bool {
    match h.state {
        BreakerState::Closed => true,
        BreakerState::Open { opened_at } => now >= opened_at + h.cooldown || h.cooldown == 0,
        BreakerState::HalfOpen { trial_out } => !trial_out,
    }
}

/// The local route can be used at `now`: its breaker lets a call through, and it is
/// due for a trial or its success rate is high enough.
pub open spec fn local_is_usable(router: Router, now: u128) -> bool {
    let h = router.health("local"@);
    &&& lets_through(h, now)
    &&& !(h.state is Closed) || h.rate.units >= router.config().min_local_success_rate.units
}

/// A call on a route stays within the budget, if there is one.
pub open spec fn within_budget(router: Router, route: Seq<char>, tokens: nat, spent: Usd) -> bool {
    match router.config().daily_budget_usd {
        Some(budget) => held(spent.pico + call_cost(router.rates(), route, tokens)) <= budget.pico,
        None => true,
    }
}

/// The tier that the complexity asks for: 0 is local, 1 paid-cheap, 2 paid-premium.
pub open spec fn wanted(router: Router, complexity: Ratio) -> int {
    if complexity.units < router.config().local_complexity_threshold.units {
        0
    } else if complexity.units < router.config().premium_complexity_threshold.units {
        1
    } else {
        2
    }
}

/// The tier that is used for want of that one: the next usable one above, else
/// below, else local.
pub open spec fn stand_in(wanted: int, local: bool, cheap: bool, premium: bool) -> int {
    if wanted == 0 {
        if local {
            0
        } else if cheap {
            1
        } else if premium {
            2
        } else {
            0
        }
    } else if wanted == 1 {
        if cheap {
            1
        } else if premium {
            2
        } else {
            0
        }
    } else {
        if premium {
            2
        } else if cheap {
            1
        } else {
            0
        }
    }
}

/// The name of a tier.
pub open spec fn name(k: int) -> Seq<char> {
    if k == 0 {
        "local"@
    } else if k == 1 {
        "paid-cheap"@
    } else {
        "paid-premium"@
    }
}

/// A decision names the tier that its complexity asks for or the one that stands in
/// for it; with a budget it goes down from there to the first paid tier that is
/// usable and within the budget, else to local. It is forced by the budget exactly
/// if it went down.
pub proof fn law_a_decision_follows_the_table(
    router: Router,
    complexity: Ratio,
    tokens: nat,
    spent: Usd,
    now: u128,
    d: RoutingDecision,
)
    requires
        decides(router.outlook(complexity, tokens, spent, now), d),
    ensures
        ({
            let cheap = lets_through(router.health("paid-cheap"@), now);
            let premium = lets_through(router.health("paid-premium"@), now);
            let from = stand_in(
                wanted(router, complexity),
                local_is_usable(router, now),
                cheap,
                premium,
            );
            let to = if from == 2 && within_budget(router, "paid-premium"@, tokens, spent) {
                2int
            } else if from >= 1 && cheap && within_budget(router, "paid-cheap"@, tokens, spent) {
                1
            } else {
                0
            };
            &&& d.route@ == name(if router.config().daily_budget_usd is Some {
                to
            } else {
                from
            })
            &&& d.forced_by_budget == (router.config().daily_budget_usd is Some && to < from)
            &&& d.complexity == complexity
        }),
{
    let o = router.outlook(complexity, tokens, spent, now);
    law_projections_are_tokens_times_rates(router, complexity, tokens, spent, now, d);
    crate::router::lemma_tiers_differ();
    crate::router::law_choice_is_a_tier(o);
    crate::router::law_forced_decision_is_a_downgrade(o);
    reveal_with_fuel(crate::router::first_up, 4);
    reveal_with_fuel(crate::router::first_down, 4);
    reveal_with_fuel(crate::router::affordable, 4);
    assert(o.up[0] == local_is_usable(router, now));
    assert(o.up[1] == lets_through(router.health("paid-cheap"@), now));
    assert(o.up[2] == lets_through(router.health("paid-premium"@), now));
}

/// A decision explains itself: first the complexity and the tier that it asks for;
/// then which tier stands in for it, if another does; then for each tier that is
/// passed over on the way down, that it exceeds the budget, that it is down, or both.
pub proof fn law_a_decision_explains_itself(
    router: Router,
    complexity: Ratio,
    tokens: nat,
    spent: Usd,
    now: u128,
    d: RoutingDecision,
)
    requires
        decides(router.outlook(complexity, tokens, spent, now), d),
    ensures
        ({
            let cheap = lets_through(router.health("paid-cheap"@), now);
            let premium = lets_through(router.health("paid-premium"@), now);
            let first = wanted(router, complexity);
            let from = stand_in(first, local_is_usable(router, now), cheap, premium);
            let dear = !within_budget(router, "paid-premium"@, tokens, spent);
            let dear_too = !within_budget(router, "paid-cheap"@, tokens, spent);
            let budget = router.config().daily_budget_usd->0;
            let start = "complexité "@ + ratio_text(complexity) + " → palier de base « "@ + name(
                first,
            ) + " »"@;
            let moved = if from != first {
                start + " ; "@ + ("« "@ + name(first) + " » indisponible/dégradé → repli sur « "@
                    + name(from) + " »"@)
            } else {
                start
            };
            let over = |above: Seq<char>, below: Seq<char>|
                "budget quotidien ("@ + usd_text(budget) + "$) dépassé par « "@ + above
                    + " » (déjà "@ + usd_text(spent) + "$ dépensés) → repli sur « "@ + below
                    + " »"@;
            let down = "« paid-cheap » indisponible/dégradé (repli budgétaire) → repli sur « local »"@;
            let second = if from == 2 && dear {
                moved + " ; "@ + over("paid-premium"@, "paid-cheap"@)
            } else {
                moved
            };
            let reached = from == 1 || (from == 2 && dear);
            let third = if reached && dear_too {
                second + " ; "@ + over("paid-cheap"@, "local"@)
            } else {
                second
            };
            let fourth = if reached && !cheap {
                third + " ; "@ + down
            } else {
                third
            };
            d.reason@ == if router.config().daily_budget_usd is Some {
                fourth
            } else {
                moved
            }
        }),
{
    let o = router.outlook(complexity, tokens, spent, now);
    law_projections_are_tokens_times_rates(router, complexity, tokens, spent, now, d);
    crate::router::lemma_tiers_differ();
    crate::router::law_choice_is_a_tier(o);
    reveal_with_fuel(crate::router::first_up, 4);
    reveal_with_fuel(crate::router::first_down, 4);
    reveal_with_fuel(crate::router::descent, 4);
    assert(o.up[0] == local_is_usable(router, now));
    assert(o.up[1] == lets_through(router.health("paid-cheap"@), now));
    assert(o.up[2] == lets_through(router.health("paid-premium"@), now));
    reveal_strlit("« ");
    reveal_strlit("paid-cheap");
    reveal_strlit("local");
    reveal_strlit(" »");
    reveal_strlit(" » indisponible/dégradé (repli budgétaire) → repli sur « ");
    reveal_strlit("« paid-cheap » indisponible/dégradé (repli budgétaire) → repli sur « local »");
    assert(crate::router::health_note(1)
        =~= "« paid-cheap » indisponible/dégradé (repli budgétaire) → repli sur « local »"@);
}

/// A decision on a prompt rests on its complexity as the analysis gives it, and on
/// nothing else of the text but its length.
pub proof fn law_a_decision_uses_the_score_of_the_prompt(
    router: Router,
    prompt: Seq<char>,
    score: Ratio,
    tokens: nat,
    spent: Usd,
    now: u128,
)
    requires
        score.units == crate::complexity::score_of(
            crate::complexity::findings(prompt, crate::complexity::lowercase(prompt)),
        ),
        4 * tokens >= prompt.len(),
        4 * tokens < prompt.len() + 4,
    ensures
        router.prompt_outlook(prompt, spent, now) == router.outlook(score, tokens, spent, now),
        router.prompt_outlook(prompt, spent, now).complexity == score,
        router.prompt_outlook(prompt, spent, now).spent == spent,
        router.prompt_outlook(prompt, spent, now).config == router.config(),
{
}

} // verus!
