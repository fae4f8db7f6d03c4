//! The budget of a day, over the events of the journal.

use crate::engine::{AutopilotEngine, RoutedCompletion, Run};
use crate::laws::decision::{call_cost, held};
use crate::router::{decides, tier, RoutingDecision};
use crate::store::{day_start, exact_sum_on, in_day_of, RoutingEvent};
use crate::units::Usd;
use vstd::prelude::*;

verus! {

/// The sum of the costs of all events of the day of `unix`, in pico-dollars.
pub open spec fn day_total(journal: Seq<RoutingEvent>, unix: u64) -> int {
    journal.fold_left(
        0int,
        |sum: int, e: RoutingEvent|
            if e.timestamp / 86_400 == unix / 86_400 {
                sum + e.cost_usd.pico
            } else {
                sum
            },
    )
}

proof fn lemma_same_day(t: u64, unix: u64)
    ensures
        in_day_of(t, unix) <==> t / 86_400 == unix / 86_400,
{
    assert(day_start(unix) == 86_400 * (unix / 86_400));
}

proof fn lemma_day_total(journal: Seq<RoutingEvent>, unix: u64)
    ensures
        exact_sum_on(journal, unix) == day_total(journal, unix),
    decreases journal.len(),
{
    reveal(Seq::fold_left);
    if journal.len() > 0 {
        lemma_same_day(journal.last().timestamp, unix);
        lemma_day_total(journal.drop_last(), unix);
    }
}

/// What a decision of the engine counts as spent is the sum of the costs of all
/// events of the day in the journal, where no cost is negative and the sum can be
/// held.
pub proof fn law_a_decision_counts_every_event_of_the_day(
    engine: AutopilotEngine,
    prompt: Seq<char>,
    unix: u64,
    now: u128,
)
    requires
        forall|i: int|
            0 <= i < engine.journal().len() ==> (#[trigger] engine.journal()[i]).cost_usd.pico
                >= 0,
        day_total(engine.journal(), unix) <= i128::MAX,
    ensures
        engine.outlook(prompt, unix, now).spent.pico == day_total(engine.journal(), unix),
{
    lemma_day_total(engine.journal(), unix);
    crate::store::law_spending_is_the_exact_sum(engine.journal(), unix);
}

/// What a decision counts as spent, event by event: nothing for an empty journal,
/// and with one more event its cost more if it is of that day. Sums that cannot be
/// held stay at their bound.
pub proof fn law_each_event_of_the_day_counts(
    before: AutopilotEngine,
    after: AutopilotEngine,
    event: RoutingEvent,
    prompt: Seq<char>,
    other: Seq<char>,
    unix: u64,
    now: u128,
    later: u128,
)
    requires
        after.journal() == before.journal().push(event),
    ensures
        before.journal().len() == 0 ==> before.outlook(prompt, unix, now).spent.pico == 0,
        after.outlook(other, unix, later).spent.pico == if event.timestamp / 86_400 == unix
            / 86_400 {
            held(before.outlook(prompt, unix, now).spent.pico + event.cost_usd.pico)
        } else {
            before.outlook(prompt, unix, now).spent.pico as int
        },
{
    lemma_same_day(event.timestamp, unix);
    crate::store::law_only_today_counts(before.journal(), event, unix);
    crate::engine::lemma_spending_can_be_held(before.journal(), unix);
    crate::engine::lemma_spending_can_be_held(after.journal(), unix);
}

/// After a run that was answered at some cost, the next decision of that day counts
/// that much more as spent, whatever was spent before.
pub proof fn law_an_answer_is_paid_out_of_the_day(
    before: AutopilotEngine,
    prompt: Seq<char>,
    run: Run,
    after: AutopilotEngine,
    c: RoutedCompletion,
    unix: u64,
    now: u128,
    next: Seq<char>,
    later: u128,
)
    requires
        before.ran(prompt, run, after, Ok(c)),
        run.ended is Some,
        run.ended->0 / 86_400 == unix / 86_400,
    ensures
        after.outlook(next, unix, later).spent.pico == held(
            before.outlook(prompt, unix, now).spent.pico + c.cost_usd.pico,
        ),
{
    crate::engine::law_each_request_is_noted_once(before, prompt, run, after, Ok(c));
    law_each_event_of_the_day_counts(
        before,
        after,
        after.journal().last(),
        prompt,
        next,
        unix,
        now,
        later,
    );
}

/// With a budget, a decision names the local route or a paid one for which the
/// costs of all events of the day and the projected cost of the call, the tokens of
/// the prompt and 500 of output at the rates of the route, stay within the budget.
pub proof fn law_the_day_stays_within_the_budget(
    engine: AutopilotEngine,
    prompt: Seq<char>,
    tokens: nat,
    unix: u64,
    now: u128,
    d: RoutingDecision,
    budget: Usd,
)
    requires
        decides(engine.outlook(prompt, unix, now), d),
        engine.router().config().daily_budget_usd == Some(budget),
        4 * tokens >= prompt.len(),
        4 * tokens < prompt.len() + 4,
        forall|i: int|
            0 <= i < engine.journal().len() ==> (#[trigger] engine.journal()[i]).cost_usd.pico
                >= 0,
        day_total(engine.journal(), unix) <= i128::MAX,
    ensures
        d.route@ == "local"@ || held(
            day_total(engine.journal(), unix) + call_cost(
                engine.router().rates(),
                d.route@,
                tokens,
            ),
        ) <= budget.pico,
{
    let o = engine.outlook(prompt, unix, now);
    law_a_decision_counts_every_event_of_the_day(engine, prompt, unix, now);
    crate::laws::decision::law_a_prompt_is_projected_at_its_tokens(
        engine.router(),
        prompt,
        tokens,
        o.spent,
        now,
        d,
    );
    crate::router::lemma_tiers_differ();
    crate::router::law_choice_is_a_tier(o);
    if crate::router::chosen_tier(o) > 0 {
        crate::router::law_paid_choice_fits_the_budget(o, budget);
    } else {
        assert(d.route@ == tier(0));
    }
}

} // verus!
