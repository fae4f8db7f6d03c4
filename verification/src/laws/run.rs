//! Whole runs of the engine: who is asked, what is given back, billed and noted.

use crate::circuit::{recorded, BreakerState, Health};
use crate::clock::span;
use crate::engine::{AutopilotEngine, AutopilotError, RoutedCompletion, Run};
use crate::laws::decision::{held, lets_through};
use crate::laws::spending::day_total;
use crate::pricing::RoutePricing;
use crate::provider::{CompletionRequest, CompletionResponse, Reply};
use crate::router::{decides, tier, Router};
use crate::units::{Ratio, Usd};
use std::time::Instant;
use vstd::prelude::*;

verus! {

/// The route above another: paid-cheap above local, paid-premium above paid-cheap.
pub open spec fn is_above(above: Seq<char>, route: Seq<char>) -> bool {
    ||| route == "local"@ && above == "paid-cheap"@
    ||| route == "paid-cheap"@ && above == "paid-premium"@
}

proof fn lemma_decided_route_is_a_tier(
    before: AutopilotEngine,
    prompt: Seq<char>,
    run: Run,
    after: AutopilotEngine,
    r: Result<RoutedCompletion, AutopilotError>,
)
    requires
        before.ran(prompt, run, after, r),
        run.started is Some,
    ensures
        run.decision.route@ == "local"@ || run.decision.route@ == "paid-cheap"@
            || run.decision.route@ == "paid-premium"@,
{
    crate::router::lemma_tiers_differ();
    crate::router::law_choice_is_a_tier(before.run_outlook(prompt, run));
}

/// The answer of a run is the text of the reply that counted, whole and unchanged:
/// the first reply, or after an error the second, which is that of the route right
/// above. It names that route, whether it fell back, and why it was decided.
pub proof fn law_an_answer_is_given_back_whole(
    before: AutopilotEngine,
    prompt: Seq<char>,
    run: Run,
    after: AutopilotEngine,
    c: RoutedCompletion,
)
    requires
        before.ran(prompt, run, after, Ok(c)),
    ensures
        run.first matches Ok(response) ==> {
            &&& c.text@ == response.text@
            &&& c.route_used@ == run.decision.route@
            &&& !c.fallback_occurred
        },
        run.first is Err ==> {
            &&& run.second matches Ok(response)
            &&& c.text@ == response.text@
            &&& is_above(c.route_used@, run.decision.route@)
            &&& c.fallback_occurred
        },
        c.decision_reason@ == run.decision.reason@,
        c.latency_ms == run.latency_ms,
        before.providers().contains_key(c.route_used@),
{
    lemma_decided_route_is_a_tier(before, prompt, run, after, Ok(c));
    crate::router::lemma_tiers_differ();
}

/// When no route answers, the error of the last reply is given back, and the other
/// refusals come exactly when the clock tells no time or the route chosen has no
/// provider.
pub proof fn law_when_a_run_fails(
    before: AutopilotEngine,
    prompt: Seq<char>,
    run: Run,
    after: AutopilotEngine,
    r: Result<RoutedCompletion, AutopilotError>,
)
    requires
        before.ran(prompt, run, after, r),
    ensures
        ({
            let known = before.providers().contains_key(run.decision.route@);
            &&& (r matches Err(AutopilotError::ClockBeforeEpoch)) <==> run.started is None || (known
                && run.ended is None)
            &&& (r matches Err(AutopilotError::UnknownRoute(_))) <==> run.started is Some && !known
            &&& r matches Err(AutopilotError::UnknownRoute(name)) ==> name@ == run.decision.route@
            &&& r matches Err(AutopilotError::AllRoutesFailed { last_error }) ==> {
                ||| run.first == Reply::Err(last_error)
                ||| run.first is Err && run.second == Reply::Err(last_error)
            }
            &&& r is Ok ==> run.first is Ok || run.second is Ok
            &&& r is Err && r->Err_0 is AllRoutesFailed ==> run.first is Err
            &&& !(r is Err && r->Err_0 is Storage)
        }),
{
}

/// What is billed on a route for tokens of input and of output: their number times
/// its rates, nothing on a route without rates.
pub open spec fn bill(
    rates: Map<Seq<char>, RoutePricing>,
    route: Seq<char>,
    input: int,
    output: int,
) -> int {
    if rates.contains_key(route) {
        held(input * rates[route].cost_per_1k_input + output * rates[route].cost_per_1k_output)
    } else {
        0
    }
}

/// An answered run is noted as one event more, with the time of its end, the route
/// that answered, the tokens that it reported (for a count of zero, a fourth of the
/// characters of the prompt or of the answer, rounded up), their bill, and what the
/// caller is told.
pub proof fn law_what_is_noted_of_an_answer(
    before: AutopilotEngine,
    prompt: Seq<char>,
    run: Run,
    after: AutopilotEngine,
    c: RoutedCompletion,
    response: CompletionResponse,
)
    requires
        before.ran(prompt, run, after, Ok(c)),
        (if run.first is Ok {
            run.first
        } else {
            run.second
        }) == Reply::Ok(response),
    ensures
        after.journal().len() == before.journal().len() + 1,
        after.journal().drop_last() == before.journal(),
        ({
            let e = after.journal().last();
            let input = e.input_tokens as int;
            let output = e.output_tokens as int;
            &&& run.ended == Some(e.timestamp)
            &&& e.route@ == c.route_used@
            &&& e.complexity == run.decision.complexity
            &&& response.usage.prompt_tokens > 0 ==> input == response.usage.prompt_tokens
            &&& response.usage.prompt_tokens == 0 ==> prompt.len() <= 4 * input < prompt.len() + 4
            &&& response.usage.completion_tokens > 0 ==> output == response.usage.completion_tokens
            &&& response.usage.completion_tokens == 0 ==> c.text@.len() <= 4 * output
                < c.text@.len() + 4
            &&& e.cost_usd.pico == bill(before.router().rates(), c.route_used@, input, output)
            &&& c.cost_usd == e.cost_usd
            &&& e.latency_ms == c.latency_ms
            &&& e.success
            &&& e.fallback == c.fallback_occurred
            &&& e.decision_reason@ == run.decision.reason@
        }),
{
    crate::engine::law_each_request_is_noted_once(before, prompt, run, after, Ok(c));
    law_an_answer_is_given_back_whole(before, prompt, run, after, c);
}

/// A run that no route answered is noted as one event more: no cost, no output, the
/// tokens of the prompt, and the last route that was tried.
pub proof fn law_what_is_noted_of_a_failure(
    before: AutopilotEngine,
    prompt: Seq<char>,
    run: Run,
    after: AutopilotEngine,
    error: AutopilotError,
)
    requires
        before.ran(prompt, run, after, Err(error)),
        error is AllRoutesFailed,
    ensures
        after.journal().len() == before.journal().len() + 1,
        after.journal().drop_last() == before.journal(),
        ({
            let e = after.journal().last();
            &&& run.ended == Some(e.timestamp)
            &&& e.fallback ==> is_above(e.route@, run.decision.route@)
            &&& !e.fallback ==> e.route@ == run.decision.route@
            &&& e.complexity == run.decision.complexity
            &&& prompt.len() <= 4 * e.input_tokens < prompt.len() + 4
            &&& e.output_tokens == 0
            &&& e.cost_usd.pico == 0
            &&& e.latency_ms == run.latency_ms
            &&& !e.success
            &&& e.decision_reason@ == run.decision.reason@
        }),
{
    crate::engine::law_each_request_is_noted_once(before, prompt, run, after, Err(error));
    lemma_decided_route_is_a_tier(before, prompt, run, after, Err(error));
    crate::router::lemma_tiers_differ();
}

/// A route is asked for the model registered for it and for the prompt as it is,
/// without a limit on the answer.
pub proof fn law_a_request_carries_the_prompt_unchanged(
    engine: AutopilotEngine,
    req: CompletionRequest,
    route: Seq<char>,
    prompt: Seq<char>,
)
    requires
        engine.requests(req, route, prompt),
    ensures
        req.prompt@ == prompt,
        req.model@ == engine.model(route),
        req.max_tokens is None,
{
}

/// A second route is asked if and only if the first reply is an error and the route
/// right above has a provider, and then it is that one.
pub proof fn law_when_a_run_falls_back(
    before: AutopilotEngine,
    prompt: Seq<char>,
    run: Run,
    after: AutopilotEngine,
    r: Result<RoutedCompletion, AutopilotError>,
)
    requires
        before.ran(prompt, run, after, r),
        run.started is Some,
        before.providers().contains_key(run.decision.route@),
    ensures
        ({
            let chosen = run.decision.route@;
            let n = before.calls().len() as int;
            let again = run.first is Err && ((chosen == "local"@ && before.providers().contains_key(
                "paid-cheap"@,
            )) || (chosen == "paid-cheap"@ && before.providers().contains_key("paid-premium"@)));
            &&& after.calls().len() == n + (if again {
                2int
            } else {
                1
            })
            &&& forall|i: int| 0 <= i < n ==> #[trigger] after.calls()[i] == before.calls()[i]
            &&& after.calls()[n].route == chosen
            &&& after.calls()[n].model == before.model(chosen)
            &&& after.calls()[n].prompt == prompt
            &&& again ==> {
                &&& is_above(after.calls()[n + 1].route, chosen)
                &&& after.calls()[n + 1].model == before.model(after.calls()[n + 1].route)
                &&& after.calls()[n + 1].prompt == prompt
            }
        }),
{
    lemma_decided_route_is_a_tier(before, prompt, run, after, r);
    crate::router::lemma_tiers_differ();
}

/// A route as it is when a call is made on it: if its breaker is not closed and lets
/// the call through, its trial is out.
pub open spec fn called_at(h: Health, now: u128) -> Health {
    if h.state is Closed || !lets_through(h, now) {
        h
    } else {
        Health { state: BreakerState::HalfOpen { trial_out: true }, ..h }
    }
}

/// Each route that was called has the outcome recorded once, when the reply came: a
/// success is an answer that is not empty, whatever its length. Every other route
/// keeps its success rate, its count and its settings, and its breaker unless it was
/// open and due for a trial.
pub proof fn law_what_a_run_records(
    before: AutopilotEngine,
    prompt: Seq<char>,
    run: Run,
    after: AutopilotEngine,
    r: Result<RoutedCompletion, AutopilotError>,
    route: Seq<char>,
)
    requires
        before.ran(prompt, run, after, r),
        run.started is Some,
        before.providers().contains_key(run.decision.route@),
    ensures
        ({
            let chosen = run.decision.route@;
            let h = before.router().health(route);
            let g = after.router().health(route);
            let first_ok = run.first is Ok && run.first->Ok_0.text@.len() > 0;
            let second_ok = run.second is Ok && run.second->Ok_0.text@.len() > 0;
            let again = run.first is Err && is_above(route, chosen)
                && before.providers().contains_key(route);
            &&& route == chosen ==> g == recorded(
                called_at(h, run.decided_at),
                first_ok,
                run.first_at,
            )
            &&& again ==> g == recorded(called_at(h, run.first_at), second_ok, run.second_at)
            &&& route != chosen && !again ==> {
                &&& g.rate == h.rate
                &&& g.samples == h.samples
                &&& g.cooldown == h.cooldown
                &&& g.failure_threshold == h.failure_threshold
                &&& g.state != h.state ==> h.state is Open && lets_through(h, run.decided_at)
                    && g.state == (BreakerState::HalfOpen { trial_out: false })
            }
        }),
{
    lemma_decided_route_is_a_tier(before, prompt, run, after, r);
    crate::router::lemma_tiers_differ();
    assert(after.router().health(route) == before.health_after_run(prompt, run, route));
}

/// The readings of the route clock in a run follow each other: one for the decision,
/// one before the first call, one for each reply and one at the end, none before an
/// earlier one of the same router, and the last is the one that the router keeps.
pub proof fn law_readings_never_go_back(
    before: AutopilotEngine,
    prompt: Seq<char>,
    run: Run,
    after: AutopilotEngine,
    r: Result<RoutedCompletion, AutopilotError>,
)
    requires
        before.ran(prompt, run, after, r),
    ensures
        before.router().last_reading() <= after.router().last_reading(),
        run.started is Some ==> before.router().last_reading() <= run.decided_at
            <= after.router().last_reading(),
        run.started is Some && before.providers().contains_key(run.decision.route@)
            ==> run.decided_at <= run.begun_at <= run.first_at <= after.router().last_reading(),
        before.router().readings() < 0xffff_ffff_ffff_fff0 && run.started is Some
            ==> after.router().readings() == before.router().readings() + {
            let calls = after.calls().len() - before.calls().len();
            if calls > 0 {
                3 + calls
            } else {
                1
            }
        },
        after.router().origin() == before.router().origin(),
{
}

/// The latency of a run is the time from before the first call, as the route clock
/// showed it after the decision and not after the first reply, to the end, not before
/// the last reply: it spans every call.
pub proof fn law_a_latency_spans_every_call(
    before: AutopilotEngine,
    prompt: Seq<char>,
    run: Run,
    after: AutopilotEngine,
    c: RoutedCompletion,
)
    requires
        before.ran(prompt, run, after, Ok(c)),
    ensures
        exists|start: Instant, end: Instant|
            {
                &&& c.latency_ms == (#[trigger] span(end, start) / 1_000_000) as u64
                &&& run.decided_at <= span(start, before.router().origin()) <= run.first_at
                &&& span(end, before.router().origin()) >= run.first_at
                &&& run.first is Err ==> span(end, before.router().origin()) >= run.second_at
            },
{
    let (start, end) = choose|a: Instant, b: Instant|
        {
            &&& c.latency_ms == (#[trigger] span(b, a) / 1_000_000) as u64
            &&& span(a, before.router().origin()) == run.begun_at
            &&& span(b, before.router().origin()) == run.ended_at
        };
    assert(c.latency_ms == (span(end, start) / 1_000_000) as u64);
}

/// A run reads the wall clock once for its decision and, if it called a provider,
/// once more when it ends. What it notes is stamped with that last reading.
pub proof fn law_an_event_is_stamped_at_the_end(
    before: AutopilotEngine,
    prompt: Seq<char>,
    run: Run,
    after: AutopilotEngine,
    r: Result<RoutedCompletion, AutopilotError>,
)
    requires
        before.ran(prompt, run, after, r),
        before.wall().readings() < 0xffff_ffff_ffff_fff0,
    ensures
        after.wall().readings() == before.wall().readings() + (if after.calls().len()
            > before.calls().len() {
            2int
        } else {
            1
        }),
        after.journal().len() > before.journal().len() ==> {
            &&& after.wall().last_reading() == Some(after.journal().last().timestamp)
            &&& after.calls().len() > before.calls().len()
        },
{
}

/// Where two routers have the same setup, settings, rates and origin are the same;
/// where one differs from the other on a route, every other route is as it was; after
/// looking, a route is as it was but for an open breaker that is due for its trial.
pub proof fn law_what_stays_the_same(
    before: Router,
    after: Router,
    route: Seq<char>,
    other: Seq<char>,
    now: u128,
    asked: spec_fn(int) -> bool,
)
    ensures
        after.differs_on(before, route) || after.asked_since(before, now, asked)
            || after.same_setup(before) ==> {
            &&& after.config() == before.config()
            &&& after.rates() == before.rates()
            &&& after.origin() == before.origin()
        },
        after.differs_on(before, route) && other != route ==> after.health(other)
            == before.health(other),
        after.asked_since(before, now, asked) ==> {
            let h = before.health(other);
            let g = after.health(other);
            ||| g == h
            ||| h.state is Open && lets_through(h, now) && g == (Health {
                state: BreakerState::HalfOpen { trial_out: false },
                ..h
            })
        },
{
    if after.asked_since(before, now, asked) && !crate::router::off_tiers(other) {
        let k: int = if other == tier(0) {
            0
        } else if other == tier(1) {
            1
        } else {
            2
        };
        assert(after.health(tier(k)) == if asked(k) {
            crate::circuit::settled(before.health(tier(k)), now)
        } else {
            before.health(tier(k))
        });
    }
}

/// Engines with the same providers have them for the same routes, and ask each route
/// for the same model.
pub proof fn law_providers_are_kept(
    before: AutopilotEngine,
    after: AutopilotEngine,
    route: Seq<char>,
)
    requires
        after.same_providers(before),
    ensures
        after.providers() == before.providers(),
        after.model(route) == before.model(route),
{
}

/// A run decides on its prompt, at the time and with the spending of its start.
pub proof fn law_a_run_decides_on_its_prompt(
    before: AutopilotEngine,
    prompt: Seq<char>,
    run: Run,
    after: AutopilotEngine,
    r: Result<RoutedCompletion, AutopilotError>,
    unix: u64,
    score: Ratio,
    tokens: nat,
    spent: Usd,
)
    requires
        before.ran(prompt, run, after, r),
        run.started == Some(unix),
        score.units == crate::complexity::score_of(
            crate::complexity::findings(prompt, crate::complexity::lowercase(prompt)),
        ),
        prompt.len() <= 4 * tokens < prompt.len() + 4,
        forall|i: int|
            0 <= i < before.journal().len() ==> (#[trigger] before.journal()[i]).cost_usd.pico
                >= 0,
        spent.pico == day_total(before.journal(), unix),
    ensures
        decides(before.router().outlook(score, tokens, spent, run.decided_at), run.decision),
{
    crate::laws::spending::law_a_decision_counts_every_event_of_the_day(
        before,
        prompt,
        unix,
        run.decided_at,
    );
    crate::laws::decision::law_a_decision_uses_the_score_of_the_prompt(
        before.router(),
        prompt,
        score,
        tokens,
        spent,
        run.decided_at,
    );
}

} // verus!
