//! The engine: decides, calls the chosen provider with one fallback if it fails,
//! keeps the journal, and feeds the statistics of the routes.

use crate::circuit::{admitted, recorded, Health};
use crate::clock::{clock_shows, nanos_between, one_reading_more, span, wall_shows, WallClock};
use crate::pricing::{cost_on, PricingTable};
use crate::provider::{
    provider_error_text, CompletionRequest, CompletionResponse, Provider, ProviderError, Reply,
};
use crate::router::{
    chosen_tier, consulted, decides, tier, AutopilotConfig, Outlook, Router, RoutingDecision,
    ROUTE_TIERS,
};
use crate::routes::RouteMap;
use crate::store::{spent_on, EventStore, RoutingEvent};
use crate::text::same_text;
use crate::tokens::{estimate_tokens, tokens_for};
use crate::units::{Ratio, Usd, RATIO_ONE};
use std::time::Instant;
use vstd::prelude::*;
use vstd::string::*;

verus! {

/// Why a request was not answered.
#[derive(Debug)]
pub enum AutopilotError {
    /// The route chosen has no provider.
    UnknownRoute(String),
    /// The route chosen failed, and so did the one above it if it was tried.
    AllRoutesFailed { last_error: ProviderError },
    /// The journal could not be read or written.
    Storage(String),
    /// The wall clock stands before 1970, so that no day can be told.
    ClockBeforeEpoch,
}

/// The message of an error.
pub open spec fn error_text(e: AutopilotError) -> Seq<char> {
    match e {
        AutopilotError::UnknownRoute(route) => "route inconnue: "@ + route@,
        AutopilotError::AllRoutesFailed { last_error } =>
            "toutes les routes de repli ont échoué, dernière erreur: "@ + provider_error_text(
            last_error,
        ),
        AutopilotError::Storage(what) => "erreur de stockage: "@ + what@,
        AutopilotError::ClockBeforeEpoch => "l'horloge système est avant 1970"@,
    }
}

impl AutopilotError {
    /// The message of the error.
    pub fn describe(&self) -> (r: String)
        ensures
            r@ == error_text(*self),
    {
        match self {
            AutopilotError::UnknownRoute(route) => "route inconnue: ".to_owned().concat(
                route.as_str(),
            ),
            AutopilotError::AllRoutesFailed { last_error } =>
                "toutes les routes de repli ont échoué, dernière erreur: ".to_owned().concat(
                last_error.describe().as_str(),
            ),
            AutopilotError::Storage(what) => "erreur de stockage: ".to_owned().concat(
                what.as_str(),
            ),
            AutopilotError::ClockBeforeEpoch => "l'horloge système est avant 1970".to_owned(),
        }
    }
}

/// An answered request: the answer, and how it was obtained.
#[derive(Clone, Debug)]
pub struct RoutedCompletion {
    pub text: String,
    pub route_used: String,
    pub cost_usd: Usd,
    pub latency_ms: u64,
    pub fallback_occurred: bool,
    pub decision_reason: String,
}

/// `r` is something that provider `p` may answer to `req`.
pub open spec fn answers<P: Provider + ?Sized>(p: &P, req: CompletionRequest, r: Reply) -> bool {
    call_ensures(P::complete, (p, &req), r)
}

fn ask<P: Provider + ?Sized>(p: &P, req: &CompletionRequest) -> (r: Result<
    CompletionResponse,
    ProviderError,
>)
    ensures
        answers(p, *req, r),
{
    p.complete(req)
}

/// A reply counts as a success of its route: an answer that is not empty.
pub open spec fn worked(r: Reply) -> bool {
    r matches Ok(response) && response.text@.len() > 0
}

fn has_worked(reply: &Result<CompletionResponse, ProviderError>) -> (b: bool)
    ensures
        b == worked(*reply),
{
    match reply {
        Ok(response) => response.text.as_str().unicode_len() > 0,
        Err(_) => false,
    }
}

/// A call of a provider: of which route, and what it was asked for.
pub struct Call {
    pub route: Seq<char>,
    pub model: Seq<char>,
    pub prompt: Seq<char>,
}

/// The tier right above a route; the one above the local tier for a route that is
/// no tier, none for the highest.
pub open spec fn tier_above(route: Seq<char>) -> Option<Seq<char>> {
    if route == tier(1) {
        Some(tier(2))
    } else if route == tier(2) {
        None
    } else {
        Some(tier(1))
    }
}

/// A count that a provider reported, or the estimate for the text if it is zero.
pub open spec fn counted_or_estimated(reported: usize, text: Seq<char>) -> int {
    if reported > 0 {
        reported as int
    } else {
        tokens_for(text.len()) as int
    }
}

fn tokens_or_estimate(reported: usize, text: &str) -> (n: usize)
    ensures
        n == counted_or_estimated(reported, text@),
{
    if reported > 0 {
        reported
    } else {
        estimate_tokens(text)
    }
}

/// How a request went: the decision, the route that was used in the end, what
/// came back, and when.
pub struct Attempt {
    pub decision: RoutingDecision,
    pub route_used: String,
    pub fallback_occurred: bool,
    pub outcome: Result<CompletionResponse, ProviderError>,
    pub latency_ms: u64,
    /// Wall clock at the end, in seconds since 1970-01-01 UTC; `None` before that.
    pub ended: Option<u64>,
}

/// An event notes an attempt at a prompt: with the tokens used and their cost if
/// it was answered, with the estimate and no cost if it was not.
pub open spec fn notes(
    e: RoutingEvent,
    rates: Map<Seq<char>, crate::pricing::RoutePricing>,
    prompt: Seq<char>,
    a: Attempt,
) -> bool {
    &&& Some(e.timestamp) == a.ended
    &&& e.route@ == a.route_used@
    &&& e.complexity == a.decision.complexity
    &&& e.latency_ms == a.latency_ms
    &&& e.success == (a.outcome is Ok)
    &&& e.fallback == a.fallback_occurred
    &&& e.decision_reason@ == a.decision.reason@
    &&& match a.outcome {
        Ok(response) => {
            &&& e.input_tokens == counted_or_estimated(response.usage.prompt_tokens, prompt)
            &&& e.output_tokens == counted_or_estimated(
                response.usage.completion_tokens,
                response.text@,
            )
            &&& e.cost_usd.pico == cost_on(
                rates,
                a.route_used@,
                e.input_tokens as int,
                e.output_tokens as int,
            )
        },
        Err(_) => {
            &&& e.input_tokens == tokens_for(prompt.len())
            &&& e.output_tokens == 0
            &&& e.cost_usd.pico == 0
        },
    }
}

/// The result of an attempt: its answer with the cost that event `e` notes, or
/// its error.
pub open spec fn results(
    a: Attempt,
    e: RoutingEvent,
    r: Result<RoutedCompletion, AutopilotError>,
) -> bool {
    match a.outcome {
        Ok(response) => {
            &&& r matches Ok(c)
            &&& c.text@ == response.text@
            &&& c.route_used@ == a.route_used@
            &&& c.cost_usd == e.cost_usd
            &&& c.latency_ms == a.latency_ms
            &&& c.fallback_occurred == a.fallback_occurred
            &&& c.decision_reason@ == a.decision.reason@
        },
        Err(error) => r == Result::<RoutedCompletion, AutopilotError>::Err(
            AutopilotError::AllRoutesFailed { last_error: error },
        ),
    }
}

/// A latency in milliseconds is the time between two instants.
pub open spec fn is_latency(ms: u64) -> bool {
    exists|start: Instant, end: Instant| ms == (#[trigger] span(end, start) / 1_000_000) as u64
}

/// A latency in milliseconds is the time between two instants at which a clock that
/// counts from `origin` showed `start` and `end`.
pub open spec fn is_latency_between(ms: u64, origin: Instant, start: u128, end: u128) -> bool {
    exists|a: Instant, b: Instant|
        {
            &&& ms == (#[trigger] span(b, a) / 1_000_000) as u64
            &&& span(a, origin) == start
            &&& span(b, origin) == end
        }
}

/// One run of the engine: what it read from its clocks and what the providers
/// replied.
pub struct Run {
    /// Wall clock at the start, in seconds; `None` before 1970.
    pub started: Option<u64>,
    /// Clock of the routes at the decision.
    pub decided_at: u128,
    pub decision: RoutingDecision,
    /// Clock of the routes before the first call.
    pub begun_at: u128,
    /// Reply of the route chosen.
    pub first: Reply,
    /// Clock of the routes after the first reply.
    pub first_at: u128,
    /// Reply of the route above, if it was asked.
    pub second: Reply,
    /// Clock of the routes after the second reply.
    pub second_at: u128,
    /// Clock of the routes after the last reply was recorded.
    pub ended_at: u128,
    pub latency_ms: u64,
    /// Wall clock at the end, in seconds; `None` before 1970.
    pub ended: Option<u64>,
}

/// The engine: the routing policy, the journal, and the providers.
pub struct AutopilotEngine {
    router: Router,
    store: EventStore,
    providers: RouteMap<Box<dyn Provider>>,
    models: RouteMap<String>,
    wall: WallClock,
    calls: Ghost<Seq<Call>>,
}

impl AutopilotEngine {
    /// The routing policy and the health of the routes.
    pub closed spec fn router(&self) -> Router {
        self.router
    }

    /// The events of the journal, in the order in which they were recorded.
    pub closed spec fn journal(&self) -> Seq<RoutingEvent> {
        self.store@
    }

    /// The providers by route.
    pub closed spec fn providers(&self) -> Map<Seq<char>, Box<dyn Provider>> {
        self.providers@
    }

    /// The model to ask for on a route, empty if none was given.
    pub closed spec fn model(&self, route: Seq<char>) -> Seq<char> {
        if self.models@.contains_key(route) {
            self.models@[route]@
        } else {
            Seq::empty()
        }
    }

    /// The wall clock of the engine.
    pub closed spec fn wall(&self) -> WallClock {
        self.wall
    }

    /// The log of the calls of providers, in their order. It is kept by the code
    /// beside the one place where a provider is called; a call that is not logged
    /// there would not be seen.
    pub closed spec fn calls(&self) -> Seq<Call> {
        self.calls@
    }

    /// Two engines have the same providers and models.
    pub open spec fn same_providers(&self, other: AutopilotEngine) -> bool {
        &&& self.providers() == other.providers()
        &&& forall|r: Seq<char>| #[trigger] self.model(r) == other.model(r)
    }

    /// The amount spent on the day of `unix`, a wall clock reading.
    pub open spec fn spent_today(&self, unix: u64) -> Usd {
        Usd { pico: spent_on(self.journal(), unix) as i128 }
    }

    /// What a decision depends on, at wall clock `unix` and route clock `now`.
    pub open spec fn outlook(&self, prompt: Seq<char>, unix: u64, now: u128) -> Outlook {
        self.router().prompt_outlook(prompt, self.spent_today(unix), now)
    }

    /// The route to fall back to when `route` failed: the tier right above it, if
    /// it has a provider.
    pub open spec fn fallback_of(&self, route: Seq<char>) -> Option<Seq<char>> {
        match tier_above(route) {
            Some(above) => if self.providers().contains_key(above) {
                Some(above)
            } else {
                None
            },
            None => None,
        }
    }

    /// `req` asks a route for a completion of a prompt.
    pub open spec fn requests(
        &self,
        req: CompletionRequest,
        route: Seq<char>,
        prompt: Seq<char>,
    ) -> bool {
        req.model@ == self.model(route) && req.prompt@ == prompt && req.max_tokens is None
    }

    /// The provider of a route may reply `r` when asked for a completion of a
    /// prompt.
    pub open spec fn may_reply(&self, route: Seq<char>, prompt: Seq<char>, r: Reply) -> bool {
        &&& self.providers().contains_key(route)
        &&& exists|req: CompletionRequest|
            self.requests(req, route, prompt) && #[trigger] answers(
                &*self.providers()[route],
                req,
                r,
            )
    }

    /// An engine without providers.
    pub fn new(config: AutopilotConfig, pricing: PricingTable, store: EventStore) -> (r:
        AutopilotEngine)
        ensures
            r.router().config() == config,
            r.router().rates() == pricing@,
            forall|route: Seq<char>| #[trigger]
                r.router().health(route) == crate::circuit::fresh(
                    config.circuit_failure_threshold,
                    config.circuit_cooldown,
                ),
            r.journal() == store@,
            r.providers() == Map::<Seq<char>, Box<dyn Provider>>::empty(),
            r.calls() == Seq::<Call>::empty(),
            forall|route: Seq<char>| #[trigger] r.model(route) == Seq::<char>::empty(),
    {
        AutopilotEngine {
            router: Router::new(config, pricing),
            store,
            providers: RouteMap::new(),
            models: RouteMap::new(),
            wall: WallClock::unread(),
            calls: Ghost(Seq::empty()),
        }
    }

    /// Gives a route a provider and the model to ask it for.
    pub fn register_provider(&mut self, route: &str, model: &str, provider: Box<dyn Provider>)
        ensures
            final(self).router() == old(self).router(),
            final(self).journal() == old(self).journal(),
            final(self).calls() == old(self).calls(),
            final(self).wall() == old(self).wall(),
            final(self).providers() == old(self).providers().insert(route@, provider),
            final(self).model(route@) == model@,
            forall|r: Seq<char>|
                r != route@ ==> #[trigger] final(self).model(r) == old(self).model(r),
    {
        self.models.insert(route, model.to_owned());
        self.providers.insert(route, provider);
    }

    /// The journal.
    pub fn store(&self) -> (r: &EventStore)
        ensures
            r@ == self.journal(),
    {
        &self.store
    }

    /// Puts another journal in place of the one so far.
    pub fn replace_store(&mut self, store: EventStore)
        ensures
            final(self).router() == old(self).router(),
            final(self).same_providers(*old(self)),
            final(self).journal() == store@,
            final(self).calls() == old(self).calls(),
            final(self).wall() == old(self).wall(),
    {
        self.store = store;
    }

    /// The number of events in the journal.
    pub fn event_count(&self) -> (n: u64)
        ensures
            n == self.journal().len(),
    {
        self.store.count()
    }

    /// The smoothed success rate of a route, one if it was never used.
    pub fn success_rate(&mut self, route: &str) -> (r: Ratio)
        ensures
            r == old(self).router().health(route@).rate,
            r.units <= RATIO_ONE,
            final(self).router().same_setup(old(self).router()),
            forall|other: Seq<char>| #[trigger]
                final(self).router().health(other) == old(self).router().health(other),
            final(self).router().last_reading() == old(self).router().last_reading(),
            final(self).router().readings() == old(self).router().readings(),
            final(self).journal() == old(self).journal(),
            final(self).calls() == old(self).calls(),
            final(self).wall() == old(self).wall(),
            final(self).same_providers(*old(self)),
    {
        self.router.success_rate(route)
    }

    /// Chooses a route for a prompt, now, without calling any provider.
    pub fn decide(&mut self, prompt: &str) -> (r: Result<RoutingDecision, AutopilotError>)
        ensures
            final(self).journal() == old(self).journal(),
            final(self).calls() == old(self).calls(),
            final(self).wall().readings() == one_reading_more(old(self).wall().readings()),
            final(self).same_providers(*old(self)),
            match r {
                Ok(d) => exists|unix: u64, now: u128|
                    {
                        let o = old(self).outlook(prompt@, unix, now);
                        &&& #[trigger] wall_shows(Some(unix))
                        &&& final(self).wall().last_reading() == Some(unix)
                        &&& #[trigger] clock_shows(old(self).router().origin(), now)
                        &&& now >= old(self).router().last_reading()
                        &&& final(self).router().last_reading() == now
                        &&& final(self).router().readings() == one_reading_more(
                            old(self).router().readings(),
                        )
                        &&& decides(o, d)
                        &&& final(self).router().asked_since(
                            old(self).router(),
                            now,
                            |k: int| consulted(o, k),
                        )
                    },
                Err(e) => {
                    &&& e is ClockBeforeEpoch
                    &&& wall_shows(None)
                    &&& final(self).wall().last_reading() is None
                    &&& final(self).router() == old(self).router()
                },
            },
    {
        let ghost before = *self;
        let wall: Option<u64> = self.wall.read();
        if wall.is_none() {
            return self.decide_on(prompt, wall, 0);
        }
        let now: u128 = self.router.advance();
        let ghost mid = *self;
        let r = self.decide_on(prompt, wall, now);
        proof {
            let o = before.outlook(prompt@, wall->0, now);
            lemma_same_outlook(before, mid, prompt@, wall->0, now);
            crate::router::lemma_asked_after_reading(
                before.router(),
                mid.router(),
                self.router(),
                now,
                |k: int| consulted(o, k),
            );
        }
        r
    }

    /// Chooses a route for a prompt when the wall clock shows `wall` and the route
    /// clock `now`. A wall clock before 1970 tells no day, and is an error.
    pub fn decide_on(&mut self, prompt: &str, wall: Option<u64>, now: u128) -> (r: Result<
        RoutingDecision,
        AutopilotError,
    >)
        ensures
            final(self).journal() == old(self).journal(),
            final(self).calls() == old(self).calls(),
            final(self).wall() == old(self).wall(),
            final(self).same_providers(*old(self)),
            final(self).router().last_reading() == old(self).router().last_reading(),
            final(self).router().readings() == old(self).router().readings(),
            match wall {
                Some(unix) => {
                    let o = old(self).outlook(prompt@, unix, now);
                    &&& r matches Ok(d)
                    &&& decides(o, d)
                    &&& final(self).router().asked_since(
                        old(self).router(),
                        now,
                        |k: int| consulted(o, k),
                    )
                },
                None => {
                    &&& r matches Err(e)
                    &&& e is ClockBeforeEpoch
                    &&& final(self).router() == old(self).router()
                },
            },
    {
        match wall {
            Some(unix) => Ok(self.decide_at(prompt, unix, now)),
            None => Err(AutopilotError::ClockBeforeEpoch),
        }
    }

    /// Chooses a route for a prompt at wall clock `unix` and route clock `now`.
    pub fn decide_at(&mut self, prompt: &str, unix: u64, now: u128) -> (d: RoutingDecision)
        ensures
            decides(old(self).outlook(prompt@, unix, now), d),
            final(self).router().asked_since(
                old(self).router(),
                now,
                |k: int| consulted(old(self).outlook(prompt@, unix, now), k),
            ),
            final(self).journal() == old(self).journal(),
            final(self).calls() == old(self).calls(),
            final(self).wall() == old(self).wall(),
            final(self).same_providers(*old(self)),
            final(self).router().last_reading() == old(self).router().last_reading(),
            final(self).router().readings() == old(self).router().readings(),
    {
        let spent: Usd = self.store.cost_today(unix);
        self.router.decide_at(prompt, spent, now)
    }

    /// The health of a route once a run has begun: the decision looked at some
    /// routes, and the one chosen was asked to take the call.
    pub open spec fn health_begun(&self, o: Outlook, now: u128, route: Seq<char>) -> Health {
        let looked_at = self.router().health_after(o, now, route);
        if route == tier(chosen_tier(o)) {
            admitted(looked_at, now)
        } else {
            looked_at
        }
    }

    /// Begins a run on a prompt when the wall clock shows `wall` and the route clock
    /// `now`: chooses a route, which must have a provider, and asks it to take the
    /// call. The local route is called as a last resort even if it refuses.
    pub fn begin_on(&mut self, prompt: &str, wall: Option<u64>, now: u128) -> (r: Result<
        RoutingDecision,
        AutopilotError,
    >)
        ensures
            final(self).journal() == old(self).journal(),
            final(self).calls() == old(self).calls(),
            final(self).wall() == old(self).wall(),
            final(self).same_providers(*old(self)),
            final(self).router().last_reading() == old(self).router().last_reading(),
            final(self).router().readings() == old(self).router().readings(),
            final(self).router().same_setup(old(self).router()),
            match wall {
                Some(unix) => {
                    let o = old(self).outlook(prompt@, unix, now);
                    let chosen = tier(chosen_tier(o));
                    if old(self).providers().contains_key(chosen) {
                        &&& r matches Ok(d)
                        &&& decides(o, d)
                        &&& forall|route: Seq<char>| #[trigger]
                            final(self).router().health(route) == old(self).health_begun(
                                o,
                                now,
                                route,
                            )
                    } else {
                        &&& r matches Err(AutopilotError::UnknownRoute(name))
                        &&& name@ == chosen
                        &&& exists|d: RoutingDecision| #[trigger] decides(o, d)
                        &&& forall|route: Seq<char>| #[trigger]
                            final(self).router().health(route) == old(self).router().health_after(
                                o,
                                now,
                                route,
                            )
                    }
                },
                None => {
                    &&& r matches Err(e)
                    &&& e is ClockBeforeEpoch
                    &&& final(self).router() == old(self).router()
                },
            },
    {
        let ghost before = *self;
        let decision = match self.decide_on(prompt, wall, now) {
            Ok(decision) => decision,
            Err(e) => return Err(e),
        };
        proof {
            let o = before.outlook(prompt@, wall->0, now);
            crate::router::lemma_health_after(before.router(), self.router(), o, now);
            assert(decides(o, decision));
        }
        if !self.providers.contains(decision.route.as_str()) {
            return Err(AutopilotError::UnknownRoute(decision.route));
        }
        let ghost decided = *self;
        self.router.admit_at(decision.route.as_str(), now);
        proof {
            let o = before.outlook(prompt@, wall->0, now);
            assert forall|route: Seq<char>| #[trigger]
                self.router().health(route) == before.health_begun(o, now, route) by {
                assert(decided.router().health(route) == before.router().health_after(
                    o,
                    now,
                    route,
                ));
            }
            assert forall|route: Seq<char>| #[trigger]
                self.model(route) == before.model(route) by {
                assert(decided.model(route) == before.model(route));
            }
        }
        Ok(decision)
    }

    /// The request that asks a route for a completion of a prompt.
    pub fn request_for(&self, route: &str, prompt: &str) -> (req: CompletionRequest)
        ensures
            self.requests(req, route@, prompt@),
    {
        match self.models.get(route) {
            Some(model) => CompletionRequest::new(model.as_str(), prompt),
            None => {
                proof {
                    reveal_strlit("");
                }
                let req = CompletionRequest::new("", prompt);
                assert(req.model@ =~= self.model(route@));
                req
            },
        }
    }

    /// The call that asks a route for a completion of a prompt.
    pub open spec fn call_of(&self, route: Seq<char>, prompt: Seq<char>) -> Call {
        Call { route, model: self.model(route), prompt }
    }

    fn call_route(&mut self, route: &str, prompt: &str) -> (r: Result<
        CompletionResponse,
        ProviderError,
    >)
        requires
            old(self).providers().contains_key(route@),
        ensures
            old(self).may_reply(route@, prompt@, r),
            final(self).calls() == old(self).calls().push(old(self).call_of(route@, prompt@)),
            final(self).wall() == old(self).wall(),
            final(self).router() == old(self).router(),
            final(self).journal() == old(self).journal(),
            final(self).same_providers(*old(self)),
    {
        let ghost call = self.call_of(route@, prompt@);
        let req = self.request_for(route, prompt);
        let r = ask(&**self.providers.get(route).unwrap(), &req);
        self.calls = Ghost(self.calls@.push(call));
        r
    }

    /// The health of a route after the reply of the route chosen, which came at
    /// `now`: the outcome is recorded, and if it is an error the route to fall back
    /// to is asked to take the call.
    pub open spec fn health_after_first(
        &self,
        chosen: Seq<char>,
        reply: Reply,
        now: u128,
        route: Seq<char>,
    ) -> Health {
        let h = if route == chosen {
            recorded(self.router().health(route), worked(reply), now)
        } else {
            self.router().health(route)
        };
        if reply is Err && self.fallback_of(chosen) == Some(route) {
            admitted(h, now)
        } else {
            h
        }
    }

    /// Records the outcome of the call on the route chosen, which came at `now`: an
    /// answer that is not empty is a success. Says which route to fall back to, if
    /// the reply is an error and there is one, and asks that route to take the call.
    /// That route is tried even if it refuses.
    pub fn after_first_reply(
        &mut self,
        route: &str,
        reply: &Result<CompletionResponse, ProviderError>,
        now: u128,
    ) -> (r: Option<&'static str>)
        ensures
            final(self).router().same_setup(old(self).router()),
            forall|other: Seq<char>| #[trigger]
                final(self).router().health(other) == old(self).health_after_first(
                    route@,
                    *reply,
                    now,
                    other,
                ),
            final(self).journal() == old(self).journal(),
            final(self).calls() == old(self).calls(),
            final(self).wall() == old(self).wall(),
            final(self).same_providers(*old(self)),
            final(self).router().last_reading() == old(self).router().last_reading(),
            final(self).router().readings() == old(self).router().readings(),
            match r {
                Some(name) => reply is Err && old(self).fallback_of(route@) == Some(name@),
                None => reply is Ok || old(self).fallback_of(route@) is None,
            },
    {
        let ghost before = *self;
        let success: bool = has_worked(reply);
        self.router.record_outcome_at(route, success, now);
        if reply.is_ok() {
            return None;
        }
        proof {
            crate::router::lemma_tiers_differ();
        }
        let above: &'static str = if same_text(route, ROUTE_TIERS[1]) {
            ROUTE_TIERS[2]
        } else if same_text(route, ROUTE_TIERS[2]) {
            return None;
        } else {
            ROUTE_TIERS[1]
        };
        if self.providers.contains(above) {
            let ghost mid = *self;
            self.router.admit_at(above, now);
            assert forall|other: Seq<char>| #[trigger]
                self.router().health(other) == before.health_after_first(
                    route@,
                    *reply,
                    now,
                    other,
                ) by {
                assert(other != above@ ==> self.router().health(other) == mid.router().health(
                    other,
                ));
                assert(other != route@ ==> mid.router().health(other) == before.router().health(
                    other,
                ));
            }
            Some(above)
        } else {
            None
        }
    }

    /// Records the outcome of the call on the fallback route, which came at `now`:
    /// an answer that is not empty is a success.
    pub fn after_second_reply(
        &mut self,
        route: &str,
        reply: &Result<CompletionResponse, ProviderError>,
        now: u128,
    )
        ensures
            final(self).router().differs_on(old(self).router(), route@),
            final(self).router().health(route@) == recorded(
                old(self).router().health(route@),
                worked(*reply),
                now,
            ),
            final(self).journal() == old(self).journal(),
            final(self).calls() == old(self).calls(),
            final(self).wall() == old(self).wall(),
            final(self).same_providers(*old(self)),
            final(self).router().last_reading() == old(self).router().last_reading(),
            final(self).router().readings() == old(self).router().readings(),
    {
        let success: bool = has_worked(reply);
        self.router.record_outcome_at(route, success, now);
    }

    /// Ends an attempt: bills it at the tokens really used, notes it in the
    /// journal, and gives its answer or its error. A wall clock before 1970 tells no
    /// time to note, and is an error.
    pub fn conclude(&mut self, prompt: &str, attempt: Attempt) -> (r: Result<
        RoutedCompletion,
        AutopilotError,
    >)
        ensures
            final(self).router() == old(self).router(),
            final(self).calls() == old(self).calls(),
            final(self).wall() == old(self).wall(),
            final(self).same_providers(*old(self)),
            match attempt.ended {
                Some(_) => {
                    let e = final(self).journal().last();
                    &&& final(self).journal() == old(self).journal().push(e)
                    &&& notes(e, old(self).router().rates(), prompt@, attempt)
                    &&& results(attempt, e, r)
                },
                None => {
                    &&& r matches Err(e)
                    &&& e is ClockBeforeEpoch
                    &&& final(self).journal() == old(self).journal()
                },
            },
    {
        let timestamp: u64 = match attempt.ended {
            Some(unix) => unix,
            None => return Err(AutopilotError::ClockBeforeEpoch),
        };
        let complexity: Ratio = attempt.decision.complexity;
        let latency_ms: u64 = attempt.latency_ms;
        let fallback: bool = attempt.fallback_occurred;
        match attempt.outcome {
            Ok(response) => {
                let input_tokens: usize = tokens_or_estimate(response.usage.prompt_tokens, prompt);
                let output_tokens: usize = tokens_or_estimate(
                    response.usage.completion_tokens,
                    response.text.as_str(),
                );
                let cost_usd: Usd = self.router.cost_for(
                    attempt.route_used.as_str(),
                    input_tokens,
                    output_tokens,
                );
                self.store.record(
                    RoutingEvent {
                        timestamp,
                        route: attempt.route_used.clone(),
                        complexity,
                        input_tokens,
                        output_tokens,
                        cost_usd,
                        latency_ms,
                        success: true,
                        fallback,
                        decision_reason: attempt.decision.reason.clone(),
                    },
                );
                Ok(
                    RoutedCompletion {
                        text: response.text,
                        route_used: attempt.route_used,
                        cost_usd,
                        latency_ms,
                        fallback_occurred: fallback,
                        decision_reason: attempt.decision.reason,
                    },
                )
            },
            Err(last_error) => {
                self.store.record(
                    RoutingEvent {
                        timestamp,
                        route: attempt.route_used,
                        complexity,
                        input_tokens: estimate_tokens(prompt),
                        output_tokens: 0,
                        cost_usd: Usd::zero(),
                        latency_ms,
                        success: false,
                        fallback,
                        decision_reason: attempt.decision.reason,
                    },
                );
                Err(AutopilotError::AllRoutesFailed { last_error })
            },
        }
    }

    /// What the decision of a run depends on.
    pub open spec fn run_outlook(&self, prompt: Seq<char>, run: Run) -> Outlook {
        self.outlook(prompt, run.started->0, run.decided_at)
    }

    /// Whether a run asks a second route: the first reply is an error and there is a
    /// route to fall back to.
    pub open spec fn falls_back(&self, run: Run) -> bool {
        run.first is Err && self.fallback_of(run.decision.route@) is Some
    }

    /// The route that a run falls back to.
    pub open spec fn second_route(&self, run: Run) -> Seq<char> {
        self.fallback_of(run.decision.route@)->0
    }

    /// The calls that a run logs: one of the route chosen, and one of the route
    /// above if it falls back.
    pub open spec fn calls_of(&self, prompt: Seq<char>, run: Run) -> Seq<Call> {
        let first = self.call_of(run.decision.route@, prompt);
        if self.falls_back(run) {
            seq![first, self.call_of(self.second_route(run), prompt)]
        } else {
            seq![first]
        }
    }

    /// The health of a route after a run, for a decision on a route that has a
    /// provider: each route that was called has the outcome recorded once.
    pub open spec fn health_after_run(&self, prompt: Seq<char>, run: Run, route: Seq<char>) -> Health {
        let begun = self.health_begun(self.run_outlook(prompt, run), run.decided_at, route);
        let replied = if route == run.decision.route@ {
            recorded(begun, worked(run.first), run.first_at)
        } else {
            begun
        };
        if self.falls_back(run) && route == self.second_route(run) {
            recorded(admitted(replied, run.first_at), worked(run.second), run.second_at)
        } else {
            replied
        }
    }

    /// The attempt that a run makes: the first reply, or the second if it falls
    /// back.
    pub open spec fn attempted(&self, run: Run, a: Attempt) -> bool {
        &&& a.decision == run.decision
        &&& a.fallback_occurred == self.falls_back(run)
        &&& a.route_used@ == if self.falls_back(run) {
            self.second_route(run)
        } else {
            run.decision.route@
        }
        &&& a.outcome == if self.falls_back(run) {
            run.second
        } else {
            run.first
        }
        &&& a.latency_ms == run.latency_ms
        &&& a.ended == run.ended
    }

    /// What a run read from its clocks is what they showed, as far as it read them,
    /// and no reading of the route clock is before an earlier one.
    pub open spec fn clocks_were_read(&self, run: Run) -> bool {
        let origin = self.router().origin();
        &&& clock_shows(origin, run.decided_at)
        &&& self.router().last_reading() <= run.decided_at
        &&& self.providers().contains_key(run.decision.route@) ==> {
            &&& clock_shows(origin, run.begun_at)
            &&& clock_shows(origin, run.first_at)
            &&& clock_shows(origin, run.ended_at)
            &&& run.decided_at <= run.begun_at <= run.first_at <= run.ended_at
            &&& self.falls_back(run) ==> clock_shows(origin, run.second_at) && run.first_at
                <= run.second_at <= run.ended_at
            &&& is_latency(run.latency_ms)
            &&& is_latency_between(run.latency_ms, origin, run.begun_at, run.ended_at)
            &&& wall_shows(run.ended)
        }
    }

    /// `after` and `r` are what a run on a prompt leaves and gives back.
    pub open spec fn ran(
        &self,
        prompt: Seq<char>,
        run: Run,
        after: AutopilotEngine,
        r: Result<RoutedCompletion, AutopilotError>,
    ) -> bool {
        &&& after.router().same_setup(self.router())
        &&& after.same_providers(*self)
        &&& wall_shows(run.started)
        &&& after.wall().readings() == {
            let first = one_reading_more(self.wall().readings());
            if run.started is Some && self.providers().contains_key(run.decision.route@) {
                one_reading_more(first)
            } else {
                first
            }
        }
        &&& after.wall().last_reading() == if run.started is Some
            && self.providers().contains_key(run.decision.route@) {
            run.ended
        } else {
            run.started
        }
        &&& if run.started is None {
            &&& r is Err
            &&& r->Err_0 is ClockBeforeEpoch
            &&& after.router() == self.router()
            &&& after.journal() == self.journal()
            &&& after.calls() == self.calls()
        } else {
            &&& self.clocks_were_read(run)
            &&& decides(self.run_outlook(prompt, run), run.decision)
            &&& if self.providers().contains_key(run.decision.route@) {
                self.called(prompt, run, after, r)
            } else {
                &&& r matches Err(AutopilotError::UnknownRoute(name))
                &&& name@ == run.decision.route@
                &&& after.journal() == self.journal()
                &&& after.calls() == self.calls()
                &&& after.router().last_reading() == run.decided_at
                &&& after.router().readings() == one_reading_more(self.router().readings())
                &&& forall|route: Seq<char>| #[trigger]
                    after.router().health(route) == self.router().health_after(
                        self.run_outlook(prompt, run),
                        run.decided_at,
                        route,
                    )
            }
        }
    }

    /// `after` and `r` are what a run on a prompt leaves and gives back once it has
    /// called the route chosen.
    pub open spec fn called(
        &self,
        prompt: Seq<char>,
        run: Run,
        after: AutopilotEngine,
        r: Result<RoutedCompletion, AutopilotError>,
    ) -> bool {
        &&& self.may_reply(run.decision.route@, prompt, run.first)
        &&& self.falls_back(run) ==> self.may_reply(self.second_route(run), prompt, run.second)
        &&& after.calls() == self.calls() + self.calls_of(prompt, run)
        &&& after.router().last_reading() == run.ended_at
        &&& after.router().readings() == {
            let begun = one_reading_more(one_reading_more(self.router().readings()));
            let replied = one_reading_more(begun);
            if self.falls_back(run) {
                one_reading_more(one_reading_more(replied))
            } else {
                one_reading_more(replied)
            }
        }
        &&& forall|route: Seq<char>| #[trigger]
            after.router().health(route) == self.health_after_run(prompt, run, route)
        &&& if run.ended is None {
            r is Err && r->Err_0 is ClockBeforeEpoch && after.journal() == self.journal()
        } else {
            exists|a: Attempt|
                {
                    let e = after.journal().last();
                    &&& #[trigger] self.attempted(run, a)
                    &&& after.journal() == self.journal().push(e)
                    &&& notes(e, self.router().rates(), prompt, a)
                    &&& results(a, e, r)
                }
        }
    }

    /// Chooses a route for a prompt, calls its provider, notes the outcome and
    /// feeds the statistics. If the call fails, the route right above is tried
    /// once before giving up.
    pub fn route_and_execute(&mut self, prompt: &str) -> (r: Result<
        RoutedCompletion,
        AutopilotError,
    >)
        ensures
            exists|run: Run| #[trigger] old(self).ran(prompt@, run, *final(self), r),
    {
        let ghost before = *self;
        let started: Option<u64> = self.wall.read();
        let mut decided_at: u128 = 0;
        if started.is_some() {
            decided_at = self.router.advance();
        }
        let ghost read = *self;
        let ghost o = before.outlook(prompt@, started->0, decided_at);
        let ghost any: Reply = arbitrary();
        proof {
            lemma_same_outlook(before, read, prompt@, started->0, decided_at);
        }
        let decision = match self.begin_on(prompt, started, decided_at) {
            Ok(decision) => decision,
            Err(e) => {
                proof {
                    let decision: RoutingDecision = choose|d: RoutingDecision| decides(o, d);
                    let run = Run {
                        started,
                        decided_at,
                        decision,
                        begun_at: 0,
                        first: any,
                        first_at: 0,
                        second: any,
                        second_at: 0,
                        ended_at: 0,
                        latency_ms: 0,
                        ended: None,
                    };
                    if started is Some {
                        assert forall|route: Seq<char>| #[trigger]
                            self.router().health(route) == before.router().health_after(
                                o,
                                decided_at,
                                route,
                            ) by {
                            assert(read.router().health(route) == before.router().health(route));
                        }
                        assert forall|route: Seq<char>| #[trigger]
                            self.model(route) == before.model(route) by {
                            assert(read.model(route) == before.model(route));
                        }
                    }
                    assert(before.ran(prompt@, run, *self, Err(e)));
                }
                return Err(e);
            },
        };
        let ghost chosen = decision.route@;
        let ghost admitted_one = *self;
        let begun_at: u128 = self.router.advance();
        let start: Instant = self.router.latest();
        let ghost begun = *self;
        let first = self.call_route(decision.route.as_str(), prompt);
        let ghost first_reply = first;
        let ghost asked = *self;
        let first_at: u128 = self.router.advance();
        let ghost replied = *self;
        let fallback = self.after_first_reply(decision.route.as_str(), &first, first_at);
        let ghost mid = *self;
        proof {
            lemma_same_providers(before, read, admitted_one);
            lemma_same_providers(before, admitted_one, begun);
            lemma_same_providers(before, begun, asked);
            lemma_same_providers(before, asked, replied);
            lemma_same_providers(before, replied, mid);
        }
        let ghost mut second_reply: Reply = any;
        let mut second_at: u128 = 0;
        let mut route_used: String = decision.route.clone();
        let mut outcome: Result<CompletionResponse, ProviderError> = first;
        if let Some(above) = fallback {
            let second = self.call_route(above, prompt);
            proof {
                second_reply = second;
            }
            let ghost asked_again = *self;
            second_at = self.router.advance();
            let ghost heard = *self;
            self.after_second_reply(above, &second, second_at);
            proof {
                lemma_same_providers(before, mid, asked_again);
                lemma_same_providers(before, asked_again, heard);
                lemma_same_providers(before, heard, *self);
            }
            route_used = above.to_owned();
            outcome = second;
        }
        let ghost heard_all = *self;
        let ended_at: u128 = self.router.advance();
        let end: Instant = self.router.latest();
        let latency_ms: u64 = (nanos_between(&end, &start) / 1_000_000) as u64;
        assert(is_latency_between(latency_ms, before.router().origin(), begun_at, ended_at));
        assert(is_latency(latency_ms));
        let ended: Option<u64> = self.wall.read();
        proof {
            lemma_same_providers(before, heard_all, *self);
        }
        let ghost run = Run {
            started,
            decided_at,
            decision,
            begun_at,
            first: first_reply,
            first_at,
            second: second_reply,
            second_at,
            ended_at,
            latency_ms,
            ended,
        };
        assert forall|route: Seq<char>| #[trigger]
            self.router().health(route) == before.health_after_run(prompt@, run, route) by {
            assert(read.router().health(route) == before.router().health(route));
            assert(admitted_one.router().health(route) == read.health_begun(
                o,
                decided_at,
                route,
            ));
            assert(begun.router().health(route) == admitted_one.router().health(route));
            assert(self.router().health(route) == heard_all.router().health(route));
            assert(replied.router().health(route) == begun.router().health(route));
            assert(mid.router().health(route) == replied.health_after_first(
                chosen,
                first_reply,
                first_at,
                route,
            ));
        }
        assert(self.calls() =~= before.calls() + before.calls_of(prompt@, run));
        let fallback_occurred: bool = fallback.is_some();
        let attempt = Attempt {
            decision,
            route_used,
            fallback_occurred,
            outcome,
            latency_ms,
            ended,
        };
        let ghost a = attempt;
        assert(before.attempted(run, a));
        let ghost done = *self;
        let r = self.conclude(prompt, attempt);
        proof {
            lemma_same_providers(before, done, *self);
        }
        assert(before.called(prompt@, run, *self, r));
        assert(before.ran(prompt@, run, *self, r));
        r
    }
}

proof fn lemma_same_providers(a: AutopilotEngine, b: AutopilotEngine, c: AutopilotEngine)
    requires
        b.same_providers(a),
        c.same_providers(b),
    ensures
        c.same_providers(a),
{
    assert forall|route: Seq<char>| #[trigger] c.model(route) == a.model(route) by {
        assert(b.model(route) == a.model(route));
    }
}

proof fn lemma_same_outlook(
    a: AutopilotEngine,
    b: AutopilotEngine,
    prompt: Seq<char>,
    unix: u64,
    now: u128,
)
    requires
        b.router().same_setup(a.router()),
        forall|route: Seq<char>| #[trigger] b.router().health(route) == a.router().health(route),
        b.journal() == a.journal(),
    ensures
        b.outlook(prompt, unix, now) == a.outlook(prompt, unix, now),
{
    assert(b.router().up(now) =~= a.router().up(now));
    assert(b.outlook(prompt, unix, now).projected =~= a.outlook(prompt, unix, now).projected);
}

/// A request that was answered or that every route refused is noted once in the
/// journal; any other leaves the journal as it was.
pub proof fn law_each_request_is_noted_once(
    before: AutopilotEngine,
    prompt: Seq<char>,
    run: Run,
    after: AutopilotEngine,
    r: Result<RoutedCompletion, AutopilotError>,
)
    requires
        before.ran(prompt, run, after, r),
    ensures
        r is Ok || r->Err_0 is AllRoutesFailed ==> {
            &&& after.journal().len() == before.journal().len() + 1
            &&& after.journal().drop_last() == before.journal()
            &&& after.journal().last().success == (r is Ok)
        },
        r is Err && !(r->Err_0 is AllRoutesFailed) ==> after.journal() == before.journal(),
{
    if run.started is Some && before.providers().contains_key(run.decision.route@)
        && run.ended is Some {
        let e = after.journal().last();
        assert(after.journal() == before.journal().push(e));
        assert(before.journal().push(e).drop_last() =~= before.journal());
    }
}

/// An answer comes from the route chosen or, after that one failed, from the
/// tier right above it; no other route is tried.
pub proof fn law_an_answer_comes_from_the_route_chosen_or_the_one_above(
    before: AutopilotEngine,
    prompt: Seq<char>,
    run: Run,
    after: AutopilotEngine,
    c: RoutedCompletion,
)
    requires
        before.ran(prompt, run, after, Ok(c)),
    ensures
        !c.fallback_occurred ==> c.route_used@ == run.decision.route@ && run.first is Ok,
        c.fallback_occurred ==> {
            &&& run.first is Err
            &&& tier_above(run.decision.route@) == Some(c.route_used@)
            &&& before.providers().contains_key(c.route_used@)
        },
        c.decision_reason@ == run.decision.reason@,
{
}

/// The log notes one call of the route chosen; one more, of the tier right above it,
/// if and only if the first gave an error and that tier has a provider; and no third.
/// The log is kept by the code that makes the calls, so this speaks of logged calls.
/// Each route that was called has its outcome recorded once, and every other route
/// keeps its success rate and its count.
pub proof fn law_one_call_and_at_most_one_fallback(
    before: AutopilotEngine,
    prompt: Seq<char>,
    run: Run,
    after: AutopilotEngine,
    r: Result<RoutedCompletion, AutopilotError>,
    route: Seq<char>,
)
    requires
        before.ran(prompt, run, after, r),
        run.started is Some,
        before.providers().contains_key(run.decision.route@),
    ensures
        ({
            let chosen = run.decision.route@;
            let above = tier_above(chosen);
            let first = Call { route: chosen, model: before.model(chosen), prompt };
            let again = run.first is Err && above is Some && before.providers().contains_key(
                above->0,
            );
            let second = Call { route: above->0, model: before.model(above->0), prompt };
            let begun = before.health_begun(
                before.run_outlook(prompt, run),
                run.decided_at,
                route,
            );
            let health = after.router().health(route);
            &&& before.may_reply(chosen, prompt, run.first)
            &&& again ==> before.may_reply(above->0, prompt, run.second)
            &&& after.calls() == before.calls() + (if again {
                seq![first, second]
            } else {
                seq![first]
            })
            &&& again ==> above->0 != chosen
            &&& route == chosen ==> health == recorded(begun, worked(run.first), run.first_at)
            &&& again && route == above->0 ==> health == recorded(
                admitted(begun, run.first_at),
                worked(run.second),
                run.second_at,
            )
            &&& route != chosen && !(again && route == above->0) ==> {
                &&& health.rate == before.router().health(route).rate
                &&& health.samples == before.router().health(route).samples
            }
        }),
{
    crate::router::lemma_tiers_differ();
    assert(after.router().health(route) == before.health_after_run(prompt, run, route));
}

/// An empty answer counts as a failure of the route chosen: it lowers its success
/// rate.
pub proof fn law_an_empty_answer_counts_as_a_failure(
    before: AutopilotEngine,
    prompt: Seq<char>,
    run: Run,
    after: AutopilotEngine,
    r: Result<RoutedCompletion, AutopilotError>,
    response: CompletionResponse,
)
    requires
        before.ran(prompt, run, after, r),
        run.started is Some,
        before.providers().contains_key(run.decision.route@),
        run.first == Reply::Ok(response),
        response.text@.len() == 0,
    ensures
        ({
            let chosen = run.decision.route@;
            let o = before.run_outlook(prompt, run);
            let rate = before.router().health(chosen).rate.units;
            &&& after.router().health(chosen) == recorded(
                before.health_begun(o, run.decided_at, chosen),
                false,
                run.first_at,
            )
            &&& rate > 0 ==> after.router().health(chosen).rate.units < rate
        }),
{
    let chosen = run.decision.route@;
    assert(after.router().health(chosen) == before.health_after_run(prompt, run, chosen));
}

/// A request for a route without a provider is refused by its name: nothing is
/// called, noted or recorded.
pub proof fn law_route_without_provider_is_refused(
    before: AutopilotEngine,
    prompt: Seq<char>,
    run: Run,
    after: AutopilotEngine,
    r: Result<RoutedCompletion, AutopilotError>,
    route: Seq<char>,
)
    requires
        before.ran(prompt, run, after, r),
        run.started is Some,
        !before.providers().contains_key(run.decision.route@),
    ensures
        r matches Err(AutopilotError::UnknownRoute(name)) && name@ == run.decision.route@,
        after.journal() == before.journal(),
        after.calls() == before.calls(),
        after.router().health(route).rate == before.router().health(route).rate,
        after.router().health(route).samples == before.router().health(route).samples,
{
    assert(after.router().health(route) == before.router().health_after(
        before.run_outlook(prompt, run),
        run.decided_at,
        route,
    ));
}

/// A request that no route answered costs nothing: what was spent on any day is
/// what it was.
pub proof fn law_failed_request_costs_nothing(
    before: AutopilotEngine,
    prompt: Seq<char>,
    run: Run,
    after: AutopilotEngine,
    e: AutopilotError,
    unix: u64,
)
    requires
        before.ran(prompt, run, after, Err(e)),
    ensures
        spent_on(after.journal(), unix) == spent_on(before.journal(), unix),
{
    law_each_request_is_noted_once(before, prompt, run, after, Err(e));
    lemma_spending_can_be_held(before.journal(), unix);
}

pub(crate) proof fn lemma_spending_can_be_held(events: Seq<RoutingEvent>, now: u64)
    ensures
        i128::MIN <= spent_on(events, now) <= i128::MAX,
    decreases events.len(),
{
    if events.len() > 0 {
        lemma_spending_can_be_held(events.drop_last(), now);
    }
}

/// The cost of an answer is counted as spent on its day.
pub proof fn law_the_cost_of_an_answer_is_spent_on_its_day(
    before: AutopilotEngine,
    prompt: Seq<char>,
    run: Run,
    after: AutopilotEngine,
    c: RoutedCompletion,
    unix: u64,
)
    requires
        before.ran(prompt, run, after, Ok(c)),
        run.ended == Some(unix),
    ensures
        spent_on(after.journal(), unix) == crate::units::clamp(
            spent_on(before.journal(), unix) + c.cost_usd.pico,
        ),
{
    crate::store::law_day_is_aligned(unix);
    law_each_request_is_noted_once(before, prompt, run, after, Ok(c));
}

/// An answer is billed at the tokens that the provider reports, not at the
/// estimate made before the call.
pub proof fn law_reported_usage_is_what_is_billed(
    before: AutopilotEngine,
    prompt: Seq<char>,
    run: Run,
    after: AutopilotEngine,
    c: RoutedCompletion,
    response: CompletionResponse,
)
    requires
        before.ran(prompt, run, after, Ok(c)),
        (if c.fallback_occurred {
            run.second
        } else {
            run.first
        }) == Reply::Ok(response),
        response.usage.prompt_tokens > 0,
        response.usage.completion_tokens > 0,
    ensures
        c.cost_usd.pico == cost_on(
            before.router().rates(),
            c.route_used@,
            response.usage.prompt_tokens as int,
            response.usage.completion_tokens as int,
        ),
{
}

/// Where the provider reports no usage, the estimates for the prompt and for the
/// answer are billed.
pub proof fn law_missing_usage_is_estimated(
    before: AutopilotEngine,
    prompt: Seq<char>,
    run: Run,
    after: AutopilotEngine,
    c: RoutedCompletion,
    response: CompletionResponse,
)
    requires
        before.ran(prompt, run, after, Ok(c)),
        (if c.fallback_occurred {
            run.second
        } else {
            run.first
        }) == Reply::Ok(response),
        response.usage.prompt_tokens == 0,
        response.usage.completion_tokens == 0,
    ensures
        c.cost_usd.pico == cost_on(
            before.router().rates(),
            c.route_used@,
            tokens_for(prompt.len()) as int,
            tokens_for(c.text@.len()) as int,
        ),
{
}

/// An answer from a route whose rates are free costs nothing.
pub proof fn law_a_free_answer_costs_nothing(
    before: AutopilotEngine,
    prompt: Seq<char>,
    run: Run,
    after: AutopilotEngine,
    c: RoutedCompletion,
)
    requires
        before.ran(prompt, run, after, Ok(c)),
        before.router().rates().contains_key(c.route_used@),
        before.router().rates()[c.route_used@] == crate::pricing::free(),
    ensures
        c.cost_usd.pico == 0,
{
    let e = after.journal().last();
    crate::pricing::law_free_route_costs_nothing(e.input_tokens as nat, e.output_tokens as nat);
}

/// With a budget, the route chosen is the local one or a paid one whose projected
/// call fits in what is left of the day.
pub proof fn law_runs_keep_to_the_budget(
    before: AutopilotEngine,
    prompt: Seq<char>,
    run: Run,
    after: AutopilotEngine,
    r: Result<RoutedCompletion, AutopilotError>,
    budget: Usd,
)
    requires
        before.ran(prompt, run, after, r),
        run.started is Some,
        before.router().config().daily_budget_usd == Some(budget),
    ensures
        run.decision.route@ == "local"@ || crate::units::clamp(
            before.spent_today(run.started->0).pico + run.decision.estimated_cost_usd.pico,
        ) <= budget.pico,
{
    let o = before.run_outlook(prompt, run);
    crate::router::lemma_tiers_differ();
    crate::router::law_choice_is_a_tier(o);
    if crate::router::chosen_tier(o) > 0 {
        crate::router::law_paid_choice_fits_the_budget(o, budget);
    }
}

} // verus!
