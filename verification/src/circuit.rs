//! Adaptive statistics of a route and its circuit breaker.
//!
//! A route that keeps failing must not go on receiving traffic. The breaker
//! follows the usual pattern:
//!
//! - closed: normal traffic, outcomes feed the moving average;
//! - open: too many recent failures, the route rests for the cooldown;
//! - half-open: the cooldown is over, a single trial is allowed and decides: a
//!   success closes the breaker, a failure starts the cooldown again.
//!
//! A decision only looks at a breaker. The trial is handed out with the call.

use crate::clock::{clock_shows, one_reading_more, span, RouteClock};
use crate::units::{Ratio, RATIO_ONE};
use std::time::Instant;
use vstd::prelude::*;

verus! {

/// Outcomes needed before a low success rate opens the breaker.
pub const MIN_SAMPLES_BEFORE_TRIP: u64 = 5;

/// The state of a breaker. Times are nanoseconds on the clock of the route.
#[derive(Clone, Copy, Debug, PartialEq, Eq, Structural)]
pub enum BreakerState {
    Closed,
    Open { opened_at: u128 },
    /// Whether the trial was handed out, and its outcome is awaited.
    HalfOpen { trial_out: bool },
}

/// What is known of the health of a route.
#[derive(Clone, Copy, Debug, PartialEq, Eq, Structural)]
pub struct Health {
    /// Success rate, smoothed by an exponential moving average.
    pub rate: Ratio,
    /// Outcomes recorded since the route was new or recovered.
    pub samples: u64,
    pub state: BreakerState,
    /// Rest of an open breaker, in nanoseconds.
    pub cooldown: u128,
    /// Below this success rate the breaker opens.
    pub failure_threshold: Ratio,
}

/// The health of a route that was never used: presumed to work.
pub open spec fn fresh(failure_threshold: Ratio, cooldown: u128) -> Health {
    Health {
        rate: Ratio { units: RATIO_ONE },
        samples: 0,
        state: BreakerState::Closed,
        cooldown,
        failure_threshold,
    }
}

/// The moving average after one more outcome: three tenths of the outcome and
/// seven tenths of the average so far, rounded down to a unit.
pub open spec fn smoothed(rate: Ratio, success: bool) -> Ratio {
    Ratio {
        units: (((if success {
            3 * RATIO_ONE
        } else {
            0
        }) + 7 * rate.units) / 10) as u64,
    }
}

/// The time from `opened_at` to `now`, zero if the clock went back.
pub open spec fn rested(opened_at: u128, now: u128) -> int {
    if now >= opened_at {
        now - opened_at
    } else {
        0
    }
}

/// Whether a route may receive traffic at `now`: normal traffic while closed, one
/// trial once the cooldown is over.
pub open spec fn available(h: Health, now: u128) -> bool {
    match h.state {
        BreakerState::Closed => true,
        BreakerState::Open { opened_at } => rested(opened_at, now) >= h.cooldown,
        BreakerState::HalfOpen { trial_out } => !trial_out,
    }
}

/// A route after it was looked at, at `now`: an open breaker whose cooldown is over
/// is half-open. No trial is handed out.
pub open spec fn settled(h: Health, now: u128) -> Health {
    match h.state {
        BreakerState::Open { .. } => if available(h, now) {
            Health { state: BreakerState::HalfOpen { trial_out: false }, ..h }
        } else {
            h
        },
        _ => h,
    }
}

/// A route after it was asked at `now` to take a call: unless it is closed, a route
/// that may receive traffic has handed out its trial.
pub open spec fn admitted(h: Health, now: u128) -> Health {
    match h.state {
        BreakerState::Closed => h,
        _ => if available(h, now) {
            Health { state: BreakerState::HalfOpen { trial_out: true }, ..h }
        } else {
            h
        },
    }
}

/// The number of outcomes after one more, held at the bound of its type.
pub open spec fn one_more(samples: u64) -> u64 {
    if samples < u64::MAX {
        (samples + 1) as u64
    } else {
        u64::MAX
    }
}

/// A route after the outcome of one call was recorded at `now`.
pub open spec fn recorded(h: Health, success: bool, now: u128) -> Health {
    let counted = Health {
        rate: smoothed(h.rate, success),
        samples: one_more(h.samples),
        ..h
    };
    match h.state {
        BreakerState::HalfOpen { .. } => if success {
            Health {
                rate: Ratio { units: RATIO_ONE },
                samples: 0,
                state: BreakerState::Closed,
                ..h
            }
        } else {
            Health { state: BreakerState::Open { opened_at: now }, ..counted }
        },
        BreakerState::Closed => if counted.samples >= MIN_SAMPLES_BEFORE_TRIP
            && counted.rate.units < h.failure_threshold.units {
            Health { state: BreakerState::Open { opened_at: now }, ..counted }
        } else {
            counted
        },
        BreakerState::Open { .. } => counted,
    }
}

/// The success rate is a fraction between zero and one.
pub open spec fn well_formed(h: Health) -> bool {
    h.rate.units <= RATIO_ONE
}

/// Statistics and breaker of one route, with the clock that times its rests.
#[derive(Clone, Copy, Debug)]
pub struct RouteStats {
    health: Health,
    clock: RouteClock,
}

impl View for RouteStats {
    type V = Health;

    closed spec fn view(&self) -> Health {
        self.health
    }
}

impl RouteStats {
    #[verifier::type_invariant]
    spec fn rate_is_a_fraction(self) -> bool {
        well_formed(self.health)
    }

    /// The instant from which the clock of the route counts.
    pub closed spec fn origin(&self) -> Instant {
        self.clock.spec_origin()
    }

    /// The reading of the clock that was taken last.
    pub closed spec fn last_reading(&self) -> nat {
        self.clock.last_reading()
    }

    /// How often the clock of the route was read.
    pub closed spec fn readings(&self) -> u64 {
        self.clock.readings()
    }

    /// A route that was never used. Below the success rate `failure_threshold`
    /// its breaker opens, for `cooldown` nanoseconds.
    pub fn new(failure_threshold: Ratio, cooldown: u128) -> (r: RouteStats)
        ensures
            r@ == fresh(failure_threshold, cooldown),
    {
        RouteStats::with_clock(failure_threshold, cooldown, Instant::now())
    }

    /// A route that was never used, timed from the given origin.
    pub fn with_clock(failure_threshold: Ratio, cooldown: u128, clock: Instant) -> (r: RouteStats)
        ensures
            r@ == fresh(failure_threshold, cooldown),
            r.origin() == clock,
            r.last_reading() == span(clock, clock),
            r.readings() == 0,
    {
        RouteStats {
            health: Health {
                rate: Ratio { units: RATIO_ONE },
                samples: 0,
                state: BreakerState::Closed,
                cooldown,
                failure_threshold,
            },
            clock: RouteClock::counting_from(clock),
        }
    }

    /// Times the route by another clock.
    pub(crate) fn time_from(&mut self, clock: RouteClock)
        ensures
            final(self)@ == old(self)@,
            final(self).origin() == clock.spec_origin(),
            final(self).last_reading() == clock.last_reading(),
            final(self).readings() == clock.readings(),
    {
        proof {
            use_type_invariant(&*self);
        }
        self.clock = clock;
    }

    /// Reads the clock of the route.
    fn advance(&mut self) -> (now: u128)
        ensures
            clock_shows(old(self).origin(), now),
            now >= old(self).last_reading(),
            final(self).last_reading() == now,
            final(self).readings() == one_reading_more(old(self).readings()),
            final(self)@ == old(self)@,
            final(self).origin() == old(self).origin(),
    {
        proof {
            use_type_invariant(&*self);
        }
        let mut clock: RouteClock = self.clock;
        let now: u128 = clock.read();
        self.clock = clock;
        now
    }

    /// The smoothed success rate.
    pub fn success_rate(&self) -> (r: Ratio)
        ensures
            r == self@.rate,
            r.units <= RATIO_ONE,
    {
        proof {
            use_type_invariant(self);
        }
        self.health.rate
    }

    /// The number of outcomes recorded since the route was new or recovered.
    pub fn samples(&self) -> (n: u64)
        ensures
            n == self@.samples,
    {
        self.health.samples
    }

    /// Whether the breaker is open.
    pub fn is_open(&self) -> (b: bool)
        ensures
            b == (self@.state is Open),
    {
        match self.health.state {
            BreakerState::Open { .. } => true,
            _ => false,
        }
    }

    /// Whether the breaker is half-open.
    pub fn is_half_open(&self) -> (b: bool)
        ensures
            b == (self@.state is HalfOpen),
    {
        match self.health.state {
            BreakerState::HalfOpen { .. } => true,
            _ => false,
        }
    }

    /// Whether the route may receive traffic now. Once the cooldown of an open
    /// breaker is over, the first to ask is given the trial and the others are
    /// refused until its outcome is recorded.
    pub fn is_available(&mut self) -> (b: bool)
        ensures
            exists|now: u128| #[trigger]
                clock_shows(old(self).origin(), now) && now >= old(self).last_reading()
                    && final(self).last_reading() == now && b == available(old(self)@, now)
                    && final(self)@ == admitted(old(self)@, now),
            old(self)@.state is Closed ==> b && final(self)@ == old(self)@,
            !(old(self)@.state is Closed) && b ==> final(self)@ == (Health {
                state: BreakerState::HalfOpen { trial_out: true },
                ..old(self)@
            }),
            !b ==> final(self)@ == old(self)@,
            final(self).origin() == old(self).origin(),
            final(self).readings() == one_reading_more(old(self).readings()),
    {
        let now: u128 = self.advance();
        self.is_available_at(now)
    }

    /// Whether the route may receive traffic at `now`. Once the cooldown of an
    /// open breaker is over, the first to ask is given the trial and the others are
    /// refused until its outcome is recorded.
    pub fn is_available_at(&mut self, now: u128) -> (b: bool)
        ensures
            b == available(old(self)@, now),
            final(self)@ == admitted(old(self)@, now),
            final(self).origin() == old(self).origin(),
            final(self).last_reading() == old(self).last_reading(),
            final(self).readings() == old(self).readings(),
    {
        proof {
            use_type_invariant(&*self);
        }
        match self.health.state {
            BreakerState::Closed => true,
            _ => {
                let ready: bool = self.looks_available_at(now);
                proof {
                    use_type_invariant(&*self);
                }
                if ready {
                    self.health.state = BreakerState::HalfOpen { trial_out: true };
                }
                ready
            },
        }
    }

    /// Whether the route may receive traffic at `now`, without asking for the
    /// trial. An open breaker whose cooldown is over becomes half-open.
    pub fn looks_available_at(&mut self, now: u128) -> (b: bool)
        ensures
            b == available(old(self)@, now),
            final(self)@ == settled(old(self)@, now),
            final(self).origin() == old(self).origin(),
            final(self).last_reading() == old(self).last_reading(),
            final(self).readings() == old(self).readings(),
    {
        proof {
            use_type_invariant(&*self);
        }
        match self.health.state {
            BreakerState::Closed => true,
            BreakerState::HalfOpen { trial_out } => !trial_out,
            BreakerState::Open { opened_at } => {
                if now.saturating_sub(opened_at) >= self.health.cooldown {
                    self.health.state = BreakerState::HalfOpen { trial_out: false };
                    true
                } else {
                    false
                }
            },
        }
    }

    /// Records the outcome of a call that ended now.
    pub fn record(&mut self, success: bool)
        ensures
            exists|now: u128| #[trigger]
                clock_shows(old(self).origin(), now) && now >= old(self).last_reading()
                    && final(self).last_reading() == now && final(self)@ == recorded(
                    old(self)@,
                    success,
                    now,
                ),
            old(self)@.state is Closed ==> follows_the_average(old(self)@, success, final(self)@),
            final(self).origin() == old(self).origin(),
            final(self).readings() == one_reading_more(old(self).readings()),
    {
        let now: u128 = self.advance();
        self.record_at(success, now);
    }

    /// Records the outcome of a call that ended at `now`.
    pub fn record_at(&mut self, success: bool, now: u128)
        ensures
            final(self)@ == recorded(old(self)@, success, now),
            old(self)@.state is Closed ==> follows_the_average(old(self)@, success, final(self)@),
            final(self).origin() == old(self).origin(),
            final(self).last_reading() == old(self).last_reading(),
            final(self).readings() == old(self).readings(),
    {
        proof {
            use_type_invariant(&*self);
        }
        let outcome: u128 = if success {
            3 * (RATIO_ONE as u128)
        } else {
            0
        };
        let average: u128 = (outcome + 7 * (self.health.rate.units as u128)) / 10;
        let mut health: Health = self.health;
        health.samples = health.samples.saturating_add(1);
        health.rate = Ratio { units: average as u64 };
        match health.state {
            BreakerState::HalfOpen { .. } => {
                if success {
                    health.state = BreakerState::Closed;
                    health.rate = Ratio { units: RATIO_ONE };
                    health.samples = 0;
                } else {
                    health.state = BreakerState::Open { opened_at: now };
                }
            },
            BreakerState::Closed => {
                if health.samples >= MIN_SAMPLES_BEFORE_TRIP && health.rate.units
                    < health.failure_threshold.units {
                    health.state = BreakerState::Open { opened_at: now };
                }
            },
            BreakerState::Open { .. } => {},
        }
        self.health = health;
    }
}

/// What one outcome on a closed breaker leads to: one more outcome is counted, the
/// average moves by three tenths towards it and stays a fraction, and the breaker
/// opens exactly if there are enough outcomes and the average is too low.
pub open spec fn follows_the_average(before: Health, success: bool, after: Health) -> bool {
    &&& after.samples == one_more(before.samples)
    &&& after.rate.units == ((if success {
        3 * RATIO_ONE
    } else {
        0
    }) + 7 * before.rate.units) / 10
    &&& after.rate.units <= RATIO_ONE
    &&& success ==> after.rate.units >= before.rate.units
    &&& !success ==> after.rate.units <= before.rate.units
    &&& after.state is Open <==> after.samples >= MIN_SAMPLES_BEFORE_TRIP && after.rate.units
        < before.failure_threshold.units
    &&& !(after.state is Open) ==> after.state is Closed
    &&& after.cooldown == before.cooldown
    &&& after.failure_threshold == before.failure_threshold
}

/// A new route is well formed, and stays so whatever is asked or recorded.
pub proof fn law_rate_stays_a_fraction(h: Health, success: bool, now: u128)
    requires
        well_formed(h),
    ensures
        well_formed(fresh(h.failure_threshold, h.cooldown)),
        well_formed(recorded(h, success, now)),
        well_formed(settled(h, now)),
        well_formed(admitted(h, now)),
{
}

/// A success never lowers the success rate and a failure never raises it.
pub proof fn law_rate_follows_outcomes(h: Health, now: u128)
    requires
        well_formed(h),
    ensures
        recorded(h, true, now).rate.units >= h.rate.units,
        recorded(h, false, now).rate.units <= h.rate.units,
        h.rate.units > 0 ==> recorded(h, false, now).rate.units < h.rate.units,
{
}

/// A breaker only opens once enough outcomes were recorded, on a failure rate
/// that is too high: a closed route with fewer outcomes stays closed.
pub proof fn law_no_trip_on_too_few_samples(h: Health, success: bool, now: u128)
    requires
        h.state is Closed,
        h.samples + 1 < MIN_SAMPLES_BEFORE_TRIP,
    ensures
        recorded(h, success, now).state is Closed,
{
}

/// An open route is refused traffic until its cooldown is over, whatever is
/// recorded of it meanwhile; then it is let through once more.
pub proof fn law_open_route_rests_for_its_cooldown(
    h: Health,
    opened_at: u128,
    success: bool,
    now: u128,
)
    requires
        h.state == (BreakerState::Open { opened_at }),
    ensures
        rested(opened_at, now) < h.cooldown ==> !available(h, now) && settled(h, now) == h,
        rested(opened_at, now) >= h.cooldown ==> available(h, now) && settled(h, now).state
            is HalfOpen,
        recorded(h, success, now).state == h.state,
        recorded(h, success, now).cooldown == h.cooldown,
{
}

/// A single trial is handed out: once a route that is not closed let a call
/// through, it refuses every further one, at any time, until an outcome is recorded.
pub proof fn law_a_single_trial_is_handed_out(h: Health, now: u128, later: u128)
    requires
        !(h.state is Closed),
        available(h, now),
    ensures
        !available(admitted(h, now), later),
        admitted(admitted(h, now), later) == admitted(h, now),
        settled(admitted(h, now), later) == admitted(h, now),
{
}

/// One trial decides: the first outcome recorded while half-open leaves that
/// state, closing the breaker on a success and opening it anew on a failure.
pub proof fn law_one_trial_decides(h: Health, now: u128)
    requires
        h.state is HalfOpen,
    ensures
        recorded(h, true, now).state is Closed,
        recorded(h, false, now).state == (BreakerState::Open { opened_at: now }),
{
}

/// A route that recovers starts over like a new one.
pub proof fn law_recovery_is_a_fresh_start(h: Health, now: u128)
    requires
        h.state is HalfOpen,
    ensures
        recorded(h, true, now) == fresh(h.failure_threshold, h.cooldown),
{
}

/// A single failure right after a recovery does not open the breaker again.
pub proof fn law_one_failure_after_recovery_does_not_reopen(h: Health, closed_at: u128, now: u128)
    requires
        h.state is HalfOpen,
    ensures
        recorded(recorded(h, true, closed_at), false, now).state is Closed,
{
}

/// Looking hands out nothing: looking twice at the same time is looking once, the
/// trial is still there to be asked for, and nothing is recorded.
pub proof fn law_looking_hands_out_nothing(h: Health, now: u128)
    ensures
        settled(settled(h, now), now) == settled(h, now),
        available(settled(h, now), now) == available(h, now),
        admitted(settled(h, now), now) == admitted(h, now),
        settled(h, now).rate == h.rate,
        settled(h, now).samples == h.samples,
{
}

/// A route after failures in a row, the `i`-th of them at `times[i]`.
pub open spec fn after_failures(h: Health, times: Seq<u128>) -> Health
    decreases times.len(),
{
    if times.len() == 0 {
        h
    } else {
        recorded(after_failures(h, times.drop_last()), false, times.last())
    }
}

/// Fewer than five failures leave a new route closed. From the fifth on it is
/// open, if the threshold is above seven tenths to the fifth power.
pub proof fn law_repeated_failures_open_a_new_route(
    failure_threshold: Ratio,
    cooldown: u128,
    times: Seq<u128>,
)
    ensures
        times.len() < 5 ==> after_failures(fresh(failure_threshold, cooldown), times).state
            is Closed,
        times.len() >= 5 && 100_000 * failure_threshold.units > 16_807 * RATIO_ONE ==> (
        after_failures(fresh(failure_threshold, cooldown), times).state == BreakerState::Open {
            opened_at: times[4],
        }),
    decreases times.len(),
{
    let h = fresh(failure_threshold, cooldown);
    if times.len() > 5 {
        law_repeated_failures_open_a_new_route(failure_threshold, cooldown, times.drop_last());
    } else {
        reveal_with_fuel(after_failures, 7);
    }
}

/// A route that does nothing but fail is put to rest in the end, however low the
/// threshold: each failure takes at least one unit off its success rate.
pub proof fn law_persistent_failures_open_any_route(h: Health, times: Seq<u128>)
    requires
        h.state is Closed,
        h.failure_threshold.units > 0,
        times.len() >= MIN_SAMPLES_BEFORE_TRIP,
        times.len() > h.rate.units,
    ensures
        after_failures(h, times).state is Open,
{
    lemma_failures_wear_the_rate_down(h, times);
}

proof fn lemma_failures_wear_the_rate_down(h: Health, times: Seq<u128>)
    requires
        h.state is Closed,
    ensures
        ({
            let g = after_failures(h, times);
            &&& g.failure_threshold == h.failure_threshold
            &&& g.state is Open || {
                &&& g.state is Closed
                &&& g.samples >= times.len() || g.samples == u64::MAX
                &&& g.rate.units <= h.rate.units - times.len() || g.rate.units == 0
                &&& times.len() > 0 && g.samples >= MIN_SAMPLES_BEFORE_TRIP ==> g.rate.units
                    >= h.failure_threshold.units
            }
        }),
    decreases times.len(),
{
    if times.len() > 0 {
        lemma_failures_wear_the_rate_down(h, times.drop_last());
    }
}

} // verus!
