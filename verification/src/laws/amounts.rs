//! Rates, rounding and clock readings as plain arithmetic.

use crate::clock::{is_unix_second, unix_nanos};
use crate::engine::is_latency;
use crate::laws::decision::held;
use crate::laws::run::bill;
use crate::pricing::{cost_at, cost_on, example_table, RoutePricing};
use crate::store::in_day_of;
use crate::units::{binary_scale, cents_of, clamp, magnitude, nearest};
use std::time::SystemTime;
use vstd::prelude::*;

verus! {

/// The cost of a call is the tokens of input times the input rate and those of
/// output times the output rate, and nothing on a route without rates.
pub proof fn law_a_cost_is_tokens_times_rates(
    table: Map<Seq<char>, RoutePricing>,
    route: Seq<char>,
    input: int,
    output: int,
)
    ensures
        cost_on(table, route, input, output) == bill(table, route, input, output),
        table.contains_key(route) ==> cost_at(table[route], input, output) == held(
            input * table[route].cost_per_1k_input + output * table[route].cost_per_1k_output,
        ),
{
}

/// The example rates: nothing on local, 0.15 and 0.60 dollars for 1000 tokens on
/// paid-cheap, 2.50 and 10.00 on paid-premium, and no other route.
pub proof fn law_the_example_rates(input: nat, output: nat, route: Seq<char>)
    requires
        input <= u64::MAX,
        output <= u64::MAX,
    ensures
        cost_on(example_table(), "local"@, input as int, output as int) == 0,
        1000 * cost_on(example_table(), "paid-cheap"@, input as int, output as int) == input
            * 150_000_000_000 + output * 600_000_000_000,
        1000 * cost_on(example_table(), "paid-premium"@, input as int, output as int) == input
            * 2_500_000_000_000 + output * 10_000_000_000_000,
        example_table().contains_key(route) <==> route == "local"@ || route == "paid-cheap"@
            || route == "paid-premium"@,
{
    crate::router::lemma_tiers_differ();
    crate::pricing::law_free_route_costs_nothing(input, output);
}

/// An amount is held as it is, if it can be, and else at the nearer bound.
pub proof fn law_amounts_are_held_at_their_bounds(x: int)
    ensures
        clamp(x) == held(x),
        magnitude(x) == x || magnitude(x) == -x,
        magnitude(x) >= 0,
{
}

/// Rounding gives a whole number at most half a unit away, and the even one of two
/// that are equally near.
pub proof fn law_rounding_is_to_the_nearest(n: nat, d: nat)
    requires
        d > 0,
    ensures
        ({
            let q = nearest(n, d);
            &&& 2 * (q * d - n) <= d
            &&& 2 * (n - q * d) <= d
            &&& 2 * (q * d - n) == d || 2 * (n - q * d) == d ==> q % 2 == 0
        }),
{
    let whole = n / d;
    let rest = n % d;
    vstd::arithmetic::div_mod::lemma_fundamental_div_mod(n as int, d as int);
    assert(d * whole == whole * d) by (nonlinear_arith);
    assert((whole + 1) * d == whole * d + d) by (nonlinear_arith);
    assert(rest < d) by {
        vstd::arithmetic::div_mod::lemma_mod_bound(n as int, d as int);
    }
}

proof fn lemma_scale(pico: nat, scale: nat)
    requires
        0 < scale < 2_535_301_200_456_458_802_993_406_410_752,
        0 < pico < 1_000_000_000_000_000_000,
    ensures
        binary_scale(pico, scale) > 0,
        pico * binary_scale(pico, scale) >= 4_503_599_627_370_496_000_000_000_000 || binary_scale(
            pico,
            scale,
        ) >= 1_267_650_600_228_229_401_496_703_205_376,
    decreases 2_535_301_200_456_458_802_993_406_410_752 - scale,
{
    if scale < 1_267_650_600_228_229_401_496_703_205_376 && pico * scale
        < 4_503_599_627_370_496_000_000_000_000 {
        lemma_scale(pico, 2 * scale);
    }
}

/// The cents in which an amount below a million dollars is written are within half a
/// cent of it, but for the rounding of its binary form: 112 pico-dollars at most.
pub proof fn law_cents_are_within_half_a_cent(pico: nat)
    requires
        pico < 1_000_000_000_000_000_000,
    ensures
        cents_of(pico) * 10_000_000_000 - pico <= 5_000_000_112,
        pico - cents_of(pico) * 10_000_000_000 <= 5_000_000_112,
{
    if pico == 0 {
        let scale = binary_scale(0, 1);
        lemma_zero_scale(1);
        assert(0 * scale == 0) by (nonlinear_arith);
        assert(nearest(0, 1_000_000_000_000) == 0);
        law_rounding_is_to_the_nearest(0, scale);
        let q = nearest(0, scale);
        assert(2 * (q * scale) <= scale ==> q == 0) by (nonlinear_arith)
            requires
                scale > 0,
                q >= 0,
        ;
    } else {
        let scale = binary_scale(pico, 1) as int;
        lemma_scale(pico, 1);
        let q = nearest((pico * scale) as nat, 1_000_000_000_000) as int;
        let h = nearest((100 * q) as nat, scale as nat) as int;
        assert(pico * scale >= 0) by (nonlinear_arith)
            requires
                pico >= 0,
                scale > 0,
        ;
        law_rounding_is_to_the_nearest((pico * scale) as nat, 1_000_000_000_000);
        law_rounding_is_to_the_nearest((100 * q) as nat, scale as nat);
        assert(h == cents_of(pico));
        assert(scale >= 4_503_599_627) by (nonlinear_arith)
            requires
                scale > 0,
                0 < pico < 1_000_000_000_000_000_000,
                pico * scale >= 4_503_599_627_370_496_000_000_000_000 || scale
                    >= 1_267_650_600_228_229_401_496_703_205_376,
        ;
        let e = h * 10_000_000_000 - pico;
        assert(e * scale == 10_000_000_000 * (h * scale) - pico * scale) by (nonlinear_arith)
            requires
                e == h * 10_000_000_000 - pico,
        ;
        assert(e * scale <= scale * 5_000_000_000 + 500_000_000_000);
        assert(-(e * scale) <= scale * 5_000_000_000 + 500_000_000_000);
        assert(e <= 5_000_000_112 && -e <= 5_000_000_112) by (nonlinear_arith)
            requires
                e * scale <= scale * 5_000_000_000 + 500_000_000_000,
                -(e * scale) <= scale * 5_000_000_000 + 500_000_000_000,
                scale >= 4_503_599_627,
        ;
    }
}

proof fn lemma_zero_scale(scale: nat)
    requires
        0 < scale < 2_535_301_200_456_458_802_993_406_410_752,
    ensures
        binary_scale(0, scale) > 0,
    decreases 2_535_301_200_456_458_802_993_406_410_752 - scale,
{
    if scale < 1_267_650_600_228_229_401_496_703_205_376 {
        assert(0 * scale == 0) by (nonlinear_arith);
        lemma_zero_scale(2 * scale);
    }
}

/// A wall clock reading gives the seconds since 1970 that have passed in full, and
/// none before.
pub proof fn law_seconds_that_have_passed(r: Option<u64>, time: SystemTime)
    requires
        is_unix_second(r, time),
    ensures
        r is None <==> unix_nanos(time) < 0,
        r matches Some(s) ==> s * 1_000_000_000 <= unix_nanos(time) < (s + 1) * 1_000_000_000,
{
}

/// A time lies in the day of another exactly if both have the same number of whole
/// days since 1970.
pub proof fn law_a_day_is_a_whole_number_of_days(t: u64, now: u64)
    ensures
        in_day_of(t, now) <==> t / 86_400 == now / 86_400,
{
    assert(crate::store::day_start(now) == 86_400 * (now / 86_400));
}

/// A latency is the milliseconds that have passed in full between two instants,
/// where they can be held.
pub proof fn law_a_latency_is_in_milliseconds(ms: u64)
    requires
        is_latency(ms),
    ensures
        exists|start: std::time::Instant, end: std::time::Instant|
            (#[trigger] crate::clock::span(end, start)) < 1_000_000 * 0x1_0000_0000_0000_0000
                ==> ms * 1_000_000 <= crate::clock::span(end, start) < (ms + 1) * 1_000_000,
{
    let (start, end) = choose|start: std::time::Instant, end: std::time::Instant|
        ms == (#[trigger] crate::clock::span(end, start) / 1_000_000) as u64;
    let s = crate::clock::span(end, start);
    if s < 1_000_000 * 0x1_0000_0000_0000_0000 {
        assert(s / 1_000_000 < 0x1_0000_0000_0000_0000);
    }
}

} // verus!
