//! Cost model per route.
//!
//! The rates are indicative and configurable: every deployment sets its own
//! before it trusts the amounts.

use crate::routes::RouteMap;
use crate::units::{clamp, Usd};
use vstd::prelude::*;

verus! {

/// The rates of a route, in nano-dollars for 1000 tokens of input and of output.
#[derive(Clone, Copy, Debug, PartialEq, Eq, Structural)]
pub struct RoutePricing {
    pub cost_per_1k_input: i64,
    pub cost_per_1k_output: i64,
}

/// What tokens cost at given rates, in pico-dollars.
pub open spec fn cost_at(rates: RoutePricing, input_tokens: int, output_tokens: int) -> int {
    clamp(input_tokens * rates.cost_per_1k_input + output_tokens * rates.cost_per_1k_output)
}

/// The rates of a route that costs nothing.
pub open spec fn free() -> RoutePricing {
    RoutePricing { cost_per_1k_input: 0, cost_per_1k_output: 0 }
}

fn tokens_at_rate(tokens: usize, rate: i64) -> (r: i128)
    ensures
        r == tokens * rate,
{
    assert(-0x8000_0000_0000_0000 * 0xffff_ffff_ffff_ffff <= tokens * rate
        <= 0x7fff_ffff_ffff_ffff * 0xffff_ffff_ffff_ffff) by (nonlinear_arith)
        requires
            0 <= tokens <= 0xffff_ffff_ffff_ffff,
            -0x8000_0000_0000_0000 <= rate <= 0x7fff_ffff_ffff_ffff,
    ;
    (tokens as i128) * (rate as i128)
}

impl RoutePricing {
    /// The rates of a route that costs nothing.
    pub fn free() -> (r: RoutePricing)
        ensures
            r == free(),
    {
        RoutePricing { cost_per_1k_input: 0, cost_per_1k_output: 0 }
    }

    /// The cost of a number of input and output tokens.
    pub fn cost_for(&self, input_tokens: usize, output_tokens: usize) -> (r: Usd)
        ensures
            r.pico == cost_at(*self, input_tokens as int, output_tokens as int),
    {
        let input = Usd { pico: tokens_at_rate(input_tokens, self.cost_per_1k_input) };
        let output = Usd { pico: tokens_at_rate(output_tokens, self.cost_per_1k_output) };
        input.plus(output)
    }
}

/// Rates by route name.
pub struct PricingTable {
    rates: RouteMap<RoutePricing>,
}

impl View for PricingTable {
    type V = Map<Seq<char>, RoutePricing>;

    closed spec fn view(&self) -> Map<Seq<char>, RoutePricing> {
        self.rates@
    }
}

/// What tokens cost on a route, in pico-dollars: nothing on a route without rates.
pub open spec fn cost_on(
    table: Map<Seq<char>, RoutePricing>,
    route: Seq<char>,
    input_tokens: int,
    output_tokens: int,
) -> int {
    if table.contains_key(route) {
        cost_at(table[route], input_tokens, output_tokens)
    } else {
        0
    }
}

/// The rates of the economical example route.
pub open spec fn example_cheap() -> RoutePricing {
    RoutePricing { cost_per_1k_input: 150_000_000, cost_per_1k_output: 600_000_000 }
}

/// The rates of the premium example route.
pub open spec fn example_premium() -> RoutePricing {
    RoutePricing { cost_per_1k_input: 2_500_000_000, cost_per_1k_output: 10_000_000_000 }
}

/// The example table: a free local route, an economical and a premium one.
pub open spec fn example_table() -> Map<Seq<char>, RoutePricing> {
    Map::<Seq<char>, RoutePricing>::empty().insert("local"@, free()).insert(
        "paid-cheap"@,
        example_cheap(),
    ).insert("paid-premium"@, example_premium())
}

impl PricingTable {
    /// A table without routes.
    pub fn new() -> (r: PricingTable)
        ensures
            r@ == Map::<Seq<char>, RoutePricing>::empty(),
    {
        PricingTable { rates: RouteMap::new() }
    }

    /// An example with the three usual routes, at indicative rates.
    pub fn example_default() -> (r: PricingTable)
        ensures
            r@ == example_table(),
    {
        let mut table = PricingTable::new();
        table.set("local", RoutePricing::free());
        table.set(
            "paid-cheap",
            RoutePricing { cost_per_1k_input: 150_000_000, cost_per_1k_output: 600_000_000 },
        );
        table.set(
            "paid-premium",
            RoutePricing { cost_per_1k_input: 2_500_000_000, cost_per_1k_output: 10_000_000_000 },
        );
        table
    }

    /// Sets the rates of a route, in place of any that it had.
    pub fn set(&mut self, route: &str, pricing: RoutePricing)
        ensures
            final(self)@ == old(self)@.insert(route@, pricing),
    {
        self.rates.insert(route, pricing);
    }

    /// The rates of a route, if it has any.
    pub fn get(&self, route: &str) -> (r: Option<RoutePricing>)
        ensures
            r == (if self@.contains_key(route@) {
                Some(self@[route@])
            } else {
                None
            }),
    {
        match self.rates.get(route) {
            Some(pricing) => Some(*pricing),
            None => None,
        }
    }

    /// The cost of a call on a route; a route without rates costs nothing.
    pub fn cost_for(&self, route: &str, input_tokens: usize, output_tokens: usize) -> (r: Usd)
        ensures
            r.pico == cost_on(self@, route@, input_tokens as int, output_tokens as int),
    {
        match self.get(route) {
            Some(pricing) => pricing.cost_for(input_tokens, output_tokens),
            None => Usd::zero(),
        }
    }
}

impl Default for PricingTable {
    fn default() -> (r: PricingTable)
        ensures
            r@ == example_table(),
    {
        PricingTable::example_default()
    }
}

/// A free route costs nothing, whatever the number of tokens.
pub proof fn law_free_route_costs_nothing(input_tokens: nat, output_tokens: nat)
    ensures
        cost_at(free(), input_tokens as int, output_tokens as int) == 0,
{
}

/// Rates that were set are read back, and those of other routes are kept.
pub proof fn law_rates_are_read_back(
    table: Map<Seq<char>, RoutePricing>,
    route: Seq<char>,
    pricing: RoutePricing,
    other: Seq<char>,
    input_tokens: nat,
    output_tokens: nat,
)
    ensures
        cost_on(table.insert(route, pricing), route, input_tokens as int, output_tokens as int)
            == cost_at(pricing, input_tokens as int, output_tokens as int),
        other != route ==> cost_on(
            table.insert(route, pricing),
            other,
            input_tokens as int,
            output_tokens as int,
        ) == cost_on(table, other, input_tokens as int, output_tokens as int),
{
}

/// Costs add up: two calls together cost what they cost one by one, as long as
/// the amounts can be held.
pub proof fn law_cost_is_linear(
    rates: RoutePricing,
    in1: nat,
    out1: nat,
    in2: nat,
    out2: nat,
)
    requires
        i128::MIN <= in1 * rates.cost_per_1k_input + out1 * rates.cost_per_1k_output <= i128::MAX,
        i128::MIN <= in2 * rates.cost_per_1k_input + out2 * rates.cost_per_1k_output <= i128::MAX,
    ensures
        cost_at(rates, (in1 + in2) as int, (out1 + out2) as int) == clamp(
            cost_at(rates, in1 as int, out1 as int) + cost_at(rates, in2 as int, out2 as int),
        ),
{
    let i = rates.cost_per_1k_input as int;
    let o = rates.cost_per_1k_output as int;
    assert((in1 + in2) * i + (out1 + out2) * o == (in1 * i + out1 * o) + (in2 * i + out2 * o))
        by (nonlinear_arith);
}

/// At rates that are not negative, more tokens never cost less, and no number of
/// tokens costs less than nothing.
pub proof fn law_cost_grows_with_tokens(
    rates: RoutePricing,
    in1: nat,
    out1: nat,
    in2: nat,
    out2: nat,
)
    requires
        rates.cost_per_1k_input >= 0,
        rates.cost_per_1k_output >= 0,
        in1 <= in2,
        out1 <= out2,
    ensures
        0 <= cost_at(rates, in1 as int, out1 as int) <= cost_at(rates, in2 as int, out2 as int),
{
    let i = rates.cost_per_1k_input as int;
    let o = rates.cost_per_1k_output as int;
    assert(0 <= in1 * i <= in2 * i) by (nonlinear_arith)
        requires
            0 <= in1 <= in2,
            0 <= i,
    ;
    assert(0 <= out1 * o <= out2 * o) by (nonlinear_arith)
        requires
            0 <= out1 <= out2,
            0 <= o,
    ;
}

/// In the example table the local route is free and each tier costs more than
/// the one below, for any call that uses tokens.
pub proof fn law_example_tiers_cost_more_and_more(input_tokens: usize, output_tokens: usize)
    ensures
        cost_on(example_table(), "local"@, input_tokens as int, output_tokens as int) == 0,
        input_tokens > 0 || output_tokens > 0 ==> 0 < cost_on(
            example_table(),
            "paid-cheap"@,
            input_tokens as int,
            output_tokens as int,
        ) < cost_on(
            example_table(),
            "paid-premium"@,
            input_tokens as int,
            output_tokens as int,
        ),
{
    reveal_strlit("local");
    reveal_strlit("paid-cheap");
    reveal_strlit("paid-premium");
    assert("local"@.len() != "paid-cheap"@.len());
    assert("local"@.len() != "paid-premium"@.len());
    assert("paid-cheap"@.len() != "paid-premium"@.len());
}

} // verus!
