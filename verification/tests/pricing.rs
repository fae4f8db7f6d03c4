use cost_autopilot::units::PICO_PER_USD;
use cost_autopilot::{PricingTable, RoutePricing, Usd};

/// Dollars for 1000 tokens as a rate, in thousandths of a dollar.
fn rate(milli: i64) -> i64 {
    milli * 1_000_000
}

fn dollars(n: i128) -> Usd {
    Usd {
        pico: n * PICO_PER_USD as i128,
    }
}

#[test]
fn free_route_costs_nothing() {
    assert_eq!(
        RoutePricing::free().cost_for(1_000_000, 1_000_000),
        dollars(0)
    );
}

#[test]
fn cost_scales_linearly_with_tokens() {
    let pricing = RoutePricing {
        cost_per_1k_input: rate(1000),
        cost_per_1k_output: rate(2000),
    };
    assert_eq!(pricing.cost_for(1000, 0), dollars(1));
    assert_eq!(pricing.cost_for(0, 1000), dollars(2));
    assert_eq!(pricing.cost_for(2000, 500), dollars(3));
}

#[test]
fn example_default_has_three_tiers_with_increasing_cost() {
    let table = PricingTable::example_default();
    let local = table.cost_for("local", 1000, 1000);
    let cheap = table.cost_for("paid-cheap", 1000, 1000);
    let premium = table.cost_for("paid-premium", 1000, 1000);
    assert_eq!(local, dollars(0));
    assert!(cheap > local);
    assert!(premium > cheap);
}

#[test]
fn unknown_route_costs_zero_rather_than_panicking() {
    let table = PricingTable::new();
    assert_eq!(table.cost_for("does-not-exist", 1000, 1000), dollars(0));
}

#[test]
fn custom_pricing_can_be_set_and_read_back() {
    let mut table = PricingTable::new();
    table.set(
        "custom",
        RoutePricing {
            cost_per_1k_input: rate(5000),
            cost_per_1k_output: rate(5000),
        },
    );
    assert_eq!(table.cost_for("custom", 1000, 1000), dollars(10));
}

#[test]
fn example_rates_are_exact() {
    let table = PricingTable::default();
    // 0.15 and 0.60 dollars, 2.50 and 10.00 dollars for 1000 tokens.
    assert_eq!(
        table.cost_for("paid-cheap", 1, 0).pico,
        150_000_000
    );
    assert_eq!(
        table.cost_for("paid-cheap", 1000, 1000).pico,
        750_000_000_000
    );
    assert_eq!(
        table.cost_for("paid-premium", 1000, 1000).pico,
        12_500_000_000_000
    );
}

#[test]
fn setting_a_route_again_replaces_its_rates() {
    let mut table = PricingTable::example_default();
    table.set("paid-cheap", RoutePricing::free());
    assert_eq!(table.cost_for("paid-cheap", 1000, 1000), dollars(0));
    assert_eq!(
        table.get("paid-premium"),
        Some(RoutePricing {
            cost_per_1k_input: rate(2500),
            cost_per_1k_output: rate(10_000),
        })
    );
    assert_eq!(table.get("nowhere"), None);
}

#[test]
fn amounts_are_held_at_their_bounds() {
    let dear = RoutePricing {
        cost_per_1k_input: i64::MAX,
        cost_per_1k_output: i64::MAX,
    };
    assert_eq!(dear.cost_for(usize::MAX, usize::MAX).pico, i128::MAX);
    let rebate = RoutePricing {
        cost_per_1k_input: i64::MIN,
        cost_per_1k_output: i64::MIN,
    };
    assert_eq!(rebate.cost_for(usize::MAX, usize::MAX).pico, i128::MIN);
    assert_eq!(
        Usd { pico: i128::MAX }.plus(Usd { pico: 1 }).pico,
        i128::MAX
    );
    assert_eq!(
        Usd { pico: i128::MIN }.minus(Usd { pico: 1 }).pico,
        i128::MIN
    );
    assert_eq!(
        Usd { pico: 1 }.minus(Usd { pico: i128::MIN }).pico,
        i128::MAX
    );
}

#[test]
fn costs_add_up_and_grow_with_tokens() {
    let table = PricingTable::example_default();
    let cost = |input: usize, output: usize| table.cost_for("paid-cheap", input, output);
    assert_eq!(cost(3, 4).plus(cost(10, 20)), cost(13, 24));
    assert!(cost(3, 4) < cost(4, 4));
    assert!(cost(3, 4) < cost(3, 5));
    assert!(cost(0, 1) < table.cost_for("paid-premium", 0, 1));
}
