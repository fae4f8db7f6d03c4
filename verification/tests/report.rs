use cost_autopilot::report::summarize;
use cost_autopilot::store::RoutingEvent;
use cost_autopilot::{PricingTable, Ratio, Usd};

fn event(route: &str, cost_micro: i128, output: usize, latency: u64, success: bool) -> RoutingEvent {
    RoutingEvent {
        timestamp: 1,
        route: route.to_string(),
        complexity: Ratio::percent(40),
        input_tokens: 1000,
        output_tokens: output,
        cost_usd: Usd {
            pico: cost_micro * 1_000_000,
        },
        latency_ms: latency,
        success,
        fallback: false,
        decision_reason: String::new(),
    }
}

#[test]
fn a_report_compares_with_the_premium_route() {
    let events = vec![
        event("local", 0, 1000, 4, true),
        event("paid-cheap", 750_000, 1000, 30, true),
        event("paid-cheap", 0, 0, 50, false),
        event("ailleurs", 0, 1000, 9, true),
    ];
    let report = summarize(&events, &PricingTable::example_default());
    assert_eq!(report.events, 4);
    assert_eq!(report.total_cost.pico, 750_000_000_000);
    // Three times 12.50 dollars, and 2.51 dollars with a single output token.
    assert_eq!(report.baseline_cost.pico, 40_010_000_000_000);
    assert_eq!(report.savings.pico, 39_260_000_000_000);

    assert_eq!(report.routes.len(), 2);
    assert_eq!(report.routes[0].route, "local");
    assert_eq!(report.routes[0].calls, 1);
    assert_eq!(report.routes[1].route, "paid-cheap");
    assert_eq!(report.routes[1].calls, 2);
    assert_eq!(report.routes[1].successes, 1);
    assert_eq!(report.routes[1].cost_usd.pico, 750_000_000_000);
    assert_eq!(report.routes[1].latency_ms, 80);
}

#[test]
fn a_report_of_nothing_is_empty() {
    let report = summarize(&vec![], &PricingTable::example_default());
    assert_eq!(report.events, 0);
    assert_eq!(report.savings.pico, 0);
    assert!(report.routes.is_empty());
}

#[test]
fn premium_requests_save_nothing() {
    let events = vec![event("paid-premium", 12_500_000, 1000, 1, true); 3];
    let report = summarize(&events, &PricingTable::example_default());
    assert_eq!(report.total_cost, report.baseline_cost);
    assert_eq!(report.savings.pico, 0);
}

#[test]
fn the_tiers_share_out_the_events() {
    let events = vec![
        event("paid-premium", 1, 1, 1, true),
        event("local", 0, 1, 1, false),
        event("local", 0, 1, 1, true),
    ];
    let report = summarize(&events, &PricingTable::example_default());
    let calls: usize = report.routes.iter().map(|s| s.calls).sum();
    assert_eq!(calls, report.events);
    assert_eq!(report.routes[0].successes, 1);
    assert_eq!(report.routes[1].route, "paid-premium");
}
