use cost_autopilot::router::RoutingDecision;
use cost_autopilot::{AutopilotConfig, PricingTable, Ratio, Router, Usd, ROUTE_TIERS};
use std::time::{Duration, Instant};

/// An amount in micro-dollars.
fn micro(n: i128) -> Usd {
    Usd { pico: n * 1_000_000 }
}

fn router_with(config: AutopilotConfig) -> Router {
    Router::new(config, PricingTable::example_default())
}

const DEMANDING: &str =
    "Explique pourquoi, étape par étape, cet algorithme est incorrect ```code```. \
                       Compromis ? Architecture ? Preuve ?";

#[test]
fn trivial_prompt_routes_to_local() {
    let mut router = router_with(AutopilotConfig::default());
    let decision = router.decide("Salut !", micro(0));
    assert_eq!(decision.route, "local");
    assert_eq!(decision.estimated_cost_usd, micro(0));
}

#[test]
fn very_complex_prompt_routes_to_premium() {
    let mut router = router_with(AutopilotConfig::default());
    let prompt = format!(
        "{} Explique pourquoi, étape par étape, cet algorithme de tri en O(n^2 + 3*n - 1) \
             est incorrect, et propose une architecture corrigée : ```code buggé``` \
             (complexité mesurée sur 128, 256, 512 et 1024 éléments = 4 essais). \
             Quel est le compromis performance/mémoire ? Comment le prouver formellement ? \
             Et comment le déboguer si la preuve échoue à l'étape 3 ?",
        "contexte détaillé du système de production concerné ".repeat(40)
    );
    let decision = router.decide(&prompt, micro(0));
    assert_eq!(decision.route, "paid-premium");
}

#[test]
fn open_local_circuit_escalates_to_paid_cheap() {
    let mut router = router_with(AutopilotConfig::default());
    for _ in 0..10 {
        router.record_outcome("local", false);
    }
    let decision = router.decide("Salut !", micro(0));
    assert_eq!(decision.route, "paid-cheap");
    assert!(decision.reason.contains("indisponible"));
}

#[test]
fn tight_budget_forces_downgrade_from_premium_to_cheap() {
    let config = AutopilotConfig {
        daily_budget_usd: Some(micro(10_000)),
        ..AutopilotConfig::default()
    };
    let mut router = router_with(config);
    let decision = router.decide(DEMANDING, micro(9_500));
    assert_ne!(decision.route, "paid-premium");
    assert!(decision.forced_by_budget);
}

#[test]
fn exhausted_budget_forces_everything_down_to_local() {
    let config = AutopilotConfig {
        daily_budget_usd: Some(micro(1_000_000)),
        ..AutopilotConfig::default()
    };
    let mut router = router_with(config);
    let decision = router.decide("prompt trivial", micro(1_000_000));
    assert_eq!(decision.route, "local");
}

#[test]
fn no_budget_configured_never_forces_a_downgrade() {
    let mut router = router_with(AutopilotConfig::default());
    let decision = router.decide(DEMANDING, micro(1_000_000_000_000));
    assert!(!decision.forced_by_budget);
}

#[test]
fn recording_success_keeps_a_route_healthy() {
    let mut router = router_with(AutopilotConfig::default());
    for _ in 0..20 {
        router.record_outcome("local", true);
    }
    assert!(router.success_rate("local") > Ratio::percent(90));
    let decision = router.decide("Salut", micro(0));
    assert_eq!(decision.route, "local");
}

#[test]
fn budget_downgrade_skips_a_route_whose_breaker_is_open() {
    let config = AutopilotConfig {
        daily_budget_usd: Some(micro(1_000_000)),
        ..AutopilotConfig::default()
    };
    let mut router = router_with(config);
    for _ in 0..10 {
        router.record_outcome("paid-cheap", false);
    }
    assert!(!router.stats_for("paid-cheap").is_available());

    let decision = router.decide(DEMANDING, micro(0));
    assert_eq!(decision.route, "local");
}

#[test]
fn budget_downgrade_still_lands_on_local_even_if_its_breaker_is_open() {
    let config = AutopilotConfig {
        daily_budget_usd: Some(micro(0)),
        ..AutopilotConfig::default()
    };
    let mut router = router_with(config);
    for _ in 0..10 {
        router.record_outcome("local", false);
    }
    assert!(!router.stats_for("local").is_available());

    let decision = router.decide("prompt trivial", micro(0));
    assert_eq!(decision.route, "local");
}

fn fail(router: &mut Router, route: &str, at: u128) {
    for _ in 0..10 {
        router.record_outcome_at(route, false, at);
    }
}

fn decide(router: &mut Router, percent: u8, at: u128) -> RoutingDecision {
    router.decide_for(Ratio::percent(percent), 1000, micro(0), at)
}

#[test]
fn thresholds_belong_to_the_tier_above() {
    let mut router = router_with(AutopilotConfig::default());
    assert_eq!(decide(&mut router, 34, 0).route, "local");
    assert_eq!(decide(&mut router, 35, 0).route, "paid-cheap");
    assert_eq!(decide(&mut router, 69, 0).route, "paid-cheap");
    assert_eq!(decide(&mut router, 70, 0).route, "paid-premium");
    assert_eq!(decide(&mut router, 100, 0).route, "paid-premium");
}

#[test]
fn reasons_are_spelled_out() {
    let mut router = router_with(AutopilotConfig::default());
    let d = decide(&mut router, 34, 0);
    assert_eq!(d.reason, "complexité 0.34 → palier de base « local »");
    assert_eq!(d.complexity, Ratio::percent(34));

    fail(&mut router, "local", 0);
    let d = decide(&mut router, 34, 0);
    assert_eq!(d.route, "paid-cheap");
    assert!(!d.forced_by_budget);
    assert_eq!(
        d.reason,
        "complexité 0.34 → palier de base « local » ; \
         « local » indisponible/dégradé → repli sur « paid-cheap »"
    );
}

#[test]
fn budget_reasons_are_spelled_out() {
    let config = AutopilotConfig {
        daily_budget_usd: Some(micro(1_000_000)),
        ..AutopilotConfig::default()
    };
    let mut router = router_with(config);
    let d = router.decide_for(Ratio::percent(80), 1000, micro(250_000), 0);
    // 1000 tokens of input and 500 of output: 7.50 dollars premium, 0.45 cheap.
    assert_eq!(d.route, "paid-cheap");
    assert!(d.forced_by_budget);
    assert_eq!(d.estimated_cost_usd, micro(450_000));
    assert_eq!(
        d.reason,
        "complexité 0.80 → palier de base « paid-premium » ; \
         budget quotidien (1.00$) dépassé par « paid-premium » (déjà 0.25$ dépensés) \
         → repli sur « paid-cheap »"
    );

    fail(&mut router, "paid-cheap", 0);
    let d = router.decide_for(Ratio::percent(80), 1000, micro(900_000), 0);
    assert_eq!(d.route, "local");
    assert_eq!(
        d.reason,
        "complexité 0.80 → palier de base « paid-premium » ; \
         budget quotidien (1.00$) dépassé par « paid-premium » (déjà 0.90$ dépensés) \
         → repli sur « paid-cheap » ; \
         budget quotidien (1.00$) dépassé par « paid-cheap » (déjà 0.90$ dépensés) \
         → repli sur « local » ; \
         « paid-cheap » indisponible/dégradé (repli budgétaire) → repli sur « local »"
    );
}

#[test]
fn a_budget_is_kept_to_the_last_pico_dollar() {
    let exact = AutopilotConfig {
        daily_budget_usd: Some(micro(450_000)),
        ..AutopilotConfig::default()
    };
    let mut router = router_with(exact);
    assert_eq!(decide(&mut router, 50, 0).route, "paid-cheap");
    let short = AutopilotConfig {
        daily_budget_usd: Some(Usd {
            pico: micro(450_000).pico - 1,
        }),
        ..AutopilotConfig::default()
    };
    let mut router = router_with(short);
    let d = decide(&mut router, 50, 0);
    assert_eq!(d.route, "local");
    assert!(d.forced_by_budget);
}

#[test]
fn the_search_goes_up_then_down_then_to_local() {
    let mut router = router_with(AutopilotConfig::default());
    fail(&mut router, "paid-cheap", 0);
    assert_eq!(decide(&mut router, 50, 0).route, "paid-premium");
    fail(&mut router, "paid-premium", 0);
    assert_eq!(decide(&mut router, 50, 0).route, "local");
    assert_eq!(decide(&mut router, 90, 0).route, "local");
    fail(&mut router, "local", 0);
    let d = decide(&mut router, 90, 0);
    assert_eq!(d.route, "local");
    assert!(d.reason.contains("repli sur « local »"));
}

#[test]
fn local_is_passed_over_before_its_breaker_opens() {
    let mut router = router_with(AutopilotConfig::default());
    router.record_outcome_at("local", false, 0);
    // Exactly seven tenths is still enough.
    assert_eq!(decide(&mut router, 10, 0).route, "local");
    router.record_outcome_at("local", false, 0);
    assert!(!router.stats_for("local").is_open());
    assert_eq!(decide(&mut router, 10, 0).route, "paid-cheap");
    // No such limit holds for paid routes.
    router.record_outcome_at("paid-cheap", false, 0);
    router.record_outcome_at("paid-cheap", false, 0);
    assert_eq!(decide(&mut router, 50, 0).route, "paid-cheap");
}

#[test]
fn a_rested_route_is_tried_again() {
    let config = AutopilotConfig {
        circuit_cooldown: 100,
        ..AutopilotConfig::default()
    };
    let mut router = router_with(config);
    fail(&mut router, "paid-cheap", 5);
    assert_eq!(decide(&mut router, 50, 104).route, "paid-premium");
    assert_eq!(decide(&mut router, 50, 105).route, "paid-cheap");
    // Deciding again changes nothing.
    assert_eq!(decide(&mut router, 50, 105).route, "paid-cheap");
    router.record_outcome_at("paid-cheap", true, 106);
    assert_eq!(router.success_rate("paid-cheap"), Ratio::one());
}

#[test]
fn routes_outside_the_tiers_have_statistics_too() {
    let mut router = router_with(AutopilotConfig::default());
    assert_eq!(router.success_rate("custom"), Ratio::one());
    router.record_outcome("custom", false);
    assert_eq!(router.success_rate("custom"), Ratio::percent(70));
    assert_eq!(router.success_rate("local"), Ratio::one());
}

#[test]
fn amounts_are_written_with_two_decimals() {
    let text = |budget: Usd, spent: Usd| {
        let config = AutopilotConfig {
            daily_budget_usd: Some(budget),
            ..AutopilotConfig::default()
        };
        let mut router = router_with(config);
        router.decide_for(Ratio::percent(50), 1000, spent, 0).reason
    };
    assert!(text(micro(125_000), micro(1_000_000)).contains("(0.12$)"));
    assert!(text(micro(375_000), micro(1_000_000)).contains("(0.38$)"));
    // Half cents are written as their nearest binary number is.
    for budget in [0.355, 0.115, 0.145, 0.285, 0.005, 0.015, 0.0, 0.4499999] {
        let amount = Usd {
            pico: (budget * 1e12_f64).round() as i128,
        };
        assert!(text(amount, micro(1_000_000)).contains(&format!("({budget:.2}$)")));
    }
    for spent in [0.575, 2.675, 1.005, 8.575, 1.115, 12.345678, 999.995, 1e6 + 0.155] {
        let amount = Usd {
            pico: (spent * 1e12_f64).round() as i128,
        };
        assert!(text(micro(0), amount).contains(&format!("déjà {spent:.2}$ dépensés")));
    }
    assert!(text(micro(-1), micro(12_345_678)).contains("(-0.00$)"));
    assert!(text(micro(-1), micro(12_345_678)).contains("déjà 12.35$ dépensés"));
}

#[test]
fn the_clock_of_a_router_runs_in_nanoseconds() {
    let router = router_with(AutopilotConfig::default());
    let outer = Instant::now();
    let first = router.tick();
    let inner = Instant::now();
    while inner.elapsed() < Duration::from_millis(5) {}
    let second = router.tick();
    assert!(second - first >= 5_000_000);
    assert!(second - first <= outer.elapsed().as_nanos());
}

#[test]
fn less_money_never_chooses_a_dearer_tier() {
    let rank = |spent: i128| {
        let config = AutopilotConfig {
            daily_budget_usd: Some(micro(8_000_000)),
            ..AutopilotConfig::default()
        };
        let mut router = router_with(config);
        // 7.50 dollars premium, 0.45 cheap.
        let route = router
            .decide_for(Ratio::percent(90), 1000, micro(spent), 0)
            .route;
        ROUTE_TIERS.iter().position(|t| *t == route).unwrap()
    };
    assert_eq!(rank(0), 2);
    assert_eq!(rank(500_000), 2);
    assert_eq!(rank(500_001), 1);
    assert_eq!(rank(7_550_000), 1);
    assert_eq!(rank(7_550_001), 0);
    assert_eq!(rank(100_000_000), 0);
}

#[test]
fn deciding_records_nothing() {
    let mut router = router_with(AutopilotConfig::default());
    router.record_outcome_at("local", false, 0);
    let rate = router.success_rate("local");
    for _ in 0..10 {
        decide(&mut router, 10, 0);
    }
    assert_eq!(router.success_rate("local"), rate);
    assert_eq!(router.stats_for("local").samples(), 1);
    assert_eq!(router.stats_for("paid-cheap").samples(), 0);
}

fn wait(duration: Duration) {
    let start = Instant::now();
    while start.elapsed() < duration {}
}

#[test]
fn a_rested_local_route_gets_its_trial() {
    let config = AutopilotConfig {
        circuit_cooldown: 0,
        ..AutopilotConfig::default()
    };
    let mut router = router_with(config);
    for _ in 0..10 {
        router.record_outcome("local", false);
    }
    assert!(router.is_route_healthy("local"));
    // Deciding only looks: the trial is there until a call asks for it.
    assert_eq!(router.decide("Salut !", micro(0)).route, "local");
    assert_eq!(router.decide("Salut !", micro(0)).route, "local");
    assert!(router.admit_at("local", 0));
    assert!(!router.admit_at("local", 0));
    assert!(!router.is_route_healthy("local"));
    assert_eq!(router.decide("Salut !", micro(0)).route, "paid-cheap");
    router.record_outcome("local", true);
    assert_eq!(router.success_rate("local"), Ratio::one());
    assert_eq!(router.decide("Salut !", micro(0)).route, "local");
}

#[test]
fn decisions_follow_the_clock() {
    let config = AutopilotConfig {
        circuit_cooldown: 300_000_000,
        ..AutopilotConfig::default()
    };
    let mut router = router_with(config);
    let start = Instant::now();
    for _ in 0..10 {
        router.record_outcome("local", false);
    }
    let route = router.decide("Salut !", micro(0)).route;
    assert!(route == "paid-cheap" || start.elapsed() >= Duration::from_millis(300));
    wait(Duration::from_millis(310));
    assert_eq!(router.decide("Salut !", micro(0)).route, "local");
}

#[test]
fn a_decision_is_forced_exactly_when_it_is_a_downgrade() {
    let decide_with = |spent: i128, failing: &str| {
        let config = AutopilotConfig {
            daily_budget_usd: Some(micro(8_000_000)),
            ..AutopilotConfig::default()
        };
        let mut router = router_with(config);
        fail(&mut router, failing, 0);
        router.decide_for(Ratio::percent(90), 1000, micro(spent), 0)
    };
    let d = decide_with(0, "aucune");
    assert_eq!((d.route.as_str(), d.forced_by_budget), ("paid-premium", false));
    let d = decide_with(1_000_000, "aucune");
    assert_eq!((d.route.as_str(), d.forced_by_budget), ("paid-cheap", true));
    let d = decide_with(1_000_000, "paid-premium");
    assert_eq!((d.route.as_str(), d.forced_by_budget), ("paid-cheap", false));
}
