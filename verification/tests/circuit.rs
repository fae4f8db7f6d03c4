use cost_autopilot::circuit::RouteStats;
use cost_autopilot::units::RATIO_ONE;
use cost_autopilot::Ratio;
use std::time::{Duration, Instant};

fn half() -> Ratio {
    Ratio::percent(50)
}

fn secs(n: u64) -> u128 {
    Duration::from_secs(n).as_nanos()
}

fn millis(n: u64) -> u128 {
    Duration::from_millis(n).as_nanos()
}

/// Waits without sleeping.
fn wait(duration: Duration) {
    let start = Instant::now();
    while start.elapsed() < duration {}
}

#[test]
fn fresh_route_is_available_and_optimistic() {
    let mut stats = RouteStats::new(half(), secs(60));
    assert!(stats.is_available());
    assert_eq!(stats.success_rate(), Ratio::one());
}

#[test]
fn repeated_failures_trip_the_breaker_open() {
    let mut stats = RouteStats::new(half(), secs(60));
    for _ in 0..10 {
        stats.record(false);
    }
    assert!(stats.is_open());
    assert!(!stats.is_available());
}

#[test]
fn a_single_failure_does_not_trip_the_breaker() {
    let mut stats = RouteStats::new(half(), secs(60));
    stats.record(false);
    assert!(!stats.is_open());
    assert!(stats.is_available());
}

#[test]
fn breaker_moves_to_half_open_after_cooldown_and_can_close_again() {
    let mut stats = RouteStats::new(half(), millis(20));
    for _ in 0..10 {
        stats.record(false);
    }
    assert!(stats.is_open());
    wait(Duration::from_millis(30));
    assert!(
        stats.is_available(),
        "doit passer en semi-ouvert après le cooldown"
    );
    stats.record(true);
    assert!(
        !stats.is_open(),
        "un succès en semi-ouvert doit refermer le disjoncteur"
    );
}

#[test]
fn a_failed_trial_in_half_open_reopens_the_breaker() {
    let mut stats = RouteStats::new(half(), millis(20));
    for _ in 0..10 {
        stats.record(false);
    }
    wait(Duration::from_millis(30));
    assert!(stats.is_available());
    stats.record(false);
    assert!(
        stats.is_open(),
        "un échec de l'essai semi-ouvert doit rouvrir"
    );
}

#[test]
fn success_rate_recovers_gradually_after_successes() {
    let mut stats = RouteStats::new(half(), secs(60));
    stats.record(false);
    stats.record(false);
    let after_failures = stats.success_rate();
    for _ in 0..10 {
        stats.record(true);
    }
    assert!(stats.success_rate() > after_failures);
}

#[test]
fn closing_after_recovery_resets_ema_and_sample_count() {
    let mut stats = RouteStats::new(half(), millis(10));
    for _ in 0..10 {
        stats.record(false);
    }
    assert!(stats.is_open());
    wait(Duration::from_millis(20));
    assert!(stats.is_available());
    stats.record(true);

    assert!(!stats.is_open());
    assert_eq!(
        stats.success_rate(),
        Ratio::one(),
        "l'EMA doit repartir de zéro après une fermeture, pas rester plombée"
    );
    assert_eq!(
        stats.samples(),
        0,
        "le compteur d'échantillons doit repartir de zéro après une fermeture"
    );
}

#[test]
fn a_single_failure_right_after_recovery_does_not_immediately_reopen() {
    let mut stats = RouteStats::new(half(), millis(10));
    for _ in 0..10 {
        stats.record(false);
    }
    wait(Duration::from_millis(20));
    assert!(stats.is_available());
    stats.record(true);

    stats.record(false);
    assert!(
        !stats.is_open(),
        "un seul échec ne doit pas suffire à rouvrir juste après une fermeture fraîche"
    );
}

#[test]
fn the_fifth_failure_opens_the_breaker() {
    let mut stats = RouteStats::new(half(), secs(60));
    for _ in 0..4 {
        stats.record_at(false, 0);
        assert!(!stats.is_open());
    }
    stats.record_at(false, 0);
    assert!(stats.is_open());
    assert_eq!(stats.samples(), 5);
}

#[test]
fn the_average_moves_by_three_tenths() {
    let mut stats = RouteStats::new(half(), secs(60));
    stats.record_at(false, 0);
    assert_eq!(stats.success_rate().units, RATIO_ONE / 10 * 7);
    stats.record_at(false, 0);
    assert_eq!(stats.success_rate().units, RATIO_ONE / 100 * 49);
    stats.record_at(true, 0);
    assert_eq!(stats.success_rate().units, RATIO_ONE / 1000 * 643);
    for _ in 0..200 {
        stats.record_at(true, 0);
    }
    assert!(stats.success_rate() <= Ratio::one());
    assert!(stats.success_rate() > Ratio::percent(99));
}

#[test]
fn an_open_breaker_rests_exactly_for_its_cooldown() {
    let mut stats = RouteStats::new(half(), millis(20));
    for _ in 0..5 {
        stats.record_at(false, 1_000);
    }
    assert!(!stats.is_available_at(1_000));
    assert!(!stats.is_available_at(1_000 + millis(20) - 1));
    // Outcomes recorded meanwhile neither close it nor prolong the rest.
    stats.record_at(true, 1_000 + millis(10));
    assert!(stats.is_open());
    // A reading before the opening counts as no rest at all.
    assert!(!stats.is_available_at(0));
    assert!(stats.is_available_at(1_000 + millis(20)));
    assert!(!stats.is_open());
}

#[test]
fn a_rest_is_measured_by_the_clock() {
    let start = Instant::now();
    let mut stats = RouteStats::new(half(), millis(200));
    for _ in 0..10 {
        stats.record(false);
    }
    let refused = !stats.is_available();
    assert!(refused || start.elapsed() >= Duration::from_millis(200));
    while !stats.is_available() {}
    assert!(start.elapsed() >= Duration::from_millis(200));
}

#[test]
fn only_one_trial_is_handed_out() {
    let mut stats = RouteStats::new(half(), 0);
    for _ in 0..10 {
        stats.record(false);
    }
    assert!(stats.is_open());
    let first = stats.is_available();
    let second = stats.is_available();
    assert!(first);
    assert!(!second);
    assert!(!stats.is_open());
    assert!(stats.is_half_open());
    assert!(!stats.is_available_at(u128::MAX));

    stats.record(false);
    assert!(stats.is_open());
    assert!(stats.is_available());
    stats.record(true);
    assert!(stats.is_available());
    assert!(stats.is_available());
}

#[test]
fn looking_leaves_the_trial() {
    let mut stats = RouteStats::new(half(), 10);
    for _ in 0..5 {
        stats.record_at(false, 0);
    }
    assert!(!stats.looks_available_at(9));
    assert!(stats.is_open());
    assert!(stats.looks_available_at(10));
    assert!(stats.looks_available_at(10));
    assert!(stats.is_available_at(10));
    assert!(!stats.looks_available_at(10));
    assert!(!stats.is_available_at(10));
}

#[test]
fn even_the_lowest_threshold_is_reached_in_the_end() {
    let mut stats = RouteStats::new(Ratio { units: 1 }, secs(60));
    for _ in 0..50 {
        stats.record_at(false, 0);
    }
    assert!(!stats.is_open());
    for _ in 0..100 {
        stats.record_at(false, 0);
    }
    assert!(stats.is_open());

    let mut never = RouteStats::new(Ratio::percent(0), secs(60));
    for _ in 0..200 {
        never.record_at(false, 0);
    }
    assert!(!never.is_open());
}
