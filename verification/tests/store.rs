use cost_autopilot::store::{now_unix, EventStore, RoutingEvent, SECONDS_PER_DAY};
use cost_autopilot::units::PICO_PER_USD;
use cost_autopilot::{Ratio, Usd};

/// An amount in tenths of a dollar.
fn tenths(n: i128) -> Usd {
    Usd {
        pico: n * PICO_PER_USD as i128 / 10,
    }
}

fn sample_event(route: &str, cost: Usd, timestamp: u64) -> RoutingEvent {
    RoutingEvent {
        timestamp,
        route: route.to_string(),
        complexity: Ratio::percent(40),
        input_tokens: 100,
        output_tokens: 50,
        cost_usd: cost,
        latency_ms: 120,
        success: true,
        fallback: false,
        decision_reason: "test".to_string(),
    }
}

#[test]
fn round_trips_a_single_event() {
    let mut store = EventStore::open_in_memory();
    store.record(sample_event("local", tenths(0), 1000));
    let events = store.all();
    assert_eq!(events.len(), 1);
    assert_eq!(events[0].route, "local");
}

#[test]
fn events_are_sorted_ascending_by_timestamp() {
    let mut store = EventStore::open_in_memory();
    store.record(sample_event("a", tenths(0), 3000));
    store.record(sample_event("b", tenths(0), 1000));
    store.record(sample_event("c", tenths(0), 2000));
    let events = store.all();
    let timestamps: Vec<u64> = events.iter().map(|e| e.timestamp).collect();
    assert_eq!(timestamps, vec![1000, 2000, 3000]);
}

#[test]
fn cost_today_only_sums_events_within_the_current_day_bucket() {
    let mut store = EventStore::open_in_memory();
    let now = 10 * SECONDS_PER_DAY + 500;
    let yesterday = now - SECONDS_PER_DAY - 1;
    store.record(sample_event("paid-cheap", tenths(10), yesterday));
    store.record(sample_event("paid-cheap", tenths(25), now));
    let total = store.cost_today(now);
    assert_eq!(
        total,
        tenths(25),
        "la dépense d'hier ne doit pas compter aujourd'hui"
    );
}

#[test]
fn cost_today_is_zero_with_no_events() {
    let store = EventStore::open_in_memory();
    assert_eq!(store.cost_today(now_unix().unwrap()), tenths(0));
}

#[test]
fn count_reflects_number_of_recorded_events() {
    let mut store = EventStore::open_in_memory();
    assert_eq!(store.count(), 0);
    store.record(sample_event("local", tenths(0), 1));
    store.record(sample_event("local", tenths(0), 2));
    assert_eq!(store.count(), 2);
}

#[test]
fn every_field_is_read_back() {
    let mut event = sample_event("paid-premium", tenths(3), 77);
    event.success = false;
    event.fallback = true;
    event.decision_reason = "complexité".to_string();
    let mut store = EventStore::open_in_memory();
    store.record(event.clone());
    assert_eq!(store.all(), vec![event.clone()]);
    assert_eq!(store.last(), Some(&event));
}

#[test]
fn events_of_one_time_keep_the_order_of_recording() {
    let store = EventStore::from_events(vec![
        sample_event("a", tenths(0), 5),
        sample_event("b", tenths(0), 1),
        sample_event("c", tenths(0), 5),
        sample_event("d", tenths(0), 1),
    ]);
    let routes: Vec<String> = store.all().into_iter().map(|e| e.route).collect();
    assert_eq!(routes, vec!["b", "d", "a", "c"]);
}

#[test]
fn a_query_starts_at_its_time() {
    let store = EventStore::from_events(vec![
        sample_event("a", tenths(0), 3),
        sample_event("b", tenths(0), 2),
        sample_event("c", tenths(0), 1),
    ]);
    let since = |t| {
        let routes: Vec<String> = store.query_since(t).into_iter().map(|e| e.route).collect();
        routes
    };
    assert_eq!(since(0), vec!["c", "b", "a"]);
    assert_eq!(since(2), vec!["b", "a"]);
    assert!(since(4).is_empty());
}

#[test]
fn the_day_starts_at_midnight_utc() {
    let midnight = 3 * SECONDS_PER_DAY;
    let store = EventStore::from_events(vec![
        sample_event("a", tenths(1), midnight - 1),
        sample_event("a", tenths(2), midnight),
        sample_event("a", tenths(4), midnight + SECONDS_PER_DAY - 1),
    ]);
    assert_eq!(store.cost_today(midnight), tenths(6));
    assert_eq!(store.cost_today(midnight - 1), tenths(1));
    assert_eq!(store.cost_today(midnight + SECONDS_PER_DAY), tenths(0));
}

#[test]
fn an_event_of_the_next_day_does_not_count_today() {
    let mut store = EventStore::open_in_memory();
    store.record(sample_event("a", tenths(40), 11 * SECONDS_PER_DAY));
    assert_eq!(store.cost_today(10 * SECONDS_PER_DAY + 500), tenths(0));
    assert_eq!(store.cost_today(11 * SECONDS_PER_DAY + 500), tenths(40));
}

#[test]
fn recording_adds_one_event_and_keeps_equal_ones() {
    let mut store = EventStore::from_events(vec![
        sample_event("b", tenths(1), 9),
        sample_event("a", tenths(1), 3),
    ]);
    store.record(sample_event("a", tenths(1), 3));
    assert_eq!(store.count(), 3);
    let read = store.all();
    assert_eq!(
        read,
        vec![
            sample_event("a", tenths(1), 3),
            sample_event("a", tenths(1), 3),
            sample_event("b", tenths(1), 9),
        ]
    );
}

#[test]
fn the_wall_clock_stands_after_2020() {
    assert!(now_unix().unwrap() > 1_577_836_800);
}
