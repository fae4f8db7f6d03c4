use cost_autopilot::clock::{nanos_between, nanos_since, unix_seconds};
use std::time::{Duration, Instant, UNIX_EPOCH};

#[test]
fn wall_clock_readings_are_whole_seconds_since_1970() {
    assert_eq!(unix_seconds(&UNIX_EPOCH), Some(0));
    assert_eq!(
        unix_seconds(&(UNIX_EPOCH + Duration::from_millis(86_400_999))),
        Some(86_400)
    );
    assert_eq!(
        unix_seconds(&(UNIX_EPOCH - Duration::from_secs(1))),
        None
    );
}

#[test]
fn delays_are_in_nanoseconds() {
    let start = Instant::now();
    let end = start + Duration::new(2, 345_678_900);
    assert_eq!(nanos_between(&end, &start), 2_345_678_900);
    assert_eq!(nanos_between(&start, &start), 0);
    assert!(nanos_since(&start) <= start.elapsed().as_nanos());
}
