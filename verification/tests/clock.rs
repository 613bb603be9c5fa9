use throttle::clock::held_in_u64;
use throttle::Throttle;

const SECOND: u64 = 1_000_000_000;

#[test]
fn clock_starts_with_the_throttle_and_does_not_run_backwards() {
    let throttle = Throttle::new(SECOND, 1);
    let first = throttle.now();
    let second = throttle.now();
    assert!(first <= second);
    assert!(second < 3_600 * SECOND);
}

#[test]
fn clock_advances() {
    let throttle = Throttle::new(SECOND, 1);
    let first = throttle.now();
    let mut later = throttle.now();
    while later == first {
        later = throttle.now();
    }
    assert!(later > first);
}

#[test]
fn clock_reading_is_not_before_the_last_admission() {
    let mut throttle = Throttle::new(SECOND, 2);
    let far = 1_000_000 * SECOND;
    assert_eq!(throttle.accept_at(far), Ok(()));
    assert_eq!(throttle.now(), far);
    assert_eq!(throttle.accept(), Ok(()));
    assert_eq!(throttle.accept(), Err(far + SECOND));
}

#[test]
fn clock_reading_leaves_room_for_the_window() {
    let throttle = Throttle::new(u64::MAX, 1);
    assert_eq!(throttle.now(), 0);
    let throttle = Throttle::new(u64::MAX - 5, 1);
    assert!(throttle.now() <= 5);
}

#[test]
fn burst_by_the_clock_fills_the_window() {
    let window = 3_600 * SECOND;
    let mut throttle = Throttle::new(window, 3);
    let before = throttle.now();
    assert!(throttle.available());
    assert_eq!(throttle.accept(), Ok(()));
    let after = throttle.now();
    assert_eq!(throttle.size(), 1);
    assert_eq!(throttle.accept(), Ok(()));
    assert_eq!(throttle.size(), 2);
    assert_eq!(throttle.accept(), Ok(()));
    assert_eq!(throttle.size(), 3);
    assert!(!throttle.available());
    let retry = throttle.accept().unwrap_err();
    assert!(before + window <= retry);
    assert!(retry <= after + window);
    assert_eq!(throttle.size(), 3);
}

#[test]
fn refusal_by_the_clock_ends_at_the_returned_instant() {
    let window = SECOND / 4;
    let mut throttle = Throttle::new(window, 1);
    assert_eq!(throttle.accept(), Ok(()));
    let retry = throttle.accept().unwrap_err();
    assert!(retry >= window);
    while throttle.now() < retry {
        std::hint::spin_loop();
    }
    assert_eq!(throttle.size(), 0);
    assert!(throttle.available());
    assert_eq!(throttle.accept(), Ok(()));
    assert_eq!(throttle.size(), 1);
}

#[test]
fn zero_capacity_by_the_clock_never_admits() {
    let mut throttle = Throttle::new(1, 0);
    for _ in 0..100 {
        let before = throttle.now();
        assert_eq!(throttle.size(), 0);
        assert!(!throttle.available());
        let retry = throttle.accept().unwrap_err();
        let after = throttle.now();
        assert!(before <= retry);
        assert!(retry <= after);
    }
}

#[test]
fn count_of_nanoseconds_is_held_at_the_largest_instant() {
    assert_eq!(held_in_u64(0), 0);
    assert_eq!(held_in_u64(1_500_000_000), 1_500_000_000);
    assert_eq!(held_in_u64(u64::MAX as u128), u64::MAX);
    assert_eq!(held_in_u64(u64::MAX as u128 + 1), u64::MAX);
    assert_eq!(held_in_u64(u128::MAX), u64::MAX);
}
