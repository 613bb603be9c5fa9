use throttle::Throttle;

const MS: u64 = 1_000_000;

#[test]
fn window_of_four_hundred_milliseconds_with_three_slots() {
    let mut throttle = Throttle::new(400 * MS, 3);

    assert_eq!(throttle.accept_at(0), Ok(()));
    assert_eq!(throttle.size_at(0), 1);

    assert_eq!(throttle.size_at(200 * MS), 1);
    assert_eq!(throttle.accept_at(200 * MS), Ok(()));
    assert_eq!(throttle.size_at(200 * MS), 2);

    assert_eq!(throttle.size_at(300 * MS), 2);
    assert_eq!(throttle.accept_at(300 * MS), Ok(()));
    assert_eq!(throttle.size_at(300 * MS), 3);
    assert_eq!(throttle.accept_at(300 * MS), Err(400 * MS));
    assert_eq!(throttle.size_at(300 * MS), 3);

    assert_eq!(throttle.size_at(500 * MS), 2);
    assert_eq!(throttle.accept_at(500 * MS), Ok(()));
    assert_eq!(throttle.size_at(500 * MS), 3);
    assert_eq!(throttle.accept_at(500 * MS), Err(600 * MS));
    assert_eq!(throttle.size_at(500 * MS), 3);

    assert_eq!(throttle.size_at(1500 * MS), 0);
}
