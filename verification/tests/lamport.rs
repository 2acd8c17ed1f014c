use collab_doc::document::lamport::Lamport;

#[test]
fn fresh_clock_ticks_past_request_time() {
    let mut clock = Lamport::new();
    assert_eq!(clock.tick(0), 1);
    let mut other = Lamport::new();
    assert_eq!(other.tick(41), 42);
}

#[test]
fn tick_goes_past_own_value_when_request_is_older() {
    let mut clock = Lamport::new();
    assert_eq!(clock.tick(10), 11);
    assert_eq!(clock.tick(3), 12);
    assert_eq!(clock.tick(12), 13);
}

#[test]
fn ticks_strictly_increase() {
    let mut clock = Lamport::new();
    let requests = [5u64, 0, 100, 7, 100, 101, 3];
    let mut last = 0u64;
    for t in requests {
        let stamp = clock.tick(t);
        assert!(stamp > last);
        assert!(stamp > t);
        last = stamp;
    }
    assert_eq!(last, 105);
}

#[test]
fn tick_reaches_the_top_of_the_range() {
    let mut clock = Lamport::new();
    assert_eq!(clock.tick(u64::MAX - 1), u64::MAX);
}

#[test]
fn now_is_the_latest_stamp() {
    let mut clock = Lamport::new();
    assert_eq!(clock.now(), 0);
    let a = clock.tick(9);
    assert_eq!(clock.now(), a);
    let b = clock.tick(1);
    assert_eq!(clock.now(), b);
    assert_eq!(b, 11);
}
