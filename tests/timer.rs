use cube_life::timer::{TickTimer, DEFAULT_INTERVAL_MILLIS};

#[test]
fn short_feeds_do_not_fire() {
    let mut t = TickTimer::new(DEFAULT_INTERVAL_MILLIS);
    assert!(!t.tick(200));
    assert!(!t.tick(200));
    assert_eq!(t.elapsed(), 400);
    assert!(!t.tick(199));
    assert_eq!(t.elapsed(), 599);
}

#[test]
fn reaching_interval_fires_once_and_resets() {
    let mut t = TickTimer::new(600);
    assert!(!t.tick(300));
    assert!(t.tick(300));
    assert_eq!(t.elapsed(), 0);
    assert!(!t.tick(599));
}

#[test]
fn excess_time_is_not_fired_twice() {
    let mut t = TickTimer::new(600);
    assert!(t.tick(1500));
    assert_eq!(t.elapsed(), 0);
    assert!(!t.tick(1));
    assert_eq!(t.interval(), 600);
}

#[test]
fn largest_delta_fires() {
    let mut t = TickTimer::new(600);
    assert!(!t.tick(599));
    assert!(t.tick(u64::MAX));
    assert_eq!(t.elapsed(), 0);
}

#[test]
fn zero_interval_fires_every_time() {
    let mut t = TickTimer::new(0);
    assert!(t.tick(0));
    assert!(t.tick(0));
}
