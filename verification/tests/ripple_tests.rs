use pond::coordinate::Coordinate;
use pond::ripple::{Ripple, RippleSet, DEFAULT_MAX_AGE, ORIGIN_PEAK};

fn marker(age: u64, dx: usize, dy: usize) -> i64 {
    (age as i64) * 10_000 + (dx as i64) * 100 + dy as i64
}

#[test]
fn new_ripple_has_age_zero() {
    let r = Ripple::new(Coordinate::new(100, 100), 10);
    assert_eq!(r.origin, Coordinate::new(100, 100));
    assert_eq!(r.radius, 10);
    assert_eq!(r.age, 0);
}

#[test]
fn default_max_age_is_five_hundred() {
    assert_eq!(DEFAULT_MAX_AGE, 500);
}

#[test]
fn tick_makes_the_ripple_one_step_older() {
    let r = Ripple::new(Coordinate::new(4, 5), 3);
    let next = r.tick(500).unwrap();
    assert_eq!(next, Ripple { origin: Coordinate::new(4, 5), radius: 3, age: 1 });
    assert_eq!(r.age, 0);
}

#[test]
fn tick_at_max_age_expires() {
    let at = Ripple { origin: Coordinate::new(4, 5), radius: 3, age: 500 };
    assert_eq!(at.tick(500), None);
    let past = Ripple { origin: Coordinate::new(4, 5), radius: 3, age: 501 };
    assert_eq!(past.tick(500), None);
    let before = Ripple { origin: Coordinate::new(4, 5), radius: 3, age: 499 };
    assert_eq!(before.tick(500).unwrap().age, 500);
}

#[test]
fn tick_with_max_age_zero_expires_at_once() {
    let r = Ripple::new(Coordinate::new(0, 0), 1);
    assert_eq!(r.tick(0), None);
}

#[test]
fn tick_at_the_largest_age_does_not_overflow() {
    let r = Ripple { origin: Coordinate::new(0, 0), radius: 1, age: u64::MAX - 1 };
    assert_eq!(r.tick(u64::MAX).unwrap().age, u64::MAX);
    let last = Ripple { origin: Coordinate::new(0, 0), radius: 1, age: u64::MAX };
    assert_eq!(last.tick(u64::MAX), None);
}

#[test]
fn ripple_survives_exactly_five_hundred_ticks() {
    let mut r = Ripple::new(Coordinate::new(100, 100), 10);
    for n in 1..=500u64 {
        r = r.tick(500).expect("a ripple younger than its time goes on");
        assert_eq!(r.age, n);
    }
    assert_eq!(r.tick(500), None);
}

#[test]
fn ripple_leaves_the_set_after_its_lifetime() {
    let mut set = RippleSet::new();
    set.push(Ripple::new(Coordinate::new(100, 100), 10));
    for n in 1..=500u64 {
        set.step(500);
        assert_eq!(set.len(), 1);
        assert_eq!(set.get(0).age, n);
    }
    set.step(500);
    assert_eq!(set.len(), 0);
    assert!(set.is_empty());
    set.step(500);
    assert!(set.is_empty());
}

#[test]
fn step_keeps_the_order_of_those_that_stay() {
    let mut set = RippleSet::new();
    set.push(Ripple { origin: Coordinate::new(1, 1), radius: 1, age: 3 });
    set.push(Ripple { origin: Coordinate::new(2, 2), radius: 2, age: 5 });
    set.push(Ripple { origin: Coordinate::new(3, 3), radius: 3, age: 0 });
    set.push(Ripple { origin: Coordinate::new(4, 4), radius: 4, age: 7 });
    set.push(Ripple { origin: Coordinate::new(5, 5), radius: 5, age: 4 });
    set.step(5);
    assert_eq!(set.len(), 3);
    assert_eq!(set.get(0), Ripple { origin: Coordinate::new(1, 1), radius: 1, age: 4 });
    assert_eq!(set.get(1), Ripple { origin: Coordinate::new(3, 3), radius: 3, age: 1 });
    assert_eq!(set.get(2), Ripple { origin: Coordinate::new(5, 5), radius: 5, age: 5 });
}

#[test]
fn step_of_an_empty_set_is_empty() {
    let mut set = RippleSet::new();
    set.step(500);
    assert!(set.is_empty());
}

#[test]
fn fresh_ripple_adds_nothing() {
    let r = Ripple::new(Coordinate::new(4, 4), 2);
    assert_eq!(r.height_contribution(Coordinate::new(6, 4), &marker), 0);
    assert_eq!(r.height_contribution(Coordinate::new(4, 4), &marker), 0);
}

#[test]
fn ripple_adds_the_peak_at_its_own_origin() {
    let r = Ripple { origin: Coordinate::new(4, 4), radius: 2, age: 1 };
    assert_eq!(ORIGIN_PEAK, 1_000_000);
    assert_eq!(r.height_contribution(Coordinate::new(4, 4), &marker), 1_000_000);
}

#[test]
fn ripple_asks_the_wave_for_age_and_offset() {
    let r = Ripple { origin: Coordinate::new(4, 9), radius: 2, age: 7 };
    assert_eq!(r.height_contribution(Coordinate::new(6, 4), &marker), 70_205);
    assert_eq!(r.height_contribution(Coordinate::new(1, 9), &marker), 70_300);
    assert_eq!(r.height_contribution(Coordinate::new(4, 12), &marker), 70_003);
}
