use pond::config::{Config, ConfigError, Mode};
use pond::coordinate::Coordinate;
use pond::event::{Button, ButtonState, Event, Phase};
use pond::pond::Pond;
use pond::ripple::Ripple;

const PRESS: Event = Event::Button { state: ButtonState::Pressed, button: Button::Action };
const RELEASE: Event = Event::Button { state: ButtonState::Released, button: Button::Action };

fn small(mode: Mode) -> Config {
    Config {
        width: 8,
        height: 6,
        anchor: Coordinate::new(5, 4),
        finger_width: 4,
        default_level: 500_000,
        touched_level: 100_000,
        max_age: 500,
        mode,
    }
}

fn in_touch(x: usize, y: usize) -> bool {
    5 <= x && x < 9 && 4 <= y && y < 8
}

fn levels(pond: &Pond) -> Vec<u32> {
    let (w, h) = pond.dimensions();
    let mut all = Vec::new();
    for y in 0..h {
        for x in 0..w {
            all.push(pond.level(x, y).unwrap());
        }
    }
    all
}

fn ripples(pond: &Pond) -> Vec<Ripple> {
    (0..pond.ripple_count()).map(|k| pond.ripple(k).unwrap()).collect()
}

#[test]
fn default_config_is_the_large_rippling_pond() {
    let c = Config::default();
    assert_eq!(c.width, 1024);
    assert_eq!(c.height, 1024);
    assert_eq!(c.anchor, Coordinate::new(100, 100));
    assert_eq!(c.finger_width, 10);
    assert_eq!(c.default_level, 500_000);
    assert_eq!(c.touched_level, 0);
    assert_eq!(c.max_age, 500);
    assert_eq!(c.mode, Mode::PropagatingRipple);
    assert_eq!(c.check(), Ok(()));
}

#[test]
fn new_pond_is_at_rest() {
    let pond = Pond::new(small(Mode::InstantSet)).unwrap();
    assert_eq!(pond.dimensions(), (8, 6));
    assert_eq!(pond.phase(), Phase::Idle);
    assert_eq!(pond.ripple_count(), 0);
    assert_eq!(pond.ripple(0), None);
    assert_eq!(pond.config(), small(Mode::InstantSet));
    assert_eq!(levels(&pond), vec![500_000; 48]);
    assert_eq!(pond.level(8, 0), None);
    assert_eq!(pond.level(0, 6), None);
}

#[test]
fn default_pond_has_the_default_dimensions() {
    let pond = Pond::new(Config::default()).unwrap();
    assert_eq!(pond.dimensions(), (1024, 1024));
    assert_eq!(pond.level(1023, 1023), Some(500_000));
    assert_eq!(pond.level(1024, 0), None);
}

#[test]
fn config_with_too_many_cells_is_refused() {
    let mut c = small(Mode::InstantSet);
    c.width = usize::MAX;
    c.height = 2;
    assert_eq!(c.check(), Err(ConfigError::GridTooLarge));
    assert_eq!(Pond::new(c).err(), Some(ConfigError::GridTooLarge));
}

#[test]
fn config_with_a_level_above_full_is_refused() {
    let mut c = small(Mode::InstantSet);
    c.default_level = 1_000_001;
    assert_eq!(c.check(), Err(ConfigError::LevelOutOfRange));
    assert_eq!(Pond::new(c).err(), Some(ConfigError::LevelOutOfRange));
    let mut d = small(Mode::PropagatingRipple);
    d.touched_level = u32::MAX;
    assert_eq!(d.check(), Err(ConfigError::LevelOutOfRange));
    assert_eq!(Pond::new(d).err(), Some(ConfigError::LevelOutOfRange));
    let mut e = small(Mode::InstantSet);
    e.default_level = 1_000_000;
    e.touched_level = 1_000_000;
    assert_eq!(e.check(), Ok(()));
}

#[test]
fn rippling_config_without_finger_width_is_refused() {
    let mut c = small(Mode::PropagatingRipple);
    c.finger_width = 0;
    assert_eq!(c.check(), Err(ConfigError::ZeroFingerWidth));
    assert_eq!(Pond::new(c).err(), Some(ConfigError::ZeroFingerWidth));
    let mut d = small(Mode::InstantSet);
    d.finger_width = 0;
    assert_eq!(d.check(), Ok(()));
    assert!(Pond::new(d).is_ok());
}

#[test]
fn size_is_checked_before_levels_and_levels_before_width() {
    let mut c = small(Mode::PropagatingRipple);
    c.width = usize::MAX;
    c.height = usize::MAX;
    c.default_level = 2_000_000;
    c.finger_width = 0;
    assert_eq!(c.check(), Err(ConfigError::GridTooLarge));
    c.width = 8;
    assert_eq!(c.check(), Err(ConfigError::GridTooLarge));
    c.height = 6;
    assert_eq!(c.check(), Err(ConfigError::LevelOutOfRange));
    c.default_level = 0;
    assert_eq!(c.check(), Err(ConfigError::ZeroFingerWidth));
}

#[test]
fn press_sets_the_epicenter_and_release_restores_it() {
    let mut pond = Pond::new(small(Mode::InstantSet)).unwrap();
    pond.tick(&[PRESS]);
    assert_eq!(pond.phase(), Phase::Touching);
    for y in 0..6 {
        for x in 0..8 {
            let expected = if in_touch(x, y) { 100_000 } else { 500_000 };
            assert_eq!(pond.level(x, y), Some(expected));
        }
    }
    assert_eq!(levels(&pond).iter().filter(|l| **l == 100_000).count(), 3 * 2);
    pond.tick(&[]);
    assert_eq!(pond.phase(), Phase::Touching);
    assert_eq!(pond.level(5, 4), Some(100_000));
    pond.tick(&[RELEASE]);
    assert_eq!(pond.phase(), Phase::Idle);
    assert_eq!(levels(&pond), vec![500_000; 48]);
    assert_eq!(pond.ripple_count(), 0);
}

#[test]
fn touch_leaves_cells_outside_the_epicenter_alone() {
    let mut pond = Pond::new(small(Mode::InstantSet)).unwrap();
    pond.update_epicenter(900_000);
    pond.touch();
    assert_eq!(pond.level(5, 4), Some(100_000));
    assert_eq!(pond.level(4, 4), Some(500_000));
    assert_eq!(pond.level(5, 3), Some(500_000));
    pond.release();
    assert_eq!(levels(&pond), vec![500_000; 48]);
}

#[test]
fn update_epicenter_sets_the_touched_cells_only() {
    let mut pond = Pond::new(small(Mode::InstantSet)).unwrap();
    pond.update_epicenter(7);
    for y in 0..6 {
        for x in 0..8 {
            let expected = if in_touch(x, y) { 7 } else { 500_000 };
            assert_eq!(pond.level(x, y), Some(expected));
        }
    }
    assert_eq!(pond.phase(), Phase::Idle);
}

#[test]
fn press_and_release_in_one_batch_is_a_release() {
    let mut both = Pond::new(small(Mode::InstantSet)).unwrap();
    both.tick(&[PRESS, RELEASE]);
    let mut only = Pond::new(small(Mode::InstantSet)).unwrap();
    only.tick(&[RELEASE]);
    assert_eq!(both.phase(), Phase::Idle);
    assert_eq!(levels(&both), vec![500_000; 48]);
    assert_eq!(both.phase(), only.phase());
    assert_eq!(levels(&both), levels(&only));
    assert_eq!(both.ripple_count(), only.ripple_count());
}

#[test]
fn release_then_press_in_one_batch_ends_touching() {
    let mut pond = Pond::new(small(Mode::InstantSet)).unwrap();
    pond.tick(&[RELEASE, PRESS]);
    assert_eq!(pond.phase(), Phase::Touching);
    assert_eq!(pond.level(5, 4), Some(100_000));
}

#[test]
fn other_events_are_ignored() {
    for mode in [Mode::InstantSet, Mode::PropagatingRipple] {
        let mut pond = Pond::new(small(mode)).unwrap();
        pond.tick(&[
            Event::Other,
            Event::Button { state: ButtonState::Pressed, button: Button::Left },
            Event::Button { state: ButtonState::Released, button: Button::Right },
            Event::Button { state: ButtonState::Pressed, button: Button::Up },
            Event::Button { state: ButtonState::Pressed, button: Button::Down },
        ]);
        assert_eq!(pond.phase(), Phase::Idle);
        assert_eq!(pond.ripple_count(), 0);
        assert_eq!(levels(&pond), vec![500_000; 48]);
    }
}

#[test]
fn empty_batch_changes_nothing_in_a_still_pond() {
    let mut pond = Pond::new(small(Mode::InstantSet)).unwrap();
    pond.tick(&[]);
    assert_eq!(pond.phase(), Phase::Idle);
    assert_eq!(pond.ripple_count(), 0);
    assert_eq!(levels(&pond), vec![500_000; 48]);
}

#[test]
fn process_event_follows_the_action_button() {
    let mut pond = Pond::new(small(Mode::InstantSet)).unwrap();
    pond.process_event(&Event::Other);
    assert_eq!(pond.phase(), Phase::Idle);
    pond.process_event(&PRESS);
    assert_eq!(pond.phase(), Phase::Touching);
    pond.process_event(&Event::Button { state: ButtonState::Released, button: Button::Left });
    assert_eq!(pond.phase(), Phase::Touching);
    pond.process_event(&RELEASE);
    assert_eq!(pond.phase(), Phase::Idle);
}

#[test]
fn press_starts_a_ripple_at_the_anchor() {
    let mut pond = Pond::new(small(Mode::PropagatingRipple)).unwrap();
    pond.process_event(&PRESS);
    assert_eq!(pond.phase(), Phase::Touching);
    assert_eq!(ripples(&pond), vec![Ripple { origin: Coordinate::new(5, 4), radius: 4, age: 0 }]);
    assert_eq!(levels(&pond), vec![500_000; 48]);
}

#[test]
fn release_leaves_the_ripples_alone() {
    let mut pond = Pond::new(small(Mode::PropagatingRipple)).unwrap();
    pond.tick(&[PRESS]);
    assert_eq!(ripples(&pond), vec![Ripple { origin: Coordinate::new(5, 4), radius: 4, age: 1 }]);
    pond.tick(&[RELEASE]);
    assert_eq!(pond.phase(), Phase::Idle);
    assert_eq!(ripples(&pond), vec![Ripple { origin: Coordinate::new(5, 4), radius: 4, age: 2 }]);
    assert_eq!(levels(&pond), vec![500_000; 48]);
}

#[test]
fn touching_again_starts_another_ripple() {
    let mut pond = Pond::new(small(Mode::PropagatingRipple)).unwrap();
    pond.tick(&[PRESS]);
    pond.tick(&[]);
    pond.tick(&[PRESS, PRESS]);
    assert_eq!(pond.phase(), Phase::Touching);
    let ages: Vec<u64> = ripples(&pond).iter().map(|r| r.age).collect();
    assert_eq!(ages, vec![3, 1, 1]);
}

#[test]
fn step_ages_the_ripples_and_keeps_the_levels() {
    let mut pond = Pond::new(small(Mode::PropagatingRipple)).unwrap();
    pond.touch();
    pond.step();
    pond.step();
    assert_eq!(ripples(&pond), vec![Ripple { origin: Coordinate::new(5, 4), radius: 4, age: 2 }]);
    assert_eq!(levels(&pond), vec![500_000; 48]);
    assert_eq!(pond.phase(), Phase::Touching);
}

#[test]
fn ripple_is_gone_after_its_lifetime_of_frames() {
    let mut pond = Pond::new(small(Mode::PropagatingRipple)).unwrap();
    pond.tick(&[PRESS]);
    for n in 2..=500u64 {
        pond.tick(&[]);
        assert_eq!(pond.ripple_count(), 1);
        assert_eq!(pond.ripple(0).unwrap().age, n);
    }
    pond.tick(&[]);
    assert_eq!(pond.ripple_count(), 0);
}

#[test]
fn short_lived_ripples_leave_early() {
    let mut c = small(Mode::PropagatingRipple);
    c.max_age = 2;
    let mut pond = Pond::new(c).unwrap();
    pond.tick(&[PRESS]);
    pond.tick(&[PRESS]);
    let ages: Vec<u64> = ripples(&pond).iter().map(|r| r.age).collect();
    assert_eq!(ages, vec![2, 1]);
    pond.tick(&[]);
    let ages: Vec<u64> = ripples(&pond).iter().map(|r| r.age).collect();
    assert_eq!(ages, vec![2]);
    pond.tick(&[]);
    assert_eq!(pond.ripple_count(), 0);
}

#[test]
fn touch_outside_the_field_changes_no_cell() {
    let mut c = small(Mode::InstantSet);
    c.anchor = Coordinate::new(8, 6);
    let mut pond = Pond::new(c).unwrap();
    pond.tick(&[PRESS]);
    assert_eq!(pond.phase(), Phase::Touching);
    assert_eq!(levels(&pond), vec![500_000; 48]);
}
