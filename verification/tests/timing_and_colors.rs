use minigui::primitives::{Color, Point};
use minigui::timer::Timer;

#[test]
fn timer_does_not_fire_before_starting() {
    let mut t = Timer::new(50, true, 0);
    assert!(!t.run(1000));
}

#[test]
fn looping_timer_fires_each_interval_and_rearms() {
    let mut t = Timer::new(50, true, 0);
    t.start(10);
    assert!(!t.run(40));
    assert!(t.run(60));
    // Re-anchored at 60: not yet due at 100, due at 110.
    assert!(!t.run(100));
    assert!(t.run(110));
}

#[test]
fn one_shot_timer_stops_after_firing() {
    let mut t = Timer::new(30, false, 0);
    t.start(0);
    assert!(t.run(30));
    assert!(!t.run(1000));
}

#[test]
fn stop_halts_a_running_timer() {
    let mut t = Timer::new(10, true, 0);
    t.start(0);
    t.stop();
    assert!(!t.run(100));
}

#[test]
fn color_constructors() {
    assert_eq!(Color::rgb(3, 4, 5), Color { r: 3, g: 4, b: 5, a: 255 });
    assert_eq!(Color::black(), Color { r: 0, g: 0, b: 0, a: 255 });
    assert_eq!(Color::white(), Color { r: 255, g: 255, b: 255, a: 255 });
    assert_eq!(Color::default(), Color { r: 0, g: 0, b: 0, a: 0 });
}

#[test]
fn point_constructors() {
    assert_eq!(Point::new(3, -4), Point { x: 3, y: -4 });
    assert_eq!(Point::zero(), Point { x: 0, y: 0 });
}
