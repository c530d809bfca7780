use health_reminder::duration::{parse, TimeSpan};
use health_reminder::timer::{Event, Timer};

fn fired_over(timer: &mut Timer, events: &[Event]) -> u128 {
    let mut total: u128 = 0;
    for e in events {
        total += timer.step(*e);
    }
    total
}

#[test]
fn first_reminder_after_one_full_span() {
    let mut t = Timer::new(parse("20m", "eyes").unwrap());
    assert_eq!(t.next_due(), Some(1200));
    assert_eq!(t.step(Event::Clock(0)), 0);
    assert_eq!(t.step(Event::Clock(1199)), 0);
    assert_eq!(t.step(Event::Clock(1200)), 1);
    assert_eq!(t.next_due(), Some(2400));
    assert_eq!(t.step(Event::Clock(2399)), 0);
    assert_eq!(t.step(Event::Clock(2400)), 1);
}

#[test]
fn window_counts_are_floor_of_window_over_span() {
    let window: u128 = 3 * 3600 + 5;
    let mut eyes = Timer::new(parse("20m", "eyes").unwrap());
    let mut water = Timer::new(parse("1h", "water").unwrap());
    let mut eyes_total: u128 = 0;
    let mut water_total: u128 = 0;
    let mut now: u128 = 0;
    while now <= window {
        eyes_total += eyes.step(Event::Clock(now));
        water_total += water.step(Event::Clock(now));
        now += 7;
    }
    eyes_total += eyes.step(Event::Clock(window));
    water_total += water.step(Event::Clock(window));
    assert_eq!(eyes_total, window / 1200);
    assert_eq!(water_total, window / 3600);
    assert_eq!(eyes_total, 9);
    assert_eq!(water_total, 3);
}

#[test]
fn late_reading_fires_every_missed_span() {
    let mut t = Timer::new(TimeSpan::from_secs(60));
    assert_eq!(t.step(Event::Clock(185)), 3);
    assert_eq!(t.step(Event::Clock(100)), 0);
    assert_eq!(t.step(Event::Clock(240)), 1);
}

#[test]
fn cancelled_timer_stays_silent() {
    let mut t = Timer::new(TimeSpan::from_secs(60));
    assert_eq!(t.step(Event::Clock(60)), 1);
    assert_eq!(t.step(Event::Cancel), 0);
    assert!(t.is_cancelled());
    assert_eq!(t.next_due(), None);
    assert_eq!(t.step(Event::Clock(600)), 0);
    assert_eq!(t.step(Event::Clock(6000)), 0);
}

#[test]
fn delivery_failure_changes_nothing() {
    let events = [
        Event::Clock(60),
        Event::DeliveryFailed,
        Event::Clock(120),
        Event::DeliveryFailed,
        Event::DeliveryFailed,
        Event::Clock(200),
    ];
    let clean = [Event::Clock(60), Event::Clock(120), Event::Clock(200)];
    let mut a = Timer::new(TimeSpan::from_secs(60));
    let mut b = Timer::new(TimeSpan::from_secs(60));
    assert_eq!(fired_over(&mut a, &events), fired_over(&mut b, &clean));
    assert_eq!(a.next_due(), b.next_due());
    assert_eq!(a.next_due(), Some(240));
}

#[test]
fn zero_span_fires_on_every_reading() {
    let mut t = Timer::new(parse("0m", "eyes").unwrap());
    assert_eq!(t.next_due(), Some(0));
    assert_eq!(t.step(Event::Clock(0)), 1);
    assert_eq!(t.step(Event::Clock(0)), 1);
    assert_eq!(t.step(Event::Clock(5)), 1);
    assert_eq!(t.next_due(), Some(5));
}

#[test]
fn next_due_beyond_range_is_none() {
    let mut t = Timer::new(TimeSpan::from_secs(u128::MAX / 2 + 1));
    assert_eq!(t.next_due(), Some(u128::MAX / 2 + 1));
    assert_eq!(t.step(Event::Clock(u128::MAX)), 1);
    assert_eq!(t.next_due(), None);
    assert_eq!(t.span().as_secs(), u128::MAX / 2 + 1);
}
