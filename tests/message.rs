use health_reminder::message::{delivery_warning, reminder_line, ClockTime, Reminder};

#[test]
fn eyes_line_format() {
    let t = ClockTime::new(9, 5, 7).unwrap();
    assert_eq!(
        reminder_line(Reminder::Eyes, t),
        "[09:05:07] Eye break 👀 — Look away for ~20s. 20-20-20 rule!"
    );
}

#[test]
fn water_line_format() {
    let t = ClockTime::new(23, 59, 59).unwrap();
    assert_eq!(
        reminder_line(Reminder::Water, t),
        "[23:59:59] Hydration 💧 — Drink a few sips of water."
    );
    let midnight = ClockTime::new(0, 0, 0).unwrap();
    assert_eq!(
        reminder_line(Reminder::Water, midnight),
        "[00:00:00] Hydration 💧 — Drink a few sips of water."
    );
}

#[test]
fn clock_time_rejects_out_of_range() {
    assert!(ClockTime::new(24, 0, 0).is_none());
    assert!(ClockTime::new(0, 60, 0).is_none());
    assert!(ClockTime::new(0, 0, 60).is_none());
    let t = ClockTime::new(12, 34, 56).unwrap();
    assert_eq!((t.hour, t.minute, t.second), (12, 34, 56));
}

#[test]
fn reminder_texts() {
    assert_eq!(Reminder::Eyes.title(), "Eye break 👀");
    assert_eq!(Reminder::Water.body(), "Drink a few sips of water.");
    assert_eq!(Reminder::Eyes.option(), "eyes");
    assert_eq!(Reminder::Water.option(), "water");
}

#[test]
fn warning_names_service_and_detail() {
    assert_eq!(
        delivery_warning("DBus", "no service"),
        "(DBus notification failed: no service)"
    );
}
