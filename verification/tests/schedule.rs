use is_lenny_free::activity::Activity;
use is_lenny_free::schedule::{current_activity, next_free, next_transition, status, Status};
use is_lenny_free::time::{Instant, TimeOfDay, Weekday};
use is_lenny_free::timeframe::TimeFrame;

#[test]
fn busy_during_lunch() {
    let activities = vec![Activity::new(
        String::from("Lunch"),
        vec![TimeFrame::from_start_end(
            Weekday::Wed,
            TimeOfDay::from_hms_opt(12, 0, 0).unwrap(),
            TimeOfDay::from_hms_opt(13, 0, 0).unwrap(),
        )],
    )];
    let now = Instant::new(Weekday::Wed, TimeOfDay::from_hms_opt(12, 30, 0).unwrap());

    let current = current_activity(&now, &activities).unwrap();
    assert_eq!(current.name(), "Lunch");

    let frame = current.active_timeframe(&now).unwrap();
    assert_eq!(*frame.end(), TimeOfDay::from_hms_opt(13, 0, 0).unwrap());
    assert_eq!(frame.time_remaining(&now).num_minutes(), 30);
}

#[test]
fn next_free_crosses_back_to_back_frames() {
    let activities = vec![Activity::new(
        String::from("Lunch"),
        vec![TimeFrame::from_start_end(
            Weekday::Wed,
            TimeOfDay::from_hms_opt(12, 0, 0).unwrap(),
            TimeOfDay::from_hms_opt(13, 0, 0).unwrap(),
        )],
    ), Activity::new(
        String::from("Meeting"),
        vec![TimeFrame::from_start_end(
            Weekday::Wed,
            TimeOfDay::from_hms_opt(13, 0, 0).unwrap(),
            TimeOfDay::from_hms_opt(13, 30, 0).unwrap(),
        )],
    )];
    let now = Instant::new(Weekday::Wed, TimeOfDay::from_hms_opt(12, 50, 0).unwrap());

    let free = next_free(&now, &activities);
    assert_eq!(
        free,
        Instant::new(Weekday::Wed, TimeOfDay::from_hms_opt(13, 30, 0).unwrap())
    );
}

#[test]
fn next_free_crosses_overlapping_frames() {
    let late = Activity::new(
        String::from("Call"),
        vec![TimeFrame::from_start_end(
            Weekday::Wed,
            TimeOfDay::from_hms_opt(12, 30, 0).unwrap(),
            TimeOfDay::from_hms_opt(14, 0, 0).unwrap(),
        )],
    );
    let activities = vec![Activity::new(
        String::from("Lunch"),
        vec![TimeFrame::from_start_end(
            Weekday::Wed,
            TimeOfDay::from_hms_opt(12, 0, 0).unwrap(),
            TimeOfDay::from_hms_opt(13, 0, 0).unwrap(),
        )],
    ), late];
    let now = Instant::new(Weekday::Wed, TimeOfDay::from_hms_opt(12, 45, 0).unwrap());

    let free = next_free(&now, &activities);
    assert_eq!(
        free,
        Instant::new(Weekday::Wed, TimeOfDay::from_hms_opt(14, 0, 0).unwrap())
    );
}

#[test]
fn next_free_returns_free_instant_at_or_after_now() {
    let activities = vec![Activity::new(
        String::from("Lunch"),
        vec![TimeFrame::from_start_end(
            Weekday::Wed,
            TimeOfDay::from_hms_opt(12, 0, 0).unwrap(),
            TimeOfDay::from_hms_opt(13, 0, 0).unwrap(),
        )],
    ), Activity::new(
        String::from("Meeting"),
        vec![TimeFrame::from_start_end(
            Weekday::Wed,
            TimeOfDay::from_hms_opt(13, 0, 0).unwrap(),
            TimeOfDay::from_hms_opt(13, 30, 0).unwrap(),
        )],
    )];
    let now = Instant::new(Weekday::Wed, TimeOfDay::from_hms_opt(12, 50, 0).unwrap());

    let free = next_free(&now, &activities);
    assert!(now.seconds_from_midnight() <= free.seconds_from_midnight());
    assert_eq!(free.weekday(), now.weekday());
    assert!(current_activity(&free, &activities).is_none());
}

#[test]
fn next_free_is_idempotent() {
    let activities = vec![Activity::new(
        String::from("Lunch"),
        vec![TimeFrame::from_start_end(
            Weekday::Wed,
            TimeOfDay::from_hms_opt(12, 0, 0).unwrap(),
            TimeOfDay::from_hms_opt(13, 0, 0).unwrap(),
        )],
    ), Activity::new(
        String::from("Meeting"),
        vec![TimeFrame::from_start_end(
            Weekday::Wed,
            TimeOfDay::from_hms_opt(13, 0, 0).unwrap(),
            TimeOfDay::from_hms_opt(13, 30, 0).unwrap(),
        )],
    )];
    let now = Instant::new(Weekday::Wed, TimeOfDay::from_hms_opt(12, 50, 0).unwrap());

    let once = next_free(&now, &activities);
    let twice = next_free(&once, &activities);
    assert_eq!(once, twice);
}

#[test]
fn next_free_when_already_free() {
    let activities = vec![Activity::new(
        String::from("Lunch"),
        vec![TimeFrame::from_start_end(
            Weekday::Wed,
            TimeOfDay::from_hms_opt(12, 0, 0).unwrap(),
            TimeOfDay::from_hms_opt(13, 0, 0).unwrap(),
        )],
    )];
    let now = Instant::new(Weekday::Wed, TimeOfDay::from_hms_opt(8, 0, 0).unwrap());
    assert_eq!(next_free(&now, &activities), now);
}

#[test]
fn first_activity_wins_across_activities() {
    let other = Activity::new(
        String::from("Reading"),
        vec![TimeFrame::from_start_end(
            Weekday::Wed,
            TimeOfDay::from_hms_opt(12, 0, 0).unwrap(),
            TimeOfDay::from_hms_opt(14, 0, 0).unwrap(),
        )],
    );
    let activities = vec![Activity::new(
        String::from("Lunch"),
        vec![TimeFrame::from_start_end(
            Weekday::Wed,
            TimeOfDay::from_hms_opt(12, 0, 0).unwrap(),
            TimeOfDay::from_hms_opt(13, 0, 0).unwrap(),
        )],
    ), other];
    let now = Instant::new(Weekday::Wed, TimeOfDay::from_hms_opt(12, 30, 0).unwrap());

    let current = current_activity(&now, &activities).unwrap();
    assert_eq!(current.name(), "Lunch");
}

#[test]
fn transition_to_next_frame_today() {
    let morning = Activity::new(
        String::from("Class"),
        vec![TimeFrame::from_start_end(
            Weekday::Wed,
            TimeOfDay::from_hms_opt(9, 0, 0).unwrap(),
            TimeOfDay::from_hms_opt(10, 0, 0).unwrap(),
        )],
    );
    let activities = vec![morning];
    let now = Instant::new(Weekday::Wed, TimeOfDay::from_hms_opt(8, 0, 0).unwrap());

    assert!(current_activity(&now, &activities).is_none());
    let next = next_transition(&now, &activities).unwrap();
    assert_eq!(next, TimeOfDay::from_hms_opt(9, 0, 0).unwrap());

    match status(&now, &activities) {
        Status::Free { next_busy_start, minutes_until_next_busy } => {
            assert_eq!(next_busy_start, Some(TimeOfDay::from_hms_opt(9, 0, 0).unwrap()));
            assert_eq!(minutes_until_next_busy, Some(60));
        },
        Status::Busy { .. } => panic!("expected a free status"),
    }
}

#[test]
fn empty_weekday_has_no_transition() {
    // Frames exist on Monday, but the reference instant falls on Sunday and
    // the lookahead never crosses the weekday boundary.
    let monday = Activity::new(
        String::from("Work"),
        vec![TimeFrame::from_start_end(
            Weekday::Mon,
            TimeOfDay::from_hms_opt(9, 0, 0).unwrap(),
            TimeOfDay::from_hms_opt(17, 0, 0).unwrap(),
        )],
    );
    let activities = vec![monday];
    let now = Instant::new(Weekday::Sun, TimeOfDay::from_hms_opt(12, 0, 0).unwrap());

    assert!(current_activity(&now, &activities).is_none());
    assert!(next_transition(&now, &activities).is_none());

    match status(&now, &activities) {
        Status::Free { next_busy_start, minutes_until_next_busy } => {
            assert_eq!(next_busy_start, None);
            assert_eq!(minutes_until_next_busy, None);
        },
        Status::Busy { .. } => panic!("expected a free status"),
    }
}

#[test]
fn busy_status_reports_name_end_and_minutes() {
    let activities = vec![Activity::new(
        String::from("Lunch"),
        vec![TimeFrame::from_start_end(
            Weekday::Wed,
            TimeOfDay::from_hms_opt(12, 0, 0).unwrap(),
            TimeOfDay::from_hms_opt(13, 0, 0).unwrap(),
        )],
    ), Activity::new(
        String::from("Meeting"),
        vec![TimeFrame::from_start_end(
            Weekday::Wed,
            TimeOfDay::from_hms_opt(13, 0, 0).unwrap(),
            TimeOfDay::from_hms_opt(13, 30, 0).unwrap(),
        )],
    )];
    let now = Instant::new(Weekday::Wed, TimeOfDay::from_hms_opt(12, 30, 0).unwrap());

    match status(&now, &activities) {
        Status::Busy { activity_name, busy_until, minutes_remaining } => {
            assert_eq!(activity_name, "Lunch");
            assert_eq!(busy_until, TimeOfDay::from_hms_opt(13, 0, 0).unwrap());
            // Free again only at 13:30, once the meeting ends too.
            assert_eq!(minutes_remaining, 60);
        },
        Status::Free { .. } => panic!("expected a busy status"),
    }
}

#[test]
fn no_activities_means_always_free() {
    let activities: Vec<Activity> = vec![];
    let now = Instant::new(Weekday::Wed, TimeOfDay::from_hms_opt(12, 0, 0).unwrap());
    assert!(current_activity(&now, &activities).is_none());
    assert_eq!(next_free(&now, &activities), now);
    assert!(next_transition(&now, &activities).is_none());
}
