use asstime::class::{Class, CLASS_NUM};
use asstime::clock::{Span, Stamp};
use asstime::ledger::Entry;
use asstime::session::{render_entries, total_entries, App, ShowArgs};
use asstime::store::Data;
use asstime::text::format_span;
use asstime::time::{Time, TimeError};

fn closed(class: Class, start: u64, end: u64) -> Time {
    Time { start: Some(Stamp::new(start, 0)), end: Some(Stamp::new(end, 0)), class }
}

fn args(class: Option<&str>, active_only: bool, previous: Option<i32>, sum: bool) -> ShowArgs {
    ShowArgs { class: class.map(|c| c.to_string()), active_only, previous, sum }
}

#[test]
fn formats_zero_seconds() {
    assert_eq!(format_span(&Span::from_secs(0)), "0m 0s");
}

#[test]
fn formats_ninety_seconds() {
    assert_eq!(format_span(&Span::from_secs(90)), "1m 30s");
}

#[test]
fn formats_one_hour_one_minute_one_second() {
    assert_eq!(format_span(&Span::from_secs(3661)), "1h 1m 1s");
}

#[test]
fn formats_just_under_two_hours() {
    assert_eq!(format_span(&Span::from_secs(7199)), "1h 59m 59s");
}

#[test]
fn formats_many_hours_and_ignores_the_fraction() {
    assert_eq!(format_span(&Span { secs: 360_000 + 59, nanos: 999_999_999 }), "100h 0m 59s");
}

#[test]
fn parses_class_names_without_regard_to_case() {
    assert_eq!(Class::from("HEALTH".to_string()), Class::Health);
    assert_eq!(Class::from("PhYsIcs".to_string()), Class::Physics);
    assert_eq!(Class::parse("Econ"), Class::Econ);
    assert_eq!(Class::parse("stats"), Class::Stats);
    assert_eq!(Class::parse("CALC"), Class::Calc);
    assert_eq!(Class::parse("cHEM"), Class::Chem);
    assert_eq!(Class::parse("English"), Class::English);
}

#[test]
fn unknown_class_names_are_the_catch_all() {
    assert_eq!(Class::parse("history"), Class::Other);
    assert_eq!(Class::parse(""), Class::Other);
    assert_eq!(Class::parse("other"), Class::Other);
    assert_eq!(Class::parse(" health"), Class::Other);
}

#[test]
fn lowercased_matching_is_exact() {
    assert_eq!(Class::from_lowercase("health"), Class::Health);
    assert_eq!(Class::from_lowercase("Health"), Class::Other);
}

#[test]
fn class_names_are_capitalised() {
    assert_eq!(Class::Health.to_string(), "Health");
    assert_eq!(Class::Other.to_string(), "Other");
    for c in Class::all() {
        assert_eq!(Class::parse(&c.to_string()), c);
    }
}

#[test]
fn all_lists_the_named_classes_in_order() {
    let all = Class::all();
    assert_eq!(all.len(), CLASS_NUM);
    assert_eq!(
        all,
        vec![
            Class::Health,
            Class::Physics,
            Class::Econ,
            Class::Stats,
            Class::Calc,
            Class::Chem,
            Class::English
        ]
    );
    for (i, c) in all.iter().enumerate() {
        assert_eq!(c.index(), i);
        assert_eq!(Class::from_index(i), *c);
    }
    assert_eq!(Class::Other.index(), 7);
    assert_eq!(Class::from_index(7), Class::Other);
}

#[test]
fn list_class_gives_the_seven_names() {
    let app = App::new();
    assert_eq!(
        app.list_class(),
        vec!["Health", "Physics", "Econ", "Stats", "Calc", "Chem", "English"]
    );
}

#[test]
fn new_timer_has_no_bounds() {
    let t = Time::new(Class::Chem);
    assert_eq!(t.start, None);
    assert_eq!(t.end, None);
    assert_eq!(t.class, Class::Chem);
    assert_eq!(t.duration(), Err(TimeError::NoStartTime));
    assert_eq!(t.render_at(Stamp::new(5, 0)), Ok(String::new()));
}

#[test]
fn set_start_and_set_end_read_the_clock() {
    let mut t = Time::new(Class::Calc);
    t.set_start();
    assert!(t.start.is_some());
    assert_eq!(t.end, None);
    let started = t.start.unwrap();
    assert!(!started.before_epoch);
    assert!(started.secs > 1_500_000_000);
    assert!(started.nanos < 1_000_000_000);
    t.set_end();
    assert!(t.end.is_some());
    assert_eq!(t.start, Some(started));
    assert_eq!(t.class, Class::Calc);
    let d = t.duration().unwrap();
    assert!(d.secs < 60);
}

#[test]
fn open_timer_is_measured_up_to_now() {
    let mut t = Time::new(Class::Calc);
    t.start_at(Stamp::new(100, 500_000_000));
    assert_eq!(t.duration_at(Stamp::new(190, 750_000_000)), Ok(Span { secs: 90, nanos: 250_000_000 }));
    assert_eq!(t.render_at(Stamp::new(190, 750_000_000)), Ok("1m 30s".to_string()));
    assert!(t.duration().is_ok());
}

#[test]
fn closed_timer_is_measured_up_to_its_end() {
    let t = closed(Class::Econ, 1000, 4661);
    assert_eq!(t.duration_at(Stamp::new(9_999_999, 0)), Ok(Span::from_secs(3661)));
    assert_eq!(t.duration(), Ok(Span::from_secs(3661)));
    assert_eq!(t.to_string(), Ok("1h 1m 1s".to_string()));
}

#[test]
fn borrowing_nanoseconds_across_the_second() {
    let t = Time {
        start: Some(Stamp::new(10, 900_000_000)),
        end: Some(Stamp::new(12, 100_000_000)),
        class: Class::Other,
    };
    assert_eq!(t.duration(), Ok(Span { secs: 1, nanos: 200_000_000 }));
}

#[test]
fn stamps_on_both_sides_of_the_epoch() {
    let before = Stamp { before_epoch: true, secs: 5, nanos: 0 };
    assert_eq!(before.offset_nanos(), -5_000_000_000);
    assert_eq!(Stamp::new(2, 7).offset_nanos(), 2_000_000_007);
    let t = Time { start: Some(before), end: Some(Stamp::new(5, 0)), class: Class::Other };
    assert_eq!(t.duration(), Ok(Span::from_secs(10)));
}

#[test]
fn end_before_start_is_clock_skew() {
    let t = closed(Class::Econ, 100, 99);
    assert_eq!(t.duration(), Err(TimeError::ClockSkew));
    assert_eq!(t.render_at(Stamp::new(0, 0)), Err(TimeError::ClockSkew));
    let mut open = Time::new(Class::Econ);
    open.start_at(Stamp::new(100, 1));
    assert_eq!(open.duration_at(Stamp::new(100, 0)), Err(TimeError::ClockSkew));
    assert_eq!(open.duration_at(Stamp::new(100, 1)), Ok(Span::from_secs(0)));
}

#[test]
fn overlong_timer_is_out_of_range() {
    let longest = 9_223_372_036_854_775u64;
    let t = closed(Class::Econ, 0, longest + 1);
    assert_eq!(t.duration(), Err(TimeError::OutOfRange));
    let t = closed(Class::Econ, 0, longest);
    assert_eq!(t.duration(), Ok(Span::from_secs(longest)));
    let t = closed(Class::Econ, 0, u64::MAX);
    assert_eq!(t.duration(), Err(TimeError::OutOfRange));
    let far = Time {
        start: Some(Stamp { before_epoch: true, secs: u64::MAX, nanos: 0 }),
        end: Some(Stamp::new(u64::MAX, 0)),
        class: Class::Econ,
    };
    assert_eq!(far.duration(), Err(TimeError::OutOfRange));
}

#[test]
fn longest_span_is_i64_max_milliseconds() {
    let max: u128 = 9_223_372_036_854_775_807u128 * 1_000_000;
    assert_eq!(
        Span::from_nanos(max),
        Some(Span { secs: 9_223_372_036_854_775, nanos: 807_000_000 })
    );
    assert_eq!(Span::from_nanos(max + 1), None);
    assert_eq!(Span::from_nanos(0), Some(Span::zero()));
    assert_eq!(Span::from_nanos(1_500_000_000), Some(Span { secs: 1, nanos: 500_000_000 }));
    assert_eq!(Span::from_nanos(u128::MAX), None);
}

#[test]
fn spans_add_with_carry() {
    let a = Span { secs: 1, nanos: 600_000_000 };
    let b = Span { secs: 2, nanos: 600_000_000 };
    assert_eq!(a.checked_add(&b), Some(Span { secs: 4, nanos: 200_000_000 }));
    let big = Span::from_secs(9_223_372_036_854_775);
    assert_eq!(big.checked_add(&Span::from_secs(1)), None);
    assert_eq!(big.checked_add(&Span { secs: 0, nanos: 807_000_000 }), Span::from_nanos(9_223_372_036_854_775_807u128 * 1_000_000));
}

#[test]
fn starting_twice_is_refused() {
    for c in [Class::Health, Class::English, Class::Other] {
        let mut app = App::new();
        assert_eq!(
            app.start_timer_at(c, Stamp::new(10, 0)),
            Ok(format!("Timer started for {}", c.to_string()))
        );
        let before = app.data.active();
        assert_eq!(app.start_timer_at(c, Stamp::new(20, 0)), Err(TimeError::AlreadyActive));
        assert_eq!(app.data.active(), before);
        assert_eq!(app.start_timer(c), Err(TimeError::AlreadyActive));
        assert_eq!(app.data.active(), before);
        assert_eq!(
            before,
            vec![Entry {
                label: c,
                time: Time { start: Some(Stamp::new(10, 0)), end: None, class: c },
                active: true
            }]
        );
    }
}

#[test]
fn stopping_or_cancelling_needs_a_start() {
    for i in 0..8 {
        let c = Class::from_index(i);
        let mut app = App::new();
        app.data.push_history(closed(Class::Calc, 1, 2));
        assert_eq!(app.end_timer_at(c, Stamp::new(10, 0)), Err(TimeError::NotActive));
        assert_eq!(app.end_timer(c), Err(TimeError::NotActive));
        assert_eq!(app.cancel_timer(c), Err(TimeError::NotActive));
        assert_eq!(app.data.times(), vec![closed(Class::Calc, 1, 2)]);
        assert!(app.data.active().is_empty());
    }
}

#[test]
fn start_then_stop_logs_one_closed_timer() {
    let mut app = App::new();
    app.data.push_history(closed(Class::Calc, 1, 2));
    app.start_timer_at(Class::Stats, Stamp::new(100, 0)).unwrap();
    assert_eq!(
        app.end_timer_at(Class::Stats, Stamp::new(190, 0)),
        Ok("Timer stopped for Stats with time 1m 30s".to_string())
    );
    assert_eq!(app.data.times(), vec![closed(Class::Calc, 1, 2), closed(Class::Stats, 100, 190)]);
    assert_eq!(app.data.get_active(Class::Stats), None);
    assert!(app.data.active().is_empty());
}

#[test]
fn start_then_stop_with_the_clock() {
    let mut app = App::new();
    assert!(app.start_timer(Class::Chem).is_ok());
    assert!(app.data.get_active(Class::Chem).is_some());
    let msg = app.end_timer(Class::Chem).unwrap();
    assert!(msg.starts_with("Timer stopped for Chem with time 0m "));
    let log = app.data.times();
    assert_eq!(log.len(), 1);
    assert_eq!(log[0].class, Class::Chem);
    let (s, e) = (log[0].start.unwrap(), log[0].end.unwrap());
    assert!(e.offset_nanos() >= s.offset_nanos());
    assert_eq!(app.data.get_active(Class::Chem), None);
}

#[test]
fn stop_against_a_clock_gone_back_is_refused() {
    let mut app = App::new();
    app.start_timer_at(Class::Stats, Stamp::new(100, 0)).unwrap();
    assert_eq!(app.end_timer_at(Class::Stats, Stamp::new(99, 0)), Err(TimeError::ClockSkew));
    assert!(app.data.times().is_empty());
    assert!(app.data.get_active(Class::Stats).is_some());
    assert_eq!(
        app.data.get_active(Class::Stats),
        Some(Time { start: Some(Stamp::new(100, 0)), end: None, class: Class::Stats })
    );
}

#[test]
fn start_then_cancel_leaves_no_trace() {
    let mut app = App::new();
    app.data.push_history(closed(Class::Calc, 1, 2));
    app.start_timer_at(Class::Physics, Stamp::new(100, 0)).unwrap();
    assert_eq!(app.cancel_timer(Class::Physics), Ok("Timer canceled for Physics".to_string()));
    assert_eq!(app.data.times().len(), 1);
    assert_eq!(app.data.get_active(Class::Physics), None);
    assert_eq!(app.cancel_timer(Class::Physics), Err(TimeError::NotActive));
}

#[test]
fn classes_are_tracked_apart() {
    let mut app = App::new();
    app.start_timer_at(Class::Econ, Stamp::new(5, 0)).unwrap();
    app.start_timer_at(Class::Health, Stamp::new(6, 0)).unwrap();
    assert_eq!(app.cancel_timer(Class::Calc), Err(TimeError::NotActive));
    let active = app.data.active();
    assert_eq!(active.len(), 2);
    assert_eq!(active[0].label, Class::Health);
    assert_eq!(active[1].label, Class::Econ);
    app.cancel_timer(Class::Health).unwrap();
    assert_eq!(app.data.active().len(), 1);
    assert!(app.data.get_active(Class::Econ).is_some());
}

#[test]
fn show_previous_two_of_three() {
    let mut app = App::new();
    app.data.push_history(closed(Class::Calc, 0, 60));
    app.data.push_history(closed(Class::Econ, 0, 1));
    app.data.push_history(closed(Class::Calc, 0, 120));
    app.data.push_history(closed(Class::Calc, 0, 180));
    let picked = app.select_timer(Class::Calc, Some(2), false);
    assert_eq!(picked.len(), 3);
    let lines = app.show_at(&args(Some("calc"), false, Some(1), false), Stamp::new(500, 0)).unwrap();
    assert_eq!(lines, vec!["Calc: 3m 0s", "Calc: 2m 0s"]);
}

#[test]
fn show_with_previous_two_lists_newest_then_older() {
    let mut app = App::new();
    app.data.push_history(closed(Class::Calc, 0, 60));
    app.data.push_history(closed(Class::Calc, 0, 120));
    app.data.push_history(closed(Class::Calc, 0, 180));
    let lines = app.show_timer_at(Class::Calc, &args(None, false, Some(1), false), Stamp::new(500, 0)).unwrap();
    assert_eq!(lines, vec!["Calc: 3m 0s", "Calc: 2m 0s"]);
    let lines = app.show_timer_at(Class::Calc, &args(None, false, Some(2), false), Stamp::new(500, 0)).unwrap();
    assert_eq!(lines, vec!["Calc: 3m 0s", "Calc: 2m 0s", "Calc: 1m 0s"]);
    let lines = app.show_timer_at(Class::Calc, &args(None, false, None, false), Stamp::new(500, 0)).unwrap();
    assert_eq!(lines, vec!["Calc: 3m 0s"]);
}

#[test]
fn show_counts_the_active_timer() {
    let mut app = App::new();
    app.data.push_history(closed(Class::Calc, 0, 60));
    app.data.push_history(closed(Class::Calc, 0, 120));
    app.start_timer_at(Class::Calc, Stamp::new(400, 0)).unwrap();
    let now = Stamp::new(500, 0);
    let lines = app.show_timer_at(Class::Calc, &args(None, false, Some(1), false), now).unwrap();
    assert_eq!(lines, vec!["Calc: 1m 40s (active)", "Calc: 2m 0s"]);
    let lines = app.show_timer_at(Class::Calc, &args(None, false, None, false), now).unwrap();
    assert_eq!(lines, vec!["Calc: 1m 40s (active)"]);
    let lines = app.show_timer_at(Class::Calc, &args(None, true, Some(5), false), now).unwrap();
    assert_eq!(lines, vec!["Calc: 1m 40s (active)"]);
    let lines = app.show_timer_at(Class::Calc, &args(None, true, None, false), now).unwrap();
    assert_eq!(lines, vec!["Calc: 1m 40s (active)"]);
    assert!(app.show_timer(Class::Calc, &args(None, false, None, false)).is_ok());
}

#[test]
fn show_of_a_class_with_nothing_gives_the_notice() {
    let mut app = App::new();
    app.data.push_history(closed(Class::Calc, 0, 60));
    let now = Stamp::new(500, 0);
    let lines = app.show_timer_at(Class::Chem, &args(None, false, Some(3), false), now).unwrap();
    assert_eq!(lines, vec!["No timer found for Chem"]);
    let lines = app.show_timer_at(Class::Calc, &args(None, false, Some(-1), false), now).unwrap();
    assert_eq!(lines, vec!["No timer found for Calc"]);
    let lines = app.show_timer_at(Class::Calc, &args(None, true, None, false), now).unwrap();
    assert_eq!(lines, vec!["No timer found for Calc"]);
    let lines = app.show_at(&args(Some("nonsense"), false, None, false), now).unwrap();
    assert_eq!(lines, vec!["No timer found for Other"]);
}

#[test]
fn show_all_lists_active_then_newest_per_class() {
    let mut app = App::new();
    app.data.push_history(closed(Class::Calc, 0, 60));
    app.data.push_history(closed(Class::Econ, 0, 30));
    app.data.push_history(closed(Class::Calc, 0, 120));
    app.data.push_history(closed(Class::Stats, 0, 5));
    app.start_timer_at(Class::Stats, Stamp::new(400, 0)).unwrap();
    app.start_timer_at(Class::Health, Stamp::new(450, 0)).unwrap();
    let now = Stamp::new(500, 0);
    let lines = app.show_timers_at(&args(None, false, None, false), now).unwrap();
    assert_eq!(
        lines,
        vec!["Health: 0m 50s (active)", "Stats: 1m 40s (active)", "Calc: 2m 0s", "Econ: 0m 30s"]
    );
    let lines = app.show_at(&args(None, true, None, true), now).unwrap();
    assert_eq!(lines, vec!["Health: 0m 50s (active)", "Stats: 1m 40s (active)"]);
    let lines = app.show_at(&args(None, false, None, true), now).unwrap();
    assert_eq!(
        lines,
        vec![
            "Health: 0m 50s (active)",
            "Stats: 1m 40s (active)",
            "Calc: 2m 0s",
            "Econ: 0m 30s",
            "Total: 5m 0s"
        ]
    );
    assert!(app.show(&args(None, false, None, true)).is_ok());
    assert!(app.show_timers(&args(None, false, None, false)).is_ok());
}

#[test]
fn show_all_stops_once_every_named_class_is_shown() {
    let mut app = App::new();
    app.data.push_history(closed(Class::Other, 0, 9));
    for c in Class::all() {
        app.data.push_history(closed(c, 0, 60));
    }
    let picked = app.select_timers(false);
    assert_eq!(picked.len(), 7);
    assert_eq!(picked[0].label, Class::English);
    assert_eq!(picked[6].label, Class::Health);
    app.data.push_history(closed(Class::Other, 0, 9));
    let picked = app.select_timers(false);
    assert_eq!(picked.len(), 8);
    assert_eq!(picked[0].label, Class::Other);
}

#[test]
fn sum_of_two_half_hours_is_one_hour() {
    let mut app = App::new();
    app.data.push_history(closed(Class::Calc, 1000, 2800));
    app.data.push_history(closed(Class::Econ, 5000, 6800));
    assert_eq!(app.sum_at(Stamp::new(9000, 0)), Ok("Total: 1h 0m 0s".to_string()));
    assert_eq!(app.sum(), Ok("Total: 1h 0m 0s".to_string()));
}

#[test]
fn sum_takes_one_timer_per_class_and_prefers_the_active() {
    let mut app = App::new();
    app.data.push_history(closed(Class::Calc, 0, 1000));
    app.data.push_history(closed(Class::Calc, 0, 60));
    app.data.push_history(closed(Class::Econ, 0, 30));
    app.start_timer_at(Class::Econ, Stamp::new(490, 0)).unwrap();
    assert_eq!(app.sum_at(Stamp::new(500, 0)), Ok("Total: 1m 10s".to_string()));
    assert_eq!(App::new().sum_at(Stamp::new(500, 0)), Ok("Total: 0m 0s".to_string()));
}

#[test]
fn sum_keeps_fractions_until_the_end() {
    let mut app = App::new();
    let half = |c| Time {
        start: Some(Stamp::new(0, 0)),
        end: Some(Stamp::new(0, 600_000_000)),
        class: c,
    };
    app.data.push_history(half(Class::Calc));
    app.data.push_history(half(Class::Econ));
    assert_eq!(app.sum_at(Stamp::new(1, 0)), Ok("Total: 0m 1s".to_string()));
}

#[test]
fn sum_fails_where_a_timer_fails() {
    let mut app = App::new();
    app.data.push_history(closed(Class::Calc, 10, 5));
    app.data.push_history(closed(Class::Econ, 0, 30));
    assert_eq!(app.sum_at(Stamp::new(500, 0)), Err(TimeError::ClockSkew));
    let mut app = App::new();
    app.data.push_history(Time { start: None, end: Some(Stamp::new(1, 0)), class: Class::Calc });
    assert_eq!(app.sum_at(Stamp::new(500, 0)), Err(TimeError::NoStartTime));
    let mut app = App::new();
    app.data.push_history(closed(Class::Calc, 0, 9_000_000_000_000_000));
    app.data.push_history(closed(Class::Econ, 0, 9_000_000_000_000_000));
    assert_eq!(app.sum_at(Stamp::new(500, 0)), Err(TimeError::OutOfRange));
    assert_eq!(
        app.show_timers_at(&args(None, false, None, true), Stamp::new(0, 0)),
        Err(TimeError::OutOfRange)
    );
}

#[test]
fn rendering_and_totalling_lists() {
    let entries = vec![
        Entry { label: Class::Chem, time: closed(Class::Chem, 0, 3600), active: false },
        Entry { label: Class::Other, time: closed(Class::Other, 0, 59), active: true },
    ];
    assert_eq!(
        render_entries(&entries, Stamp::new(0, 0)),
        Ok(vec!["Chem: 1h 0m 0s".to_string(), "Other: 0m 59s (active)".to_string()])
    );
    assert_eq!(total_entries(&entries, Stamp::new(0, 0)), Ok(Span::from_secs(3659)));
    assert_eq!(render_entries(&Vec::new(), Stamp::new(0, 0)), Ok(Vec::new()));
}

#[test]
fn store_round_trips_through_its_parts() {
    let mut app = App::new();
    app.data.push_history(closed(Class::Calc, 0, 60));
    app.data.push_history(closed(Class::Econ, 0, 30));
    app.start_timer_at(Class::Other, Stamp::new(7, 1)).unwrap();
    app.start_timer_at(Class::Physics, Stamp::new(8, 2)).unwrap();
    let times = app.data.times();
    let active: Vec<(Class, Time)> = app.data.active().iter().map(|e| (e.label, e.time)).collect();
    let back = Data::from_parts(times.clone(), active);
    assert_eq!(back.times(), times);
    assert_eq!(back.active(), app.data.active());
    assert_eq!(back.history_len(), 2);
    assert_eq!(back.history_at(1), closed(Class::Econ, 0, 30));
}

#[test]
fn empty_store_has_nothing() {
    let d = Data::new();
    assert_eq!(d.history_len(), 0);
    assert!(d.times().is_empty());
    assert!(d.active().is_empty());
    for i in 0..8 {
        assert_eq!(d.get_active(Class::from_index(i)), None);
    }
}

#[test]
fn later_active_timer_of_a_class_replaces_the_earlier() {
    let a = Time { start: Some(Stamp::new(1, 0)), end: None, class: Class::Chem };
    let b = Time { start: Some(Stamp::new(2, 0)), end: None, class: Class::Chem };
    let d = Data::from_parts(Vec::new(), vec![(Class::Chem, a), (Class::Calc, a), (Class::Chem, b)]);
    assert_eq!(d.get_active(Class::Chem), Some(b));
    assert_eq!(d.get_active(Class::Calc), Some(a));
    assert_eq!(d.active().len(), 2);
    assert_eq!(d.active()[0], Entry { label: Class::Calc, time: a, active: true });
}

#[test]
fn load_of_an_unreadable_document_is_an_empty_store() {
    let d = Data::load(None);
    assert!(d.times().is_empty());
    assert!(d.active().is_empty());
    assert_eq!(d.history_len(), 0);
}

#[test]
fn load_of_a_read_document_keeps_its_parts() {
    let open = Time { start: Some(Stamp::new(3, 4)), end: None, class: Class::English };
    let d = Data::load(Some((vec![closed(Class::Calc, 0, 60)], vec![(Class::English, open)])));
    assert_eq!(d.times(), vec![closed(Class::Calc, 0, 60)]);
    assert_eq!(d.active(), vec![Entry { label: Class::English, time: open, active: true }]);
}

#[test]
fn save_then_load_gives_the_same_store() {
    let mut app = App::new();
    app.data.push_history(closed(Class::Calc, 0, 60));
    app.data.push_history(closed(Class::Other, 5, 30));
    app.data.push_history(closed(Class::Calc, 70, 80));
    app.start_timer_at(Class::English, Stamp::new(7, 1)).unwrap();
    app.start_timer_at(Class::Health, Stamp::new(8, 2)).unwrap();
    let (times, active) = app.data.save();
    assert_eq!(times, app.data.times());
    assert_eq!(
        active,
        vec![
            (Class::Health, Time { start: Some(Stamp::new(8, 2)), end: None, class: Class::Health }),
            (Class::English, Time { start: Some(Stamp::new(7, 1)), end: None, class: Class::English })
        ]
    );
    let back = Data::load(Some((times, active)));
    assert_eq!(back.times(), app.data.times());
    assert_eq!(back.active(), app.data.active());
    let empty = Data::load(Some(Data::new().save()));
    assert!(empty.times().is_empty());
    assert!(empty.active().is_empty());
}
