use ingame_clock::Calendar;
use ingame_clock::ClockInterval;
use ingame_clock::ClockIntervalTrackers;
use ingame_clock::CustomCalendar;
use ingame_clock::Epoch;
use ingame_clock::InGameClock;
use ingame_clock::Month;
use ingame_clock::expr;

fn small_calendar() -> CustomCalendar {
    CustomCalendar::builder()
        .minutes_per_hour(60)
        .hours_per_day(24)
        .month(Month::new("Alphamoon", 30, 0))
        .weekdays(vec![
            "One".to_string(),
            "Two".to_string(),
            "Three".to_string(),
            "Four".to_string(),
            "Five".to_string(),
        ])
        .leap_years("false")
        .epoch(Epoch::new("Year Zero", 0))
        .build()
}

#[test]
fn false_rule_never_leaps() {
    for year in [-4000i64, -1, 0, 1, 4, 400, 2000, 2024, i64::from(i32::MAX)] {
        assert!(!expr::evaluate("false", year));
    }
    assert!(expr::evaluate("true", 7));
}

#[test]
fn gregorian_rule_matches_convention() {
    let rule = "# % 4 == 0 && (# % 100 != 0 || # % 400 == 0)";
    assert!(expr::evaluate(rule, 2000));
    assert!(expr::evaluate(rule, 2400));
    assert!(!expr::evaluate(rule, 1900));
    assert!(!expr::evaluate(rule, 2100));
    assert!(expr::evaluate(rule, 2024));
    assert!(!expr::evaluate(rule, 2023));
    assert!(expr::evaluate(rule, -4));
    assert!(!expr::evaluate(rule, -100));
}

#[test]
fn malformed_rules_evaluate_false() {
    for year in [-10i64, 0, 4, 2000] {
        assert!(!expr::evaluate("invalid expression here", year));
        assert!(!expr::evaluate("# %", year));
        assert!(!expr::evaluate("(# % 4 == 0", year));
        assert!(!expr::evaluate("# % 0 == 0", year)); // remainder by zero
        assert!(!expr::evaluate("#", year)); // an integer is not a boolean
        assert!(!expr::evaluate("", year));
        assert!(!expr::evaluate("99999999999999999999 == #", year)); // literal too wide
    }
}

#[test]
fn expression_precedence_and_negatives() {
    // ! binds tighter than &&, % tighter than comparisons
    assert!(expr::evaluate("!false && 10 % 4 == 2", 0));
    // parentheses override precedence
    assert!(expr::evaluate("!(true && false)", 0));
    // negative literals, as substituted for negative years
    assert!(expr::evaluate("-6 % 4 == -2", 0));
    assert!(expr::evaluate("# < 0", -3));
    assert!(!expr::evaluate("# < 0", 3));
    assert!(expr::evaluate("# <= 4 && # >= 4 && # != 5", 4));
}

#[test]
fn custom_calendar_unit_scenario() {
    let calendar = CustomCalendar::builder()
        .minutes_per_hour(60)
        .hours_per_day(20)
        .month(Month::new("A", 20, 0))
        .weekdays(vec![
            "D1".to_string(),
            "D2".to_string(),
            "D3".to_string(),
            "D4".to_string(),
            "D5".to_string(),
        ])
        .leap_years("false")
        .epoch(Epoch::new("E", 0))
        .build();
    assert_eq!(calendar.seconds_per_hour(), 3600);
    assert_eq!(calendar.seconds_per_day(), 72000);
    assert_eq!(calendar.seconds_per_week(), 360000);
}

#[test]
fn fantasy_calendar_leap_scenario() {
    let calendar = CustomCalendar::builder()
        .minutes_per_hour(20)
        .hours_per_day(8)
        .month(Month::new("Frostmoon", 20, 3))
        .month(Month::new("Thawmoon", 21, 0))
        .month(Month::new("Bloomtide", 19, 2))
        .weekdays(vec![
            "W1".to_string(),
            "W2".to_string(),
            "W3".to_string(),
            "W4".to_string(),
            "W5".to_string(),
        ])
        .leap_years("# % 2 == 0")
        .epoch(Epoch::new("Age of Magic", 1000))
        .build();
    assert_eq!(calendar.get_date(0), (1000, 1, 1));
    let day_ms: i64 = 8 * 20 * 60 * 1000;
    assert_eq!(calendar.get_date(23 * day_ms), (1000, 2, 1));
}

#[test]
fn advance_scales_by_speed_and_respects_pause() {
    let mut clock = InGameClock::with_start_datetime(2024, 1, 1, 0, 0, 0).with_speed(2500);
    clock.advance(1000);
    assert_eq!(clock.elapsed_ms, 2500);
    clock.advance(400); // 400 * 2.5 = 1000
    assert_eq!(clock.elapsed_ms, 3500);
    clock.pause();
    clock.advance(1_000_000);
    assert_eq!(clock.elapsed_ms, 3500);
    clock.resume();
    clock.set_speed(-1000);
    clock.advance(500);
    assert_eq!(clock.elapsed_ms, 3000);
}

#[test]
fn day_duration_round_trip() {
    let mut clock = InGameClock::new();
    assert_eq!(clock.calendar().seconds_per_day(), 86400);
    clock.set_day_duration(60 * 1000);
    assert_eq!(clock.speed_milli, 1_440_000);
    assert_eq!(clock.day_duration(), 60 * 1000);
}

#[test]
fn registry_deduplicates_by_interval() {
    let mut trackers = ClockIntervalTrackers::new();
    trackers.register(ClockInterval::Day);
    trackers.register(ClockInterval::Day);
    assert_eq!(trackers.trackers.len(), 1);
    trackers.register(ClockInterval::Custom(30));
    trackers.register(ClockInterval::Custom(60));
    trackers.register(ClockInterval::Custom(30));
    assert_eq!(trackers.trackers.len(), 3);
}

#[test]
fn three_crossings_in_one_tick_emit_three_events() {
    let mut clock = InGameClock::with_start_datetime(2024, 1, 1, 0, 0, 0);
    let mut trackers = ClockIntervalTrackers::new();
    trackers.register(ClockInterval::Day);
    clock.elapsed_ms = 3 * 86400 * 1000;
    let events = trackers.check_intervals(&clock);
    assert_eq!(events.len(), 3);
    for (i, ev) in events.iter().enumerate() {
        assert_eq!(ev.interval, ClockInterval::Day);
        assert_eq!(ev.count, (i as u64) + 1);
    }
    // The next check starts from where the last one left off
    let events = trackers.check_intervals(&clock);
    assert_eq!(events.len(), 0);
    clock.elapsed_ms += 86400 * 1000;
    let events = trackers.check_intervals(&clock);
    assert_eq!(events.len(), 1);
    assert_eq!(events[0].count, 4);
}

#[test]
fn no_events_while_paused() {
    let mut clock = InGameClock::with_start_datetime(2024, 1, 1, 0, 0, 0);
    let mut trackers = ClockIntervalTrackers::new();
    trackers.register(ClockInterval::Hour);
    clock.elapsed_ms = 10 * 3600 * 1000; // elapsed advanced just before pausing
    clock.pause();
    let events = trackers.check_intervals(&clock);
    assert_eq!(events.len(), 0);
    assert_eq!(trackers.trackers[0].last_trigger_ms, 0);
    assert_eq!(trackers.trackers[0].count, 0);
    clock.resume();
    let events = trackers.check_intervals(&clock);
    assert_eq!(events.len(), 10);
}

#[test]
fn format_round_trip_standard_calendar() {
    let clock = InGameClock::with_start_datetime(2024, 6, 15, 0, 0, 0);
    assert_eq!(clock.format_date(None), "2024-06-15");
    assert_eq!(clock.format_date(Some("%d/%m/%Y")), "15/06/2024");
}

#[test]
fn custom_calendar_formatting_tokens() {
    let calendar = CustomCalendar::builder()
        .minutes_per_hour(20)
        .hours_per_day(8)
        .month(Month::new("Frostmoon", 20, 3))
        .month(Month::new("Thawmoon", 21, 0))
        .weekdays(vec!["Moonday".to_string(), "Fireday".to_string()])
        .leap_years("false")
        .epoch(Epoch::new("Age of Magic", 1000))
        .build();
    // day 21 of a normal year: second month, first day; 21 days = weekday
    // index 1
    let day_ms: i64 = 8 * 20 * 60 * 1000;
    let e = 21 * day_ms;
    assert_eq!(calendar.get_date(e), (1000, 2, 2));
    assert_eq!(calendar.format_date(e, None), "1000-02-02");
    assert_eq!(
        calendar.format_date(e, Some("%A, %B %d of %Y (%E)")),
        "Fireday, Thawmoon 02 of 1000 (Age of Magic)"
    );
    // time tokens are not a date's business; unknown tokens stay put
    assert_eq!(calendar.format_date(e, Some("%H|%x|%d")), "%H|%x|02");
    assert_eq!(calendar.format_time(e, None), "00:00:00");
    assert_eq!(calendar.format_time(e + 3_723_000, Some("%H.%M.%S")), "03.02.03");
    assert_eq!(calendar.format_datetime(e, None), "1000-02-02 00:00:00");
    assert_eq!(
        calendar.format_datetime(e + 3_723_000, Some("%Y/%m/%d %H:%M:%S")),
        "1000/02/02 03:02:03"
    );
}

#[test]
fn negative_elapsed_time_is_monotonic() {
    let calendar = small_calendar();
    let day_ms: i64 = 86400 * 1000;
    // one day before the epoch: last day of year -1
    assert_eq!(calendar.get_date(-day_ms), (-1, 1, 30));
    assert_eq!(calendar.get_date(-30 * day_ms), (-1, 1, 1));
    assert_eq!(calendar.get_date(-31 * day_ms), (-2, 1, 30));
    // one second before the epoch: end of the previous day
    assert_eq!(calendar.get_time(-1000), (23, 59, 59));
    // negative years keep the zero-padding convention of the formatter
    assert_eq!(calendar.format_date(-day_ms, None), "-001-01-30");
}

#[test]
fn weekdays_cycle_through_elapsed_days() {
    let calendar = small_calendar();
    let day_ms: i64 = 86400 * 1000;
    assert_eq!(calendar.format_date(0, Some("%A")), "One");
    assert_eq!(calendar.format_date(day_ms, Some("%A")), "Two");
    assert_eq!(calendar.format_date(4 * day_ms, Some("%A")), "Five");
    assert_eq!(calendar.format_date(5 * day_ms, Some("%A")), "One");
    assert_eq!(calendar.format_date(-day_ms, Some("%A")), "Five");
}

#[test]
fn custom_interval_periods_follow_calendar_changes() {
    let calendar = Calendar::Custom(small_calendar());
    let mut clock = InGameClock::with_start_datetime(2024, 1, 1, 0, 0, 0);
    let mut trackers = ClockIntervalTrackers::new();
    trackers.register(ClockInterval::Custom(30));
    clock.elapsed_ms = 90 * 1000;
    let events = trackers.check_intervals(&clock);
    assert_eq!(events.len(), 3);
    // the tracked state survives a calendar swap; fixed periods are
    // unaffected by it
    clock = clock.with_calendar(calendar);
    clock.elapsed_ms = 120 * 1000;
    let events = trackers.check_intervals(&clock);
    assert_eq!(events.len(), 1);
    assert_eq!(events[0].count, 4);
}

#[test]
fn year_division_ignores_leap_days_by_design() {
    // The year is found by dividing total days by the *normal* year
    // length, even when every year is a leap year.  This pins the
    // documented (drifting) behavior: after 10 elapsed days the date
    // reads year 1, although the 15-day leap year 0 has five days left.
    let calendar = CustomCalendar::builder()
        .minutes_per_hour(60)
        .hours_per_day(24)
        .month(Month::new("Onlymoon", 10, 5))
        .weekday("Day")
        .leap_years("true")
        .epoch(Epoch::new("E", 0))
        .build();
    let day_ms: i64 = 86400 * 1000;
    assert_eq!(calendar.get_date(9 * day_ms), (0, 1, 10));
    assert_eq!(calendar.get_date(10 * day_ms), (1, 1, 1));
}
