use ingame_clock::Calendar;
use ingame_clock::ClockInterval;
use ingame_clock::CustomCalendar;
use ingame_clock::Epoch;
use ingame_clock::GregorianCalendar;
use ingame_clock::InGameClock;
use ingame_clock::Month;

#[test]
fn test_clock_default() {
    let clock = InGameClock::default();
    assert_eq!(clock.elapsed_ms, 0);
    assert_eq!(clock.speed_milli, 1000);
    assert!(!clock.paused);
}

#[test]
fn test_clock_with_speed() {
    let clock = InGameClock::new().with_speed(2000);
    assert_eq!(clock.speed_milli, 2000);
}

#[test]
fn test_clock_pause() {
    let mut clock = InGameClock::new();
    assert!(!clock.paused);
    clock.pause();
    assert!(clock.paused);
    clock.resume();
    assert!(!clock.paused);
}

#[test]
fn test_clock_toggle_pause() {
    let mut clock = InGameClock::new();
    assert!(!clock.paused);
    clock.toggle_pause();
    assert!(clock.paused);
    clock.toggle_pause();
    assert!(!clock.paused);
}

#[test]
fn test_as_hms() {
    let mut clock = InGameClock::with_start_datetime(2024, 1, 1, 0, 0, 0);

    // At 0 elapsed time
    assert_eq!(clock.as_hms(), (0, 0, 0));

    // 1 hour, 2 minutes, 3 seconds
    clock.elapsed_ms = 3723 * 1000;
    assert_eq!(clock.as_hms(), (1, 2, 3));

    // Day wrap (should show hour 0-23)
    clock.elapsed_ms = (86400 + 3600) * 1000; // 1 day + 1 hour
    assert_eq!(clock.as_hms(), (1, 0, 0));
}

#[test]
fn test_with_start_datetime() {
    let clock = InGameClock::with_start_datetime(2024, 1, 15, 10, 30, 45);
    assert_eq!(clock.elapsed_ms, 0);
    let (year, month, day) = clock.current_date();
    assert_eq!((year, month, day), (2024, 1, 15));
    let (hour, minute, second) = clock.current_time();
    assert_eq!((hour, minute, second), (10, 30, 45));
}

#[test]
fn test_current_datetime() {
    let mut clock = InGameClock::with_start_datetime(2024, 1, 15, 10, 30, 45);

    // At start
    let (year, month, day) = clock.current_date();
    let (hour, minute, second) = clock.current_time();
    assert_eq!((year, month, day), (2024, 1, 15));
    assert_eq!((hour, minute, second), (10, 30, 45));

    // After 1 hour
    clock.elapsed_ms = 3600 * 1000;
    let (year, month, day) = clock.current_date();
    let (hour, minute, second) = clock.current_time();
    assert_eq!((year, month, day), (2024, 1, 15));
    assert_eq!((hour, minute, second), (11, 30, 45));

    // After crossing midnight
    clock.elapsed_ms = 14 * 3600 * 1000; // 14 hours
    let (year, month, day) = clock.current_date();
    let (hour, minute, second) = clock.current_time();
    assert_eq!((year, month, day), (2024, 1, 16));
    assert_eq!((hour, minute, second), (0, 30, 45));
}

#[test]
fn test_format_date() {
    let clock = InGameClock::with_start_datetime(2024, 3, 5, 0, 0, 0);
    assert_eq!(clock.format_date(None), "2024-03-05");
    assert_eq!(clock.format_date(Some("%d/%m/%Y")), "05/03/2024");
    assert_eq!(clock.format_date(Some("%B %d, %Y")), "March 05, 2024");
}

#[test]
fn test_format_datetime() {
    let clock = InGameClock::with_start_datetime(2024, 12, 31, 23, 59, 59);
    assert_eq!(clock.format_datetime(None), "2024-12-31 23:59:59");
    assert_eq!(clock.format_datetime(Some("%d/%m/%Y %H:%M")), "31/12/2024 23:59");
}

#[test]
fn test_format_time() {
    let clock = InGameClock::with_start_datetime(2024, 6, 15, 14, 30, 45);
    assert_eq!(clock.format_time(None), "14:30:45");
    assert_eq!(clock.format_time(Some("%I:%M %p")), "02:30 PM");
    assert_eq!(clock.format_time(Some("%H:%M")), "14:30");
}

#[test]
fn test_month_overflow() {
    let mut clock = InGameClock::with_start_datetime(2024, 1, 31, 0, 0, 0);

    // Add 24 hours (should go to Feb 1)
    clock.elapsed_ms = 24 * 3600 * 1000;
    let (year, month, day) = clock.current_date();
    assert_eq!((year, month, day), (2024, 2, 1));
}

#[test]
fn test_year_overflow() {
    let mut clock = InGameClock::with_start_datetime(2024, 12, 31, 23, 0, 0);

    // Add 1 hour (should go to next year)
    clock.elapsed_ms = 3600 * 1000;
    let (year, month, day) = clock.current_date();
    let (hour, _, _) = clock.current_time();
    assert_eq!((year, month, day), (2025, 1, 1));
    assert_eq!(hour, 0);
}

#[test]
fn test_with_day_duration() {
    // One in-game day passes every 60 real seconds
    let clock = InGameClock::new().with_day_duration(60 * 1000);
    // Speed should be 86400 / 60 = 1440
    assert_eq!(clock.speed_milli, 1440 * 1000);

    // One in-game day passes every 1200 real seconds (20 minutes)
    let clock = InGameClock::new().with_day_duration(1200 * 1000);
    // Speed should be 86400 / 1200 = 72
    assert_eq!(clock.speed_milli, 72 * 1000);
}

#[test]
fn test_set_day_duration() {
    let mut clock = InGameClock::new();

    // One in-game day passes every 120 real seconds (2 minutes)
    clock.set_day_duration(120 * 1000);
    assert_eq!(clock.speed_milli, 720 * 1000);
    assert_eq!(clock.day_duration(), 120 * 1000);

    // One in-game day passes every 86400 real seconds (1 real day)
    clock.set_day_duration(86400 * 1000);
    assert_eq!(clock.speed_milli, 1000);
    assert_eq!(clock.day_duration(), 86400 * 1000);
}

#[test]
fn test_day_duration_getter() {
    let clock = InGameClock::new().with_speed(1440 * 1000);
    // At 1440x speed, one day passes in 86400 / 1440 = 60 seconds
    assert_eq!(clock.day_duration(), 60 * 1000);

    let clock = InGameClock::new().with_speed(1000);
    // At 1x speed, one day passes in 86400 seconds
    assert_eq!(clock.day_duration(), 86400 * 1000);
}

#[test]
fn lib_test_custom_calendar_intervals() {
    let custom_calendar = CustomCalendar::builder()
        .minutes_per_hour(60)
        .hours_per_day(20)
        .month(Month::new("Month1", 20, 0))
        .weekdays(vec![
            "Day1".to_string(),
            "Day2".to_string(),
            "Day3".to_string(),
            "Day4".to_string(),
            "Day5".to_string(),
        ])
        .leap_years("false")
        .epoch(Epoch::new("Test Epoch", 0))
        .build();
    let custom_calendar = Calendar::Custom(custom_calendar);

    assert_eq!(ClockInterval::Second.as_seconds(&custom_calendar), 1);
    assert_eq!(ClockInterval::Minute.as_seconds(&custom_calendar), 60);
    assert_eq!(ClockInterval::Hour.as_seconds(&custom_calendar), 3600); // 60 * 60
    assert_eq!(ClockInterval::Day.as_seconds(&custom_calendar), 72000); // 20 * 60 * 60
    assert_eq!(ClockInterval::Week.as_seconds(&custom_calendar), 360000); // 72000 * 5
    assert_eq!(ClockInterval::Custom(90).as_seconds(&custom_calendar), 90);
}

#[test]
fn test_clock_interval_as_seconds() {
    let gregorian = Calendar::Gregorian(GregorianCalendar);
    assert_eq!(ClockInterval::Second.as_seconds(&gregorian), 1);
    assert_eq!(ClockInterval::Minute.as_seconds(&gregorian), 60);
    assert_eq!(ClockInterval::Hour.as_seconds(&gregorian), 3600);
    assert_eq!(ClockInterval::Day.as_seconds(&gregorian), 86400);
    assert_eq!(ClockInterval::Week.as_seconds(&gregorian), 604800);
    assert_eq!(ClockInterval::Custom(90).as_seconds(&gregorian), 90);
}

#[test]
fn test_custom_calendar_builder_integration_with_clock() {
    // A builder-created calendar works with InGameClock
    let calendar = CustomCalendar::builder()
        .minutes_per_hour(20)
        .hours_per_day(8)
        .month(Month::new("Month1", 30, 0))
        .weekday("Day1")
        .weekday("Day2")
        .weekday("Day3")
        .weekday("Day4")
        .weekday("Day5")
        .leap_years("false")
        .epoch(Epoch::new("Test Epoch", 0))
        .build();

    let clock = InGameClock::new()
        .with_calendar(Calendar::Custom(calendar))
        .with_day_duration(60 * 1000);

    // The calendar is in effect
    let (year, month, day) = clock.current_date();
    assert_eq!(year, 0);
    assert_eq!(month, 1);
    assert_eq!(day, 1);
}
