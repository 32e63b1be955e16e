use ingame_clock::CustomCalendar;
use ingame_clock::Epoch;
use ingame_clock::Month;

#[test]
fn calendar_test_custom_calendar_intervals() {
    let custom_calendar = CustomCalendar::builder()
        .minutes_per_hour(60)
        .hours_per_day(20)
        .month(Month::new("Month1", 20, 0))
        .weekdays(vec![
            "Day1".to_string(),
            "Day2".to_string(),
            "Day3".to_string(),
            "Day4".to_string(),
            "Day5".to_string(),
        ])
        .leap_years("false")
        .epoch(Epoch::new("Test Epoch", 0))
        .build();

    assert_eq!(custom_calendar.seconds_per_hour(), 3600); // 60 * 60
    assert_eq!(custom_calendar.seconds_per_day(), 72000); // 20 * 60 * 60
    assert_eq!(custom_calendar.seconds_per_week(), 360000); // 72000 * 5
}

#[test]
fn test_custom_calendar_leap_years() {
    let calendar = CustomCalendar::builder()
        .minutes_per_hour(60)
        .hours_per_day(24)
        .month(Month::new("Month1", 30, 2)) // 30 days, +2 in leap years
        .month(Month::new("Month2", 30, 1)) // 30 days, +1 in leap years
        .month(Month::new("Month3", 30, 0)) // 30 days, no leap days
        .weekdays(vec![
            "Day1".to_string(),
            "Day2".to_string(),
            "Day3".to_string(),
            "Day4".to_string(),
            "Day5".to_string(),
            "Day6".to_string(),
            "Day7".to_string(),
        ])
        .leap_years("# % 2 == 0") // leap year every 2 years
        .epoch(Epoch::new("Test Epoch", 1000))
        .build();

    // Leap year detection
    assert!(calendar.is_leap_year(1000)); // Start year (1000 % 2 == 0)
    assert!(!calendar.is_leap_year(1001)); // Not a leap year
    assert!(calendar.is_leap_year(1002)); // Leap year (1002 % 2 == 0)
    assert!(!calendar.is_leap_year(1003));
    assert!(calendar.is_leap_year(1004));

    // Negative years work too
    assert!(calendar.is_leap_year(0));
    assert!(calendar.is_leap_year(-2));
    assert!(!calendar.is_leap_year(-1));
}

#[test]
fn test_custom_calendar_no_leap_years() {
    let calendar = CustomCalendar::builder()
        .minutes_per_hour(60)
        .hours_per_day(24)
        .month(Month::new("Month1", 30, 5)) // leap_days is ignored
        .weekdays(vec![
            "Day1".to_string(),
            "Day2".to_string(),
            "Day3".to_string(),
            "Day4".to_string(),
            "Day5".to_string(),
            "Day6".to_string(),
            "Day7".to_string(),
        ])
        .leap_years("false") // no leap years
        .epoch(Epoch::new("No Leap Epoch", 0))
        .build();

    assert!(!calendar.is_leap_year(0));
    assert!(!calendar.is_leap_year(4));
    assert!(!calendar.is_leap_year(100));
    assert!(!calendar.is_leap_year(1000));
}

#[test]
fn test_fantasy_calendar_date_calculation() {
    let calendar = CustomCalendar::builder()
        .minutes_per_hour(20)
        .hours_per_day(8)
        .month(Month::new("Frostmoon", 20, 3))
        .month(Month::new("Thawmoon", 21, 0))
        .month(Month::new("Bloomtide", 19, 2))
        .weekdays(vec![
            "Moonday".to_string(),
            "Fireday".to_string(),
            "Waterday".to_string(),
            "Earthday".to_string(),
            "Starday".to_string(),
        ])
        .leap_years("# % 2 == 0") // leap year every 2 years
        .epoch(Epoch::new("Age of Magic", 1000))
        .build();

    // At 0 elapsed time, the start of year 1000
    let (year, month, day) = calendar.get_date(0);
    assert_eq!(year, 1000);
    assert_eq!(month, 1);
    assert_eq!(day, 1);

    // 1000 % 2 == 0, so it's a leap year
    assert!(calendar.is_leap_year(1000));

    // Normal year: 20 + 21 + 19 = 60 days
    // Leap year: 23 + 21 + 21 = 65 days
    let seconds_per_day: i64 = 8 * 20 * 60; // 9600 seconds per day

    // First day of second month in a leap year (day 24 = 23 days of
    // Frostmoon + 1)
    let elapsed_ms = 23 * seconds_per_day * 1000;
    let (year, month, day) = calendar.get_date(elapsed_ms);
    assert_eq!(year, 1000);
    assert_eq!(month, 2); // Thawmoon
    assert_eq!(day, 1);
}

#[test]
fn test_expression_based_leap_year_gregorian() {
    let calendar = CustomCalendar::builder()
        .minutes_per_hour(60)
        .hours_per_day(24)
        .month(Month::new("Jan", 31, 0))
        .weekdays(vec![
            "Mon".to_string(),
            "Tue".to_string(),
            "Wed".to_string(),
            "Thu".to_string(),
            "Fri".to_string(),
            "Sat".to_string(),
            "Sun".to_string(),
        ])
        .leap_years("# % 4 == 0 && (# % 100 != 0 || # % 400 == 0)")
        .epoch(Epoch::new("CE", 0))
        .build();

    // Classic Gregorian leap year cases
    assert!(calendar.is_leap_year(2000)); // Divisible by 400
    assert!(!calendar.is_leap_year(1900)); // Divisible by 100 but not 400
    assert!(calendar.is_leap_year(2004)); // Divisible by 4 but not 100
    assert!(!calendar.is_leap_year(2001)); // Not divisible by 4
    assert!(calendar.is_leap_year(2024)); // Divisible by 4 but not 100
    assert!(!calendar.is_leap_year(2100)); // Divisible by 100 but not 400
    assert!(calendar.is_leap_year(2400)); // Divisible by 400
}

#[test]
fn test_expression_based_leap_year_custom() {
    let calendar = CustomCalendar::builder()
        .minutes_per_hour(60)
        .hours_per_day(24)
        .month(Month::new("Month1", 30, 1))
        .weekdays(vec![
            "Mon".to_string(),
            "Tue".to_string(),
            "Wed".to_string(),
            "Thu".to_string(),
            "Fri".to_string(),
            "Sat".to_string(),
            "Sun".to_string(),
        ])
        .leap_years("# % 5 == 0")
        .epoch(Epoch::new("Test Epoch", 0))
        .build();

    assert!(calendar.is_leap_year(0));
    assert!(!calendar.is_leap_year(1));
    assert!(!calendar.is_leap_year(4));
    assert!(calendar.is_leap_year(5));
    assert!(calendar.is_leap_year(10));
    assert!(!calendar.is_leap_year(13));
}

#[test]
fn test_expression_based_leap_year_complex() {
    let calendar = CustomCalendar::builder()
        .minutes_per_hour(60)
        .hours_per_day(24)
        .month(Month::new("Month1", 30, 1))
        .weekdays(vec![
            "Mon".to_string(),
            "Tue".to_string(),
            "Wed".to_string(),
            "Thu".to_string(),
            "Fri".to_string(),
            "Sat".to_string(),
            "Sun".to_string(),
        ])
        .leap_years("(# % 3 == 0 && # % 9 != 0) || # % 27 == 0")
        .epoch(Epoch::new("Complex Epoch", 0))
        .build();

    assert!(calendar.is_leap_year(3)); // Divisible by 3, not by 9
    assert!(calendar.is_leap_year(6)); // Divisible by 3, not by 9
    assert!(!calendar.is_leap_year(9)); // Divisible by 9 but not by 27
    assert!(calendar.is_leap_year(12)); // Divisible by 3, not by 9
    assert!(!calendar.is_leap_year(18)); // Divisible by 9 but not by 27
    assert!(calendar.is_leap_year(27)); // Divisible by 27
    assert!(calendar.is_leap_year(54)); // Divisible by 27
}

#[test]
fn test_expression_invalid_returns_false() {
    let calendar = CustomCalendar::builder()
        .minutes_per_hour(60)
        .hours_per_day(24)
        .month(Month::new("Month1", 30, 1))
        .weekdays(vec![
            "Mon".to_string(),
            "Tue".to_string(),
            "Wed".to_string(),
            "Thu".to_string(),
            "Fri".to_string(),
            "Sat".to_string(),
            "Sun".to_string(),
        ])
        .leap_years("invalid expression here")
        .epoch(Epoch::new("Test Epoch", 0))
        .build();

    // An invalid expression names no leap years
    assert!(!calendar.is_leap_year(2000));
    assert!(!calendar.is_leap_year(2004));
}

#[test]
fn test_leap_year_simple_expression() {
    let calendar = CustomCalendar::builder()
        .minutes_per_hour(60)
        .hours_per_day(24)
        .month(Month::new("Month1", 30, 1))
        .weekdays(vec![
            "Mon".to_string(),
            "Tue".to_string(),
            "Wed".to_string(),
            "Thu".to_string(),
            "Fri".to_string(),
            "Sat".to_string(),
            "Sun".to_string(),
        ])
        .leap_years("# % 4 == 0")
        .epoch(Epoch::new("Test Epoch", 0))
        .build();

    assert!(calendar.is_leap_year(0));
    assert!(calendar.is_leap_year(4));
    assert!(!calendar.is_leap_year(1));
}

#[test]
fn test_leap_year_serde_expression() {
    let calendar = CustomCalendar::builder()
        .minutes_per_hour(60)
        .hours_per_day(24)
        .month(Month::new("Month1", 30, 1))
        .weekdays(vec![
            "Mon".to_string(),
            "Tue".to_string(),
            "Wed".to_string(),
            "Thu".to_string(),
            "Fri".to_string(),
            "Sat".to_string(),
            "Sun".to_string(),
        ])
        .leap_years("# % 3 == 0")
        .epoch(Epoch::new("Test Epoch", 0))
        .build();

    assert!(calendar.is_leap_year(0));
    assert!(calendar.is_leap_year(3));
    assert!(!calendar.is_leap_year(1));
}

#[test]
fn test_custom_calendar_builder() {
    let calendar = CustomCalendar::builder()
        .minutes_per_hour(20)
        .hours_per_day(8)
        .month(Month::new("Frostmoon", 20, 3))
        .month(Month::new("Thawmoon", 21, 0))
        .month(Month::new("Bloomtide", 19, 2))
        .weekday("Moonday")
        .weekday("Fireday")
        .weekday("Waterday")
        .weekday("Earthday")
        .weekday("Starday")
        .leap_years("# % 2 == 0")
        .epoch(Epoch::new("Age of Magic", 1000))
        .build();

    assert_eq!(calendar.minutes_per_hour, 20);
    assert_eq!(calendar.hours_per_day, 8);
    assert_eq!(calendar.months.len(), 3);
    assert_eq!(calendar.weekdays.len(), 5);
    assert_eq!(calendar.leap_years, "# % 2 == 0");
    assert_eq!(calendar.epoch.name, "Age of Magic");
    assert_eq!(calendar.epoch.start_year, 1000);
}

#[test]
fn test_custom_calendar_builder_with_bulk_methods() {
    let calendar = CustomCalendar::builder()
        .minutes_per_hour(60)
        .hours_per_day(24)
        .months(vec![Month::new("January", 31, 0), Month::new("February", 28, 1)])
        .weekdays(vec![
            "Monday".to_string(),
            "Tuesday".to_string(),
            "Wednesday".to_string(),
            "Thursday".to_string(),
            "Friday".to_string(),
            "Saturday".to_string(),
            "Sunday".to_string(),
        ])
        .leap_years("# % 4 == 0 && (# % 100 != 0 || # % 400 == 0)")
        .epoch(Epoch::new("Common Epoch", 1))
        .build();

    assert_eq!(calendar.months.len(), 2);
    assert_eq!(calendar.weekdays.len(), 7);
}

#[test]
fn test_custom_calendar_builder_default_leap_years() {
    let calendar = CustomCalendar::builder()
        .minutes_per_hour(60)
        .hours_per_day(24)
        .month(Month::new("Month1", 30, 0))
        .weekdays(vec![
            "Mon".to_string(),
            "Tue".to_string(),
            "Wed".to_string(),
            "Thu".to_string(),
            "Fri".to_string(),
            "Sat".to_string(),
            "Sun".to_string(),
        ])
        .epoch(Epoch::new("Test", 0))
        .build();

    assert_eq!(calendar.leap_years, "false");
    assert!(!calendar.is_leap_year(2000));
    assert!(!calendar.is_leap_year(1900));
    assert!(!calendar.is_leap_year(2004));
}

#[test]
fn test_custom_calendar_builder_with_time_defaults() {
    let calendar = CustomCalendar::builder()
        .month(Month::new("Frostmoon", 30, 0))
        .month(Month::new("Thawmoon", 31, 0))
        .weekday("Moonday")
        .weekday("Fireday")
        .build();

    assert_eq!(calendar.minutes_per_hour, 60);
    assert_eq!(calendar.hours_per_day, 24);
    assert_eq!(calendar.months.len(), 2);
    assert_eq!(calendar.months[0].name, "Frostmoon");
    assert_eq!(calendar.weekdays.len(), 2);
    assert_eq!(calendar.weekdays[0], "Moonday");
    assert_eq!(calendar.leap_years, "false");
}
