//! Calendar models: the fixed Gregorian variant and fully custom calendars.
//!
//! A custom calendar decomposes elapsed simulated time into a date by pure
//! integer arithmetic: elapsed milliseconds are floor-divided into days,
//! days into years by the length of a normal year, and the day within the
//! year is walked through the configured months.  Division is Euclidean
//! (flooring, with non-negative remainders), so negative elapsed time maps
//! to a clean, monotonic sequence of dates.
//!
//! One known modeling limitation is kept deliberately: the year is found by
//! dividing total days by the *normal* year length even when leap years
//! add days, so calendars whose leap rule holds often drift over long
//! elapsed spans.

use vstd::arithmetic::div_mod::lemma_fundamental_div_mod;
use vstd::arithmetic::div_mod::lemma_mod_bound;
use vstd::arithmetic::div_mod::lemma_multiply_divide_lt;
use vstd::prelude::*;

use crate::expr;
use crate::gregorian::GregorianCalendar;
use crate::gregorian::Moment;
use crate::gregorian::spec_greg_formatted;
use crate::gregorian::spec_greg_shifted;
use crate::render;

verus! {

/// A month: a name, a base length in days, and extra days added in leap
/// years.
#[derive(Debug, Clone)]
pub struct Month {
    /// The month's name, as rendered by the `%B` token.
    pub name: String,
    /// The base number of days in this month.
    pub days: u32,
    /// Additional days this month has during leap years.
    pub leap_days: u32,
}

impl Month {
    /// Bundles a month definition.
    pub fn new(name: &str, days: u32, leap_days: u32) -> (r: Month)
        ensures
            r.name@ == name@,
            r.days == days,
            r.leap_days == leap_days,
    {
        Month { name: String::from_str(name), days, leap_days }
    }
}

/// The reference point for year counting: a name and the year number given
/// to the first day of simulated time.
#[derive(Debug, Clone)]
pub struct Epoch {
    /// The epoch's name, as rendered by the `%E` token.
    pub name: String,
    /// The year number assigned to elapsed time zero.
    pub start_year: i64,
}

impl Epoch {
    /// Bundles an epoch definition.
    pub fn new(name: &str, start_year: i64) -> (r: Epoch)
        ensures
            r.name@ == name@,
            r.start_year == start_year,
    {
        Epoch { name: String::from_str(name), start_year }
    }
}

/// The length of a month in a given kind of year.
pub open spec fn month_len(m: Month, leap: bool) -> int {
    m.days + if leap {
        m.leap_days as int
    } else {
        0
    }
}

/// The total length of a run of months in a given kind of year.
pub open spec fn sum_days(ms: Seq<Month>, leap: bool) -> int
    decreases ms.len(),
{
    if ms.len() == 0 {
        0
    } else {
        month_len(ms[0], leap) + sum_days(ms.skip(1), leap)
    }
}

/// A run of months never has negative length.
pub proof fn lemma_sum_days_nonneg(ms: Seq<Month>, leap: bool)
    ensures
        sum_days(ms, leap) >= 0,
    decreases ms.len(),
{
    if ms.len() > 0 {
        lemma_sum_days_nonneg(ms.skip(1), leap);
    }
}

/// A leap year is at least as long as a normal year.
pub proof fn lemma_sum_days_monotone(ms: Seq<Month>)
    ensures
        sum_days(ms, false) <= sum_days(ms, true),
    decreases ms.len(),
{
    if ms.len() > 0 {
        lemma_sum_days_monotone(ms.skip(1));
    }
}

/// Which month a day of the year falls in, and the day within that month,
/// both counted from 1; `idx` numbers the first month of `ms`.  Mirrors a
/// walk that subtracts month lengths until the remainder fits.
pub open spec fn spec_month_day(ms: Seq<Month>, leap: bool, rem: int, idx: int) -> (int, int)
    decreases ms.len(),
{
    if ms.len() == 0 {
        (1, rem + 1)
    } else if rem < month_len(ms[0], leap) {
        (idx, rem + 1)
    } else {
        spec_month_day(ms.skip(1), leap, rem - month_len(ms[0], leap), idx + 1)
    }
}

/// A custom calendar: configurable time units, named months with leap
/// days, named weekdays, an expression-based leap-year rule and an epoch.
#[derive(Debug, Clone)]
pub struct CustomCalendar {
    /// Number of minutes in one hour.
    pub minutes_per_hour: u32,
    /// Number of hours in one day.
    pub hours_per_day: u32,
    /// The months of the year, in order; the order fixes month numbering.
    pub months: Vec<Month>,
    /// The weekday names, in order; index 0 names day 0 of elapsed time.
    pub weekdays: Vec<String>,
    /// The leap-year rule: a boolean expression over `#`, the year.
    pub leap_years: String,
    /// The reference point for year counting.
    pub epoch: Epoch,
}

impl CustomCalendar {
    /// Seconds in one minute: fixed.
    pub open spec fn spec_seconds_per_minute() -> int {
        60
    }

    /// Seconds in one hour of this calendar.
    pub open spec fn spec_seconds_per_hour(&self) -> int {
        60 * self.minutes_per_hour
    }

    /// Seconds in one day of this calendar.
    pub open spec fn spec_seconds_per_day(&self) -> int {
        self.spec_seconds_per_hour() * self.hours_per_day
    }

    /// Seconds in one week of this calendar.
    pub open spec fn spec_seconds_per_week(&self) -> int {
        self.spec_seconds_per_day() * self.weekdays@.len()
    }

    /// Days in a normal (non-leap) year.
    pub open spec fn spec_days_per_year(&self) -> int {
        sum_days(self.months@, false)
    }

    /// The calendar's configuration stays within machine ranges: months and
    /// weekdays exist, and every derived unit fits in 32 bits.
    pub open spec fn wf(&self) -> bool {
        &&& self.months@.len() > 0
        &&& self.weekdays@.len() > 0
        &&& self.months@.len() <= u32::MAX
        &&& self.weekdays@.len() <= u32::MAX
        &&& self.spec_seconds_per_hour() <= u32::MAX
        &&& self.spec_seconds_per_day() <= u32::MAX
        &&& self.spec_seconds_per_week() <= u32::MAX
        &&& sum_days(self.months@, false) <= u32::MAX
        &&& sum_days(self.months@, true) <= u32::MAX
    }

    /// The calendar has at least one second per day and one day per year,
    /// so dates can be decomposed at all.
    pub open spec fn nondegenerate(&self) -> bool {
        &&& self.spec_seconds_per_day() > 0
        &&& self.spec_days_per_year() > 0
    }

    /// Milliseconds in one day of this calendar.
    pub open spec fn spec_day_ms(&self) -> int {
        self.spec_seconds_per_day() * 1000
    }

    /// Whole days of elapsed time, rounded toward minus infinity.
    pub open spec fn spec_total_days(&self, e: int) -> int {
        e / self.spec_day_ms()
    }

    /// Whole normal years since the epoch, rounded toward minus infinity.
    pub open spec fn spec_years_since_epoch(&self, e: int) -> int {
        self.spec_total_days(e) / self.spec_days_per_year()
    }

    /// The year number at elapsed time `e`.
    pub open spec fn spec_year_number(&self, e: int) -> int {
        self.epoch.start_year + self.spec_years_since_epoch(e)
    }

    /// The year number stays within the machine's 64-bit range.
    pub open spec fn spec_year_in_range(&self, e: int) -> bool {
        i64::MIN <= self.spec_year_number(e) <= i64::MAX
    }

    /// The day within the year, counted from 0: the non-negative residue of
    /// total days by the normal year length.
    pub open spec fn spec_day_of_year(&self, e: int) -> int {
        self.spec_total_days(e) % self.spec_days_per_year()
    }

    /// Whether the year at elapsed time `e` is a leap year: the rule
    /// evaluated for the year number as the 32-bit value handed to it.
    pub open spec fn spec_is_leap_at(&self, e: int) -> bool {
        expr::spec_evaluate(
            self.leap_years@,
            ((self.spec_year_number(e) as i64) as i32) as i64,
        )
    }

    /// The date at elapsed time `e`: the year truncated to 32 bits, the
    /// month counted from 1, the day counted from 1.
    pub open spec fn spec_date(&self, e: int) -> (i32, u32, u32) {
        let md = spec_month_day(
            self.months@,
            self.spec_is_leap_at(e),
            self.spec_day_of_year(e),
            1,
        );
        ((self.spec_year_number(e) as i64) as i32, md.0 as u32, md.1 as u32)
    }

    /// Milliseconds of the day at elapsed time `e`: non-negative residue.
    pub open spec fn spec_ms_of_day(&self, e: int) -> int {
        e % self.spec_day_ms()
    }

    /// The time of day at elapsed time `e`, as (hour, minute, second).
    pub open spec fn spec_time(&self, e: int) -> (u32, u32, u32) {
        let st = self.spec_ms_of_day(e);
        let hour_ms = self.spec_seconds_per_hour() * 1000;
        let rem = st % hour_ms;
        (((st / hour_ms) as u32), ((rem / 60000) as u32), (((rem % 60000) / 1000) as u32))
    }

    /// The weekday index at elapsed time `e`: the non-negative residue of
    /// total days by the number of weekdays.
    pub open spec fn spec_weekday_index(&self, e: int) -> int {
        self.spec_total_days(e) % (self.weekdays@.len() as int)
    }

    /// Starts building a custom calendar.
    pub fn builder() -> (r: CustomCalendarBuilder)
        ensures
            r.minutes_per_hour is None,
            r.hours_per_day is None,
            r.months@.len() == 0,
            r.weekdays@.len() == 0,
            r.leap_years is None,
            r.epoch is None,
    {
        CustomCalendarBuilder::empty()
    }

    /// Whether `year` is a leap year under this calendar's rule; a rule
    /// that cannot be read or evaluated names no leap years.
    pub fn is_leap_year(&self, year: i32) -> (r: bool)
        ensures
            r == expr::spec_evaluate(self.leap_years@, year as i64),
    {
        expr::evaluate(self.leap_years.as_str(), year as i64)
    }

    /// Seconds in one hour: sixty seconds per minute times the configured
    /// minutes per hour.
    pub fn seconds_per_hour(&self) -> (r: u32)
        requires
            self.spec_seconds_per_hour() <= u32::MAX,
        ensures
            r == self.spec_seconds_per_hour(),
    {
        60u32 * self.minutes_per_hour
    }

    /// Seconds in one day: seconds per hour times the configured hours per
    /// day.
    pub fn seconds_per_day(&self) -> (r: u32)
        requires
            self.spec_seconds_per_hour() <= u32::MAX,
            self.spec_seconds_per_day() <= u32::MAX,
        ensures
            r == self.spec_seconds_per_day(),
    {
        self.seconds_per_hour() * self.hours_per_day
    }

    /// Seconds in one week: seconds per day times the number of weekdays.
    pub fn seconds_per_week(&self) -> (r: u32)
        requires
            self.spec_seconds_per_hour() <= u32::MAX,
            self.spec_seconds_per_day() <= u32::MAX,
            self.spec_seconds_per_week() <= u32::MAX,
            self.weekdays@.len() <= u32::MAX,
        ensures
            r == self.spec_seconds_per_week(),
    {
        self.seconds_per_day() * (self.weekdays.len() as u32)
    }

    /// Days in a normal year: the sum of the months' base lengths.
    fn days_per_year(&self) -> (r: u32)
        requires
            sum_days(self.months@, false) <= u32::MAX,
        ensures
            r == self.spec_days_per_year(),
    {
        let mut acc: u32 = 0;
        let mut i: usize = 0;
        let n = self.months.len();
        proof {
            assert(self.months@.skip(0) =~= self.months@);
        }
        while i < n
            invariant
                i <= n,
                n == self.months@.len(),
                sum_days(self.months@, false) <= u32::MAX,
                acc + sum_days(self.months@.skip(i as int), false) == sum_days(
                    self.months@,
                    false,
                ),
            decreases n - i,
        {
            proof {
                assert(self.months@.skip(i as int)[0] == self.months@[i as int]);
                assert(self.months@.skip(i as int).skip(1) =~= self.months@.skip(i as int + 1));
                lemma_sum_days_nonneg(self.months@.skip(i as int + 1), false);
            }
            acc = acc + self.months[i].days;
            i = i + 1;
        }
        proof {
            assert(self.months@.skip(n as int) =~= Seq::<Month>::empty());
        }
        acc
    }
}

/// Executable twin of `spec_month_day`, walking the months from index `i`.
fn month_day_walk(months: &Vec<Month>, i: usize, leap: bool, rem: u32) -> (r: (u32, u32))
    requires
        i <= months@.len(),
        months@.len() <= u32::MAX,
        sum_days(months@.skip(i as int), leap) <= u32::MAX,
        (rem as int) < sum_days(months@.skip(i as int), leap),
    ensures
        (r.0 as int, r.1 as int) == spec_month_day(months@.skip(i as int), leap, rem as int, i
            + 1),
        i < r.0 <= months@.len(),
        1 <= r.1,
        r.1 <= month_len(months@[r.0 - 1], leap),
    decreases months@.len() - i,
{
    proof {
        if i == months@.len() {
            assert(months@.skip(i as int) =~= Seq::<Month>::empty());
        }
    }
    let n = months.len();
    if i == n {
        proof {
            assert(false);
        }
        (1, 0)
    } else {
        proof {
            assert(months@.skip(i as int)[0] == months@[i as int]);
            assert(months@.skip(i as int).skip(1) =~= months@.skip(i as int + 1));
            lemma_sum_days_nonneg(months@.skip(i as int + 1), leap);
        }
        let ml: u32 = if leap {
            months[i].days + months[i].leap_days
        } else {
            months[i].days
        };
        if rem < ml {
            ((i as u32) + 1, rem + 1)
        } else {
            month_day_walk(months, i + 1, leap, rem - ml)
        }
    }
}


/// Builds a [`CustomCalendar`] with a fluent interface; missing units get
/// defaults, but months and weekdays must be supplied.
#[derive(Debug, Clone)]
pub struct CustomCalendarBuilder {
    /// Minutes per hour, if set; defaults to 60.
    pub minutes_per_hour: Option<u32>,
    /// Hours per day, if set; defaults to 24.
    pub hours_per_day: Option<u32>,
    /// The months added so far.
    pub months: Vec<Month>,
    /// The weekday names added so far.
    pub weekdays: Vec<String>,
    /// The leap-year rule, if set; defaults to `"false"`.
    pub leap_years: Option<String>,
    /// The epoch, if set; defaults to "Common Epoch" starting at year 1.
    pub epoch: Option<Epoch>,
}

impl Default for CustomCalendarBuilder {
    /// An empty builder: nothing set yet.
    fn default() -> (r: Self)
        ensures
            r.minutes_per_hour is None,
            r.hours_per_day is None,
            r.months@.len() == 0,
            r.weekdays@.len() == 0,
            r.leap_years is None,
            r.epoch is None,
    {
        CustomCalendarBuilder {
            minutes_per_hour: None,
            hours_per_day: None,
            months: Vec::new(),
            weekdays: Vec::new(),
            leap_years: None,
            epoch: None,
        }
    }
}

impl CustomCalendarBuilder {
    /// An empty builder: nothing set yet.
    pub fn empty() -> (r: Self)
        ensures
            r.minutes_per_hour is None,
            r.hours_per_day is None,
            r.months@.len() == 0,
            r.weekdays@.len() == 0,
            r.leap_years is None,
            r.epoch is None,
    {
        CustomCalendarBuilder {
            minutes_per_hour: None,
            hours_per_day: None,
            months: Vec::new(),
            weekdays: Vec::new(),
            leap_years: None,
            epoch: None,
        }
    }

    /// An empty builder: nothing set yet.
    pub fn new() -> (r: Self)
        ensures
            r.minutes_per_hour is None,
            r.hours_per_day is None,
            r.months@.len() == 0,
            r.weekdays@.len() == 0,
            r.leap_years is None,
            r.epoch is None,
    {
        Self::empty()
    }

    /// Sets the number of minutes per hour.
    pub fn minutes_per_hour(self, minutes: u32) -> (r: Self)
        ensures
            r.minutes_per_hour == Some(minutes),
            r.hours_per_day == self.hours_per_day,
            r.months@ == self.months@,
            r.weekdays@ == self.weekdays@,
            r.leap_years == self.leap_years,
            r.epoch == self.epoch,
    {
        let mut b = self;
        b.minutes_per_hour = Some(minutes);
        b
    }

    /// Sets the number of hours per day.
    pub fn hours_per_day(self, hours: u32) -> (r: Self)
        ensures
            r.minutes_per_hour == self.minutes_per_hour,
            r.hours_per_day == Some(hours),
            r.months@ == self.months@,
            r.weekdays@ == self.weekdays@,
            r.leap_years == self.leap_years,
            r.epoch == self.epoch,
    {
        let mut b = self;
        b.hours_per_day = Some(hours);
        b
    }

    /// Appends one month.
    pub fn month(self, month: Month) -> (r: Self)
        ensures
            r.minutes_per_hour == self.minutes_per_hour,
            r.hours_per_day == self.hours_per_day,
            r.months@ == self.months@.push(month),
            r.weekdays@ == self.weekdays@,
            r.leap_years == self.leap_years,
            r.epoch == self.epoch,
    {
        let mut b = self;
        b.months.push(month);
        b
    }

    /// Replaces the whole list of months.
    pub fn months(self, months: Vec<Month>) -> (r: Self)
        ensures
            r.minutes_per_hour == self.minutes_per_hour,
            r.hours_per_day == self.hours_per_day,
            r.months@ == months@,
            r.weekdays@ == self.weekdays@,
            r.leap_years == self.leap_years,
            r.epoch == self.epoch,
    {
        let mut b = self;
        b.months = months;
        b
    }

    /// Appends one weekday name.
    pub fn weekday(self, name: &str) -> (r: Self)
        ensures
            r.minutes_per_hour == self.minutes_per_hour,
            r.hours_per_day == self.hours_per_day,
            r.months@ == self.months@,
            r.weekdays@.len() == self.weekdays@.len() + 1,
            forall|i: int|
                0 <= i < self.weekdays@.len() ==> r.weekdays@[i] == self.weekdays@[i],
            r.weekdays@[self.weekdays@.len() as int]@ == name@,
            r.leap_years == self.leap_years,
            r.epoch == self.epoch,
    {
        let mut b = self;
        b.weekdays.push(String::from_str(name));
        b
    }

    /// Replaces the whole list of weekday names.
    pub fn weekdays(self, names: Vec<String>) -> (r: Self)
        ensures
            r.minutes_per_hour == self.minutes_per_hour,
            r.hours_per_day == self.hours_per_day,
            r.months@ == self.months@,
            r.weekdays@ == names@,
            r.leap_years == self.leap_years,
            r.epoch == self.epoch,
    {
        let mut b = self;
        b.weekdays = names;
        b
    }

    /// Sets the leap-year rule, a boolean expression over `#`, the year.
    pub fn leap_years(self, expression: &str) -> (r: Self)
        ensures
            r.minutes_per_hour == self.minutes_per_hour,
            r.hours_per_day == self.hours_per_day,
            r.months@ == self.months@,
            r.weekdays@ == self.weekdays@,
            r.leap_years is Some && r.leap_years->0@ == expression@,
            r.epoch == self.epoch,
    {
        let mut b = self;
        b.leap_years = Some(String::from_str(expression));
        b
    }

    /// Sets the epoch.
    pub fn epoch(self, epoch: Epoch) -> (r: Self)
        ensures
            r.minutes_per_hour == self.minutes_per_hour,
            r.hours_per_day == self.hours_per_day,
            r.months@ == self.months@,
            r.weekdays@ == self.weekdays@,
            r.leap_years == self.leap_years,
            r.epoch == Some(epoch),
    {
        let mut b = self;
        b.epoch = Some(epoch);
        b
    }

    /// Builds the calendar.  At least one month and one weekday name must
    /// have been added; absent units default to 60 minutes per hour, 24
    /// hours per day, no leap years and a "Common Epoch" starting at
    /// year 1.
    pub fn build(self) -> (r: CustomCalendar)
        requires
            self.months@.len() > 0,
            self.weekdays@.len() > 0,
        ensures
            r.minutes_per_hour == (match self.minutes_per_hour {
                Some(m) => m,
                None => 60u32,
            }),
            r.hours_per_day == (match self.hours_per_day {
                Some(h) => h,
                None => 24u32,
            }),
            r.months@ == self.months@,
            r.weekdays@ == self.weekdays@,
            match self.leap_years {
                Some(s) => r.leap_years == s,
                None => r.leap_years@ == "false"@,
            },
            match self.epoch {
                Some(e) => r.epoch == e,
                None => r.epoch.name@ == "Common Epoch"@ && r.epoch.start_year == 1,
            },
    {
        let minutes_per_hour = match self.minutes_per_hour {
            Some(m) => m,
            None => 60,
        };
        let hours_per_day = match self.hours_per_day {
            Some(h) => h,
            None => 24,
        };
        let leap_years = match self.leap_years {
            Some(s) => s,
            None => String::from_str("false"),
        };
        let epoch = match self.epoch {
            Some(e) => e,
            None => Epoch::new("Common Epoch", 1),
        };
        CustomCalendar {
            minutes_per_hour,
            hours_per_day,
            months: self.months,
            weekdays: self.weekdays,
            leap_years,
            epoch,
        }
    }
}


/// Euclidean division by a positive divisor never leaves the range between
/// the dividend and zero.
pub(crate) proof fn lemma_div_bounds(a: int, b: int)
    requires
        b >= 1,
    ensures
        a >= 0 ==> 0 <= a / b <= a,
        a < 0 ==> a <= a / b <= 0,
{
    if a >= 0 {
        vstd::arithmetic::div_mod::lemma_div_pos_is_pos(a, b);
        vstd::arithmetic::div_mod::lemma_div_nonincreasing(a, b);
    } else {
        lemma_fundamental_div_mod(a, b);
        lemma_mod_bound(a, b);
        let q = a / b;
        let r = a % b;
        assert(q <= 0) by (nonlinear_arith)
            requires
                a == b * q + r,
                0 <= r < b,
                a < 0,
                b >= 1,
        ;
        assert(a <= q) by (nonlinear_arith)
            requires
                a == b * q + r,
                0 <= r < b,
                a < 0,
                q <= 0,
                b >= 1,
        ;
    }
}

impl CustomCalendar {
    /// The date at `elapsed_ms` of simulated time, as (year, month, day):
    /// whole days are counted by flooring division, the year by dividing
    /// total days by the normal year length, and the month by walking the
    /// month list with this year's lengths.
    pub fn get_date(&self, elapsed_ms: i64) -> (r: (i32, u32, u32))
        requires
            self.wf(),
            self.nondegenerate(),
            self.spec_year_in_range(elapsed_ms as int),
        ensures
            r == self.spec_date(elapsed_ms as int),
            1 <= r.1 <= self.months@.len(),
            1 <= r.2,
    {
        let spd: u32 = self.seconds_per_day();
        let day_ms: i64 = (spd as i64) * 1000;
        proof {
            lemma_div_bounds(elapsed_ms as int, day_ms as int);
        }
        let total_days: i64 = match elapsed_ms.checked_div_euclid(day_ms) {
            Some(q) => q,
            None => {
                proof {
                    assert(false);
                }
                0
            },
        };
        let dpy: u32 = self.days_per_year();
        let dpy64: i64 = dpy as i64;
        proof {
            lemma_div_bounds(total_days as int, dpy64 as int);
        }
        let years: i64 = match total_days.checked_div_euclid(dpy64) {
            Some(q) => q,
            None => {
                proof {
                    assert(false);
                }
                0
            },
        };
        let year_num: i64 = match self.epoch.start_year.checked_add(years) {
            Some(y) => y,
            None => {
                proof {
                    assert(false);
                }
                0
            },
        };
        proof {
            lemma_mod_bound(total_days as int, dpy64 as int);
        }
        let doy64: i64 = match total_days.checked_rem_euclid(dpy64) {
            Some(m) => m,
            None => {
                proof {
                    assert(false);
                }
                0
            },
        };
        let doy: u32 = doy64 as u32;
        let year32: i32 = #[verifier::truncate] (year_num as i32);
        let is_leap = self.is_leap_year(year32);
        proof {
            lemma_sum_days_monotone(self.months@);
            assert(self.months@.skip(0) =~= self.months@);
        }
        let md = month_day_walk(&self.months, 0, is_leap, doy);
        (year32, md.0, md.1)
    }

    /// The time of day at `elapsed_ms` of simulated time, as (hour,
    /// minute, second), from the non-negative residue of the day.
    pub fn get_time(&self, elapsed_ms: i64) -> (r: (u32, u32, u32))
        requires
            self.wf(),
            self.nondegenerate(),
        ensures
            r == self.spec_time(elapsed_ms as int),
            r.0 < self.hours_per_day,
            r.1 < self.minutes_per_hour,
            r.2 < 60,
    {
        let spd: u32 = self.seconds_per_day();
        let day_ms: i64 = (spd as i64) * 1000;
        proof {
            lemma_mod_bound(elapsed_ms as int, day_ms as int);
        }
        let st64: i64 = match elapsed_ms.checked_rem_euclid(day_ms) {
            Some(m) => m,
            None => {
                proof {
                    assert(false);
                }
                0
            },
        };
        let st: u64 = st64 as u64;
        let sph: u32 = self.seconds_per_hour();
        proof {
            assert(self.spec_seconds_per_hour() > 0 && self.hours_per_day > 0)
                by (nonlinear_arith)
                requires
                    self.spec_seconds_per_day() == self.spec_seconds_per_hour()
                        * self.hours_per_day,
                    self.spec_seconds_per_day() > 0,
                    self.spec_seconds_per_hour() >= 0,
            ;
        }
        let hour_ms: u64 = (sph as u64) * 1000;
        proof {
            assert((day_ms as int) == (hour_ms as int) * (self.hours_per_day as int))
                by (nonlinear_arith)
                requires
                    day_ms as int == self.spec_seconds_per_hour() * self.hours_per_day * 1000,
                    hour_ms as int == self.spec_seconds_per_hour() * 1000,
            ;
            lemma_multiply_divide_lt(st as int, hour_ms as int, self.hours_per_day as int);
            vstd::arithmetic::div_mod::lemma_div_pos_is_pos(st as int, hour_ms as int);
        }
        let hour64: u64 = st / hour_ms;
        let rem: u64 = st % hour_ms;
        proof {
            lemma_mod_bound(st as int, hour_ms as int);
            assert((hour_ms as int) == 60000 * (self.minutes_per_hour as int))
                by (nonlinear_arith)
                requires
                    hour_ms as int == 60 * (self.minutes_per_hour as int) * 1000,
            ;
            lemma_multiply_divide_lt(rem as int, 60000, self.minutes_per_hour as int);
            lemma_mod_bound(rem as int, 60000);
            lemma_multiply_divide_lt((rem as int) % 60000, 1000, 60);
        }
        let minute64: u64 = rem / 60000;
        let second64: u64 = (rem % 60000) / 1000;
        ((hour64 as u32), (minute64 as u32), (second64 as u32))
    }

    /// The weekday name at `elapsed_ms` of simulated time: total days,
    /// reduced to a non-negative index into the weekday names.
    fn get_weekday(&self, elapsed_ms: i64) -> (r: String)
        requires
            self.wf(),
            self.nondegenerate(),
        ensures
            r@ == self.weekdays@[self.spec_weekday_index(elapsed_ms as int)]@,
    {
        let spd: u32 = self.seconds_per_day();
        let day_ms: i64 = (spd as i64) * 1000;
        proof {
            lemma_div_bounds(elapsed_ms as int, day_ms as int);
        }
        let total_days: i64 = match elapsed_ms.checked_div_euclid(day_ms) {
            Some(q) => q,
            None => {
                proof {
                    assert(false);
                }
                0
            },
        };
        let wlen: i64 = self.weekdays.len() as i64;
        proof {
            lemma_mod_bound(total_days as int, wlen as int);
        }
        let widx64: i64 = match total_days.checked_rem_euclid(wlen) {
            Some(m) => m,
            None => {
                proof {
                    assert(false);
                }
                0
            },
        };
        let widx: usize = widx64 as usize;
        self.weekdays[widx].clone()
    }
}


impl CustomCalendar {
    /// What `format_date` renders: with no template, zero-padded
    /// `YYYY-MM-DD`; with a template, date-token substitution.
    pub open spec fn spec_format_date(&self, e: int, fmt: Option<Seq<char>>) -> Seq<char> {
        let d = self.spec_date(e);
        match fmt {
            None => render::spec_int_pad(d.0 as int, 4) + seq!['-'] + render::spec_int_pad(
                d.1 as int,
                2,
            ) + seq!['-'] + render::spec_int_pad(d.2 as int, 2),
            Some(f) => render::spec_subst(f, Some(self.spec_date_parts(e)), None),
        }
    }

    /// The six date component texts handed to substitution: year, padded
    /// month and day, month name, epoch name, weekday name.
    pub open spec fn spec_date_parts(&self, e: int) -> (
        Seq<char>,
        Seq<char>,
        Seq<char>,
        Seq<char>,
        Seq<char>,
        Seq<char>,
    ) {
        let d = self.spec_date(e);
        (
            render::spec_int_pad(d.0 as int, 0),
            render::spec_int_pad(d.1 as int, 2),
            render::spec_int_pad(d.2 as int, 2),
            self.months@[d.1 - 1].name@,
            self.epoch.name@,
            self.weekdays@[self.spec_weekday_index(e)]@,
        )
    }

    /// The three time component texts handed to substitution: padded hour,
    /// minute and second.
    pub open spec fn spec_time_parts(&self, e: int) -> (Seq<char>, Seq<char>, Seq<char>) {
        let t = self.spec_time(e);
        (
            render::spec_int_pad(t.0 as int, 2),
            render::spec_int_pad(t.1 as int, 2),
            render::spec_int_pad(t.2 as int, 2),
        )
    }

    /// What `format_time` renders: with no template, zero-padded
    /// `HH:MM:SS`; with a template, time-token substitution.
    pub open spec fn spec_format_time(&self, e: int, fmt: Option<Seq<char>>) -> Seq<char> {
        let t = self.spec_time(e);
        match fmt {
            None => render::spec_int_pad(t.0 as int, 2) + seq![':'] + render::spec_int_pad(
                t.1 as int,
                2,
            ) + seq![':'] + render::spec_int_pad(t.2 as int, 2),
            Some(f) => render::spec_subst(f, None, Some(self.spec_time_parts(e))),
        }
    }

    /// What `format_datetime` renders: with no template, the default date
    /// and time joined by a space; with a template, substitution with both
    /// token groups enabled.
    pub open spec fn spec_format_datetime(&self, e: int, fmt: Option<Seq<char>>) -> Seq<char> {
        match fmt {
            None => self.spec_format_date(e, None) + seq![' '] + self.spec_format_time(e, None),
            Some(f) => render::spec_subst(
                f,
                Some(self.spec_date_parts(e)),
                Some(self.spec_time_parts(e)),
            ),
        }
    }

    /// Renders the date at `elapsed_ms`, with the `%Y %m %d %B %E %A`
    /// tokens in a template or zero-padded `YYYY-MM-DD` without one.
    pub fn format_date(&self, elapsed_ms: i64, format: Option<&str>) -> (r: String)
        requires
            self.wf(),
            self.nondegenerate(),
            self.spec_year_in_range(elapsed_ms as int),
        ensures
            r@ == self.spec_format_date(
                elapsed_ms as int,
                match format {
                    Some(f) => Some(f@),
                    None => None,
                },
            ),
    {
        let d = self.get_date(elapsed_ms);
        match format {
            None => {
                let mut out = String::new();
                render::push_int_padded(&mut out, d.0 as i64, 4);
                out.push('-');
                render::push_int_padded(&mut out, d.1 as i64, 2);
                out.push('-');
                render::push_int_padded(&mut out, d.2 as i64, 2);
                proof {
                    assert(out@ =~= self.spec_format_date(elapsed_ms as int, None));
                }
                out
            },
            Some(f) => {
                let mut year_text = String::new();
                render::push_int_padded(&mut year_text, d.0 as i64, 0);
                let mut month_text = String::new();
                render::push_int_padded(&mut month_text, d.1 as i64, 2);
                let mut day_text = String::new();
                render::push_int_padded(&mut day_text, d.2 as i64, 2);
                let weekday = self.get_weekday(elapsed_ms);
                let month_name = &self.months[(d.1 - 1) as usize].name;
                proof {
                    assert(Seq::<char>::empty() + render::spec_int_pad(d.0 as int, 0)
                        =~= render::spec_int_pad(d.0 as int, 0));
                    assert(Seq::<char>::empty() + render::spec_int_pad(d.1 as int, 2)
                        =~= render::spec_int_pad(d.1 as int, 2));
                    assert(Seq::<char>::empty() + render::spec_int_pad(d.2 as int, 2)
                        =~= render::spec_int_pad(d.2 as int, 2));
                }
                render::render_template(
                    f,
                    Some(
                        (
                            year_text.as_str(),
                            month_text.as_str(),
                            day_text.as_str(),
                            month_name.as_str(),
                            self.epoch.name.as_str(),
                            weekday.as_str(),
                        ),
                    ),
                    None,
                )
            },
        }
    }

    /// Renders the time at `elapsed_ms`, with the `%H %M %S` tokens in a
    /// template or zero-padded `HH:MM:SS` without one.
    pub fn format_time(&self, elapsed_ms: i64, format: Option<&str>) -> (r: String)
        requires
            self.wf(),
            self.nondegenerate(),
        ensures
            r@ == self.spec_format_time(
                elapsed_ms as int,
                match format {
                    Some(f) => Some(f@),
                    None => None,
                },
            ),
    {
        let t = self.get_time(elapsed_ms);
        match format {
            None => {
                let mut out = String::new();
                render::push_int_padded(&mut out, t.0 as i64, 2);
                out.push(':');
                render::push_int_padded(&mut out, t.1 as i64, 2);
                out.push(':');
                render::push_int_padded(&mut out, t.2 as i64, 2);
                proof {
                    assert(out@ =~= self.spec_format_time(elapsed_ms as int, None));
                }
                out
            },
            Some(f) => {
                let mut hour_text = String::new();
                render::push_int_padded(&mut hour_text, t.0 as i64, 2);
                let mut minute_text = String::new();
                render::push_int_padded(&mut minute_text, t.1 as i64, 2);
                let mut second_text = String::new();
                render::push_int_padded(&mut second_text, t.2 as i64, 2);
                proof {
                    assert(Seq::<char>::empty() + render::spec_int_pad(t.0 as int, 2)
                        =~= render::spec_int_pad(t.0 as int, 2));
                    assert(Seq::<char>::empty() + render::spec_int_pad(t.1 as int, 2)
                        =~= render::spec_int_pad(t.1 as int, 2));
                    assert(Seq::<char>::empty() + render::spec_int_pad(t.2 as int, 2)
                        =~= render::spec_int_pad(t.2 as int, 2));
                }
                render::render_template(
                    f,
                    None,
                    Some((hour_text.as_str(), minute_text.as_str(), second_text.as_str())),
                )
            },
        }
    }

    /// Renders date and time at `elapsed_ms`: with a template, all nine
    /// tokens apply; without one, the default date and time joined by a
    /// space.
    pub fn format_datetime(&self, elapsed_ms: i64, format: Option<&str>) -> (r: String)
        requires
            self.wf(),
            self.nondegenerate(),
            self.spec_year_in_range(elapsed_ms as int),
        ensures
            r@ == self.spec_format_datetime(
                elapsed_ms as int,
                match format {
                    Some(f) => Some(f@),
                    None => None,
                },
            ),
    {
        match format {
            None => {
                let mut out = self.format_date(elapsed_ms, None);
                let time_text = self.format_time(elapsed_ms, None);
                out.push(' ');
                out.append(time_text.as_str());
                proof {
                    assert(out@ =~= self.spec_format_datetime(elapsed_ms as int, None));
                }
                out
            },
            Some(f) => {
                let d = self.get_date(elapsed_ms);
                let t = self.get_time(elapsed_ms);
                let mut year_text = String::new();
                render::push_int_padded(&mut year_text, d.0 as i64, 0);
                let mut month_text = String::new();
                render::push_int_padded(&mut month_text, d.1 as i64, 2);
                let mut day_text = String::new();
                render::push_int_padded(&mut day_text, d.2 as i64, 2);
                let weekday = self.get_weekday(elapsed_ms);
                let month_name = &self.months[(d.1 - 1) as usize].name;
                let mut hour_text = String::new();
                render::push_int_padded(&mut hour_text, t.0 as i64, 2);
                let mut minute_text = String::new();
                render::push_int_padded(&mut minute_text, t.1 as i64, 2);
                let mut second_text = String::new();
                render::push_int_padded(&mut second_text, t.2 as i64, 2);
                proof {
                    assert(Seq::<char>::empty() + render::spec_int_pad(d.0 as int, 0)
                        =~= render::spec_int_pad(d.0 as int, 0));
                    assert(Seq::<char>::empty() + render::spec_int_pad(d.1 as int, 2)
                        =~= render::spec_int_pad(d.1 as int, 2));
                    assert(Seq::<char>::empty() + render::spec_int_pad(d.2 as int, 2)
                        =~= render::spec_int_pad(d.2 as int, 2));
                    assert(Seq::<char>::empty() + render::spec_int_pad(t.0 as int, 2)
                        =~= render::spec_int_pad(t.0 as int, 2));
                    assert(Seq::<char>::empty() + render::spec_int_pad(t.1 as int, 2)
                        =~= render::spec_int_pad(t.1 as int, 2));
                    assert(Seq::<char>::empty() + render::spec_int_pad(t.2 as int, 2)
                        =~= render::spec_int_pad(t.2 as int, 2));
                }
                render::render_template(
                    f,
                    Some(
                        (
                            year_text.as_str(),
                            month_text.as_str(),
                            day_text.as_str(),
                            month_name.as_str(),
                            self.epoch.name.as_str(),
                            weekday.as_str(),
                        ),
                    ),
                    Some((hour_text.as_str(), minute_text.as_str(), second_text.as_str())),
                )
            },
        }
    }
}

/// A calendar model: the standard Gregorian calendar or a custom one.
#[derive(Debug, Clone)]
pub enum Calendar {
    /// The standard proleptic Gregorian calendar, with fixed units.
    Gregorian(GregorianCalendar),
    /// A fully configurable calendar.
    Custom(CustomCalendar),
}

impl Calendar {
    /// Seconds in one hour of this calendar.
    pub open spec fn spec_seconds_per_hour(&self) -> int {
        match self {
            Calendar::Gregorian(_) => 3600,
            Calendar::Custom(c) => c.spec_seconds_per_hour(),
        }
    }

    /// Seconds in one day of this calendar.
    pub open spec fn spec_seconds_per_day(&self) -> int {
        match self {
            Calendar::Gregorian(_) => 86400,
            Calendar::Custom(c) => c.spec_seconds_per_day(),
        }
    }

    /// Seconds in one week of this calendar.
    pub open spec fn spec_seconds_per_week(&self) -> int {
        match self {
            Calendar::Gregorian(_) => 604800,
            Calendar::Custom(c) => c.spec_seconds_per_week(),
        }
    }

    /// The calendar can be computed with: a custom one is within machine
    /// ranges and has at least one second per day and one day per year.
    pub open spec fn wf(&self) -> bool {
        match self {
            Calendar::Gregorian(_) => true,
            Calendar::Custom(c) => c.wf() && c.nondegenerate(),
        }
    }

    /// The year at `e` fits the machine range; only a custom calendar
    /// computes a year number of its own.
    pub open spec fn spec_year_in_range(&self, e: int) -> bool {
        match self {
            Calendar::Gregorian(_) => true,
            Calendar::Custom(c) => c.spec_year_in_range(e),
        }
    }

    /// The date at `e` after `start`: the date library's answer for the
    /// Gregorian calendar, the configured decomposition for a custom one
    /// (which ignores `start`).
    pub open spec fn spec_get_date(&self, e: i64, start: Moment) -> (i32, u32, u32) {
        match self {
            Calendar::Gregorian(_) => {
                let s = spec_greg_shifted(start, e);
                (s.year, s.month, s.day)
            },
            Calendar::Custom(c) => c.spec_date(e as int),
        }
    }

    /// The time of day at `e` after `start`.
    pub open spec fn spec_get_time(&self, e: i64, start: Moment) -> (u32, u32, u32) {
        match self {
            Calendar::Gregorian(_) => {
                let s = spec_greg_shifted(start, e);
                (s.hour, s.minute, s.second)
            },
            Calendar::Custom(c) => c.spec_time(e as int),
        }
    }

    /// What `format_date` renders.
    pub open spec fn spec_format_date(&self, e: i64, start: Moment, fmt: Option<Seq<char>>)
        -> Seq<char> {
        match self {
            Calendar::Gregorian(_) => spec_greg_formatted(
                start,
                e,
                match fmt {
                    Some(f) => f,
                    None => "%Y-%m-%d"@,
                },
            ),
            Calendar::Custom(c) => c.spec_format_date(e as int, fmt),
        }
    }

    /// What `format_time` renders.
    pub open spec fn spec_format_time(&self, e: i64, start: Moment, fmt: Option<Seq<char>>)
        -> Seq<char> {
        match self {
            Calendar::Gregorian(_) => spec_greg_formatted(
                start,
                e,
                match fmt {
                    Some(f) => f,
                    None => "%H:%M:%S"@,
                },
            ),
            Calendar::Custom(c) => c.spec_format_time(e as int, fmt),
        }
    }

    /// What `format_datetime` renders.
    pub open spec fn spec_format_datetime(&self, e: i64, start: Moment, fmt: Option<Seq<char>>)
        -> Seq<char> {
        match self {
            Calendar::Gregorian(_) => spec_greg_formatted(
                start,
                e,
                match fmt {
                    Some(f) => f,
                    None => "%Y-%m-%d %H:%M:%S"@,
                },
            ),
            Calendar::Custom(c) => c.spec_format_datetime(e as int, fmt),
        }
    }

    /// Seconds in one hour.
    pub fn seconds_per_hour(&self) -> (r: u32)
        requires
            self.wf(),
        ensures
            r == self.spec_seconds_per_hour(),
    {
        match self {
            Calendar::Gregorian(_) => 3600,
            Calendar::Custom(c) => c.seconds_per_hour(),
        }
    }

    /// Seconds in one day.
    pub fn seconds_per_day(&self) -> (r: u32)
        requires
            self.wf(),
        ensures
            r == self.spec_seconds_per_day(),
    {
        match self {
            Calendar::Gregorian(_) => 86400,
            Calendar::Custom(c) => c.seconds_per_day(),
        }
    }

    /// Seconds in one week.
    pub fn seconds_per_week(&self) -> (r: u32)
        requires
            self.wf(),
        ensures
            r == self.spec_seconds_per_week(),
    {
        match self {
            Calendar::Gregorian(_) => 604800,
            Calendar::Custom(c) => c.seconds_per_week(),
        }
    }

    /// The date at `elapsed_ms` after `start`, as (year, month, day).
    pub fn get_date(&self, elapsed_ms: i64, start: &Moment) -> (r: (i32, u32, u32))
        requires
            self.wf(),
            self.spec_year_in_range(elapsed_ms as int),
        ensures
            r == self.spec_get_date(elapsed_ms, *start),
    {
        match self {
            Calendar::Gregorian(g) => g.get_date(elapsed_ms, start),
            Calendar::Custom(c) => c.get_date(elapsed_ms),
        }
    }

    /// The time of day at `elapsed_ms` after `start`, as (hour, minute,
    /// second).
    pub fn get_time(&self, elapsed_ms: i64, start: &Moment) -> (r: (u32, u32, u32))
        requires
            self.wf(),
        ensures
            r == self.spec_get_time(elapsed_ms, *start),
    {
        match self {
            Calendar::Gregorian(g) => g.get_time(elapsed_ms, start),
            Calendar::Custom(c) => c.get_time(elapsed_ms),
        }
    }

    /// Renders the date at `elapsed_ms` after `start`.
    pub fn format_date(&self, elapsed_ms: i64, start: &Moment, format: Option<&str>) -> (r:
        String)
        requires
            self.wf(),
            self.spec_year_in_range(elapsed_ms as int),
        ensures
            r@ == self.spec_format_date(
                elapsed_ms,
                *start,
                match format {
                    Some(f) => Some(f@),
                    None => None,
                },
            ),
    {
        match self {
            Calendar::Gregorian(g) => g.format_date(elapsed_ms, start, format),
            Calendar::Custom(c) => c.format_date(elapsed_ms, format),
        }
    }

    /// Renders the time of day at `elapsed_ms` after `start`.
    pub fn format_time(&self, elapsed_ms: i64, start: &Moment, format: Option<&str>) -> (r:
        String)
        requires
            self.wf(),
        ensures
            r@ == self.spec_format_time(
                elapsed_ms,
                *start,
                match format {
                    Some(f) => Some(f@),
                    None => None,
                },
            ),
    {
        match self {
            Calendar::Gregorian(g) => g.format_time(elapsed_ms, start, format),
            Calendar::Custom(c) => c.format_time(elapsed_ms, format),
        }
    }

    /// Renders date and time at `elapsed_ms` after `start`.
    pub fn format_datetime(&self, elapsed_ms: i64, start: &Moment, format: Option<&str>) -> (r:
        String)
        requires
            self.wf(),
            self.spec_year_in_range(elapsed_ms as int),
        ensures
            r@ == self.spec_format_datetime(
                elapsed_ms,
                *start,
                match format {
                    Some(f) => Some(f@),
                    None => None,
                },
            ),
    {
        match self {
            Calendar::Gregorian(g) => g.format_datetime(elapsed_ms, start, format),
            Calendar::Custom(c) => c.format_datetime(elapsed_ms, format),
        }
    }
}

} // verus!
