//! The simulated clock and the interval-crossing detector.
//!
//! The clock accumulates simulated time in whole milliseconds, scaled from
//! real time by a speed multiplier held in thousandths, and can be paused.
//! The tracker registry watches recurring periods: once per tick, after the
//! clock advanced, it counts how many period boundaries the elapsed time
//! has crossed since the last check and emits one notification per
//! crossing, each carrying that tracker's cumulative crossing count.

use vstd::arithmetic::div_mod::lemma_fundamental_div_mod;
use vstd::arithmetic::div_mod::lemma_fundamental_div_mod_converse;
use vstd::arithmetic::div_mod::lemma_div_by_self;
use vstd::arithmetic::div_mod::lemma_div_is_ordered;
use vstd::arithmetic::div_mod::lemma_div_nonincreasing;
use vstd::arithmetic::div_mod::lemma_div_pos_is_pos;
use vstd::arithmetic::div_mod::lemma_mod_bound;
use vstd::prelude::*;

use crate::calendar::Calendar;
use crate::calendar::lemma_div_bounds;
use crate::gregorian::GregorianCalendar;
use crate::gregorian::Moment;
use crate::gregorian::greg_shift;
use crate::gregorian::now_moment;
use crate::gregorian::spec_greg_shifted;

verus! {

/// A recurring period whose boundary crossings are announced.
#[derive(Debug, Clone, Copy, PartialEq, Eq, Hash, Structural)]
pub enum ClockInterval {
    /// Every second.
    Second,
    /// Every minute.
    Minute,
    /// Every hour of the active calendar.
    Hour,
    /// Every day of the active calendar.
    Day,
    /// Every week of the active calendar.
    Week,
    /// Every given number of seconds.
    Custom(u32),
}

impl ClockInterval {
    /// The period's length in seconds under `calendar`.  Hour, day and
    /// week lengths are read live from the calendar; the others are fixed.
    pub open spec fn spec_seconds(self, calendar: Calendar) -> int {
        match self {
            ClockInterval::Second => 1,
            ClockInterval::Minute => 60,
            ClockInterval::Hour => calendar.spec_seconds_per_hour(),
            ClockInterval::Day => calendar.spec_seconds_per_day(),
            ClockInterval::Week => calendar.spec_seconds_per_week(),
            ClockInterval::Custom(n) => n as int,
        }
    }

    /// The period's length in seconds under `calendar`.
    pub fn as_seconds(&self, calendar: &Calendar) -> (r: u32)
        requires
            calendar.wf(),
        ensures
            r == self.spec_seconds(*calendar),
    {
        match self {
            ClockInterval::Second => 1,
            ClockInterval::Minute => 60,
            ClockInterval::Hour => calendar.seconds_per_hour(),
            ClockInterval::Day => calendar.seconds_per_day(),
            ClockInterval::Week => calendar.seconds_per_week(),
            ClockInterval::Custom(seconds) => *seconds,
        }
    }
}

/// One crossing notification: which interval crossed a boundary, and that
/// tracker's cumulative crossing count.
#[derive(Debug, Clone, Copy, PartialEq, Eq, Structural)]
pub struct ClockIntervalEvent {
    /// The interval that crossed a boundary.
    pub interval: ClockInterval,
    /// How many boundaries this tracker has counted since it was
    /// registered, this one included.
    pub count: u64,
}

/// Bookkeeping for one registered interval.
#[derive(Debug, Clone, Copy, PartialEq, Eq, Structural)]
pub struct IntervalTracker {
    /// The tracked interval.
    pub interval: ClockInterval,
    /// The elapsed time, in milliseconds, seen at the last check.
    pub last_trigger_ms: i64,
    /// Cumulative boundary crossings counted so far.
    pub count: u64,
}

/// The product of a real-time delta and the speed multiplier, floored to
/// whole simulated milliseconds: the multiplier is held in thousandths.
pub open spec fn spec_scaled(delta_ms: int, speed_milli: int) -> int {
    (delta_ms * speed_milli) / 1000
}

/// Truncating division, as the machine's signed division rounds: toward
/// zero.
pub open spec fn spec_trunc_div(a: int, b: int) -> int
    recommends
        b != 0,
{
    let q = (if a < 0 {
        -a
    } else {
        a
    }) / (if b < 0 {
        -b
    } else {
        b
    });
    if (a < 0) == (b < 0) {
        q
    } else {
        -q
    }
}

/// The simulated clock: elapsed simulated milliseconds since the start
/// moment, a speed multiplier in thousandths of simulated second per real
/// second, a pause flag, and the calendar used for dates and rendering.
#[derive(Debug, Clone)]
pub struct InGameClock {
    /// Elapsed simulated time, in milliseconds, since `start_datetime`.
    pub elapsed_ms: i64,
    /// Speed multiplier in thousandths: 1000 is real time, 2000 double.
    pub speed_milli: i64,
    /// While paused, the clock does not advance.
    pub paused: bool,
    /// The wall-clock moment at which simulated time zero lies.
    pub start_datetime: Moment,
    /// The calendar used for dates, times and rendering.
    pub calendar: Calendar,
}

impl InGameClock {
    /// The calendar this clock renders with.
    pub open spec fn spec_calendar(&self) -> Calendar {
        self.calendar
    }

    /// The clock's calendar can be computed with.
    pub open spec fn wf(&self) -> bool {
        self.spec_calendar().wf()
    }

    /// The year at the current elapsed time fits the machine range.
    pub open spec fn spec_date_in_range(&self) -> bool {
        self.spec_calendar().spec_year_in_range(self.elapsed_ms as int)
    }

    /// A fresh clock: elapsed time zero, real-time speed, running, started
    /// at the current wall-clock time, on the Gregorian calendar.
    pub fn new() -> (r: Self)
        ensures
            r.elapsed_ms == 0,
            r.speed_milli == 1000,
            !r.paused,
            r.spec_calendar() is Gregorian,
            r.wf(),
            1 <= r.start_datetime.month <= 12,
            1 <= r.start_datetime.day <= 31,
            r.start_datetime.hour < 24,
            r.start_datetime.minute < 60,
            r.start_datetime.second < 60,
    {
        InGameClock {
            elapsed_ms: 0,
            speed_milli: 1000,
            paused: false,
            start_datetime: now_moment(),
            calendar: Calendar::Gregorian(GregorianCalendar),
        }
    }

    /// A fresh clock started at the given wall-clock date and time, on the
    /// Gregorian calendar.
    pub fn with_start_datetime(
        year: i32,
        month: u32,
        day: u32,
        hour: u32,
        minute: u32,
        second: u32,
    ) -> (r: Self)
        ensures
            r.elapsed_ms == 0,
            r.speed_milli == 1000,
            !r.paused,
            r.start_datetime == (Moment { year, month, day, hour, minute, second }),
            r.spec_calendar() is Gregorian,
            r.wf(),
    {
        InGameClock {
            elapsed_ms: 0,
            speed_milli: 1000,
            paused: false,
            start_datetime: Moment { year, month, day, hour, minute, second },
            calendar: Calendar::Gregorian(GregorianCalendar),
        }
    }

    /// A fresh clock started at the given moment.
    pub fn with_start(self, datetime: Moment) -> (r: Self)
        ensures
            r.elapsed_ms == self.elapsed_ms,
            r.speed_milli == self.speed_milli,
            r.paused == self.paused,
            r.start_datetime == datetime,
            r.spec_calendar() == self.spec_calendar(),
    {
        let mut c = self;
        c.start_datetime = datetime;
        c
    }

    /// Replaces the calendar.
    pub fn with_calendar(self, calendar: Calendar) -> (r: Self)
        requires
            calendar.wf(),
        ensures
            r.elapsed_ms == self.elapsed_ms,
            r.speed_milli == self.speed_milli,
            r.paused == self.paused,
            r.start_datetime == self.start_datetime,
            r.spec_calendar() == calendar,
            r.wf(),
    {
        let mut c = self;
        c.calendar = calendar;
        c
    }

    /// Sets the speed multiplier, in thousandths.
    pub fn with_speed(self, speed_milli: i64) -> (r: Self)
        ensures
            r.elapsed_ms == self.elapsed_ms,
            r.speed_milli == speed_milli,
            r.paused == self.paused,
            r.start_datetime == self.start_datetime,
            r.spec_calendar() == self.spec_calendar(),
    {
        let mut c = self;
        c.speed_milli = speed_milli;
        c
    }

    /// Sets the speed so that one calendar day of simulated time passes in
    /// `real_ms_per_day` real milliseconds.
    pub fn with_day_duration(self, real_ms_per_day: i64) -> (r: Self)
        requires
            self.wf(),
            real_ms_per_day != 0,
        ensures
            r.elapsed_ms == self.elapsed_ms,
            r.speed_milli == spec_trunc_div(
                self.spec_calendar().spec_seconds_per_day() * 1000000,
                real_ms_per_day as int,
            ),
            r.paused == self.paused,
            r.start_datetime == self.start_datetime,
            r.spec_calendar() == self.spec_calendar(),
    {
        let mut c = self;
        c.set_day_duration(real_ms_per_day);
        c
    }

    /// Pauses the clock.
    pub fn pause(&mut self)
        ensures
            final(self).paused,
            final(self).elapsed_ms == old(self).elapsed_ms,
            final(self).speed_milli == old(self).speed_milli,
            final(self).start_datetime == old(self).start_datetime,
            final(self).spec_calendar() == old(self).spec_calendar(),
    {
        self.paused = true;
    }

    /// Resumes the clock.
    pub fn resume(&mut self)
        ensures
            !final(self).paused,
            final(self).elapsed_ms == old(self).elapsed_ms,
            final(self).speed_milli == old(self).speed_milli,
            final(self).start_datetime == old(self).start_datetime,
            final(self).spec_calendar() == old(self).spec_calendar(),
    {
        self.paused = false;
    }

    /// Flips the pause state.
    pub fn toggle_pause(&mut self)
        ensures
            final(self).paused == !old(self).paused,
            final(self).elapsed_ms == old(self).elapsed_ms,
            final(self).speed_milli == old(self).speed_milli,
            final(self).start_datetime == old(self).start_datetime,
            final(self).spec_calendar() == old(self).spec_calendar(),
    {
        self.paused = !self.paused;
    }

    /// Sets the speed multiplier, in thousandths.
    pub fn set_speed(&mut self, speed_milli: i64)
        ensures
            final(self).speed_milli == speed_milli,
            final(self).elapsed_ms == old(self).elapsed_ms,
            final(self).paused == old(self).paused,
            final(self).start_datetime == old(self).start_datetime,
            final(self).spec_calendar() == old(self).spec_calendar(),
    {
        self.speed_milli = speed_milli;
    }

    /// Sets the speed so that one calendar day of simulated time passes in
    /// `real_ms_per_day` real milliseconds; the day length is the active
    /// calendar's, not a fixed constant.
    pub fn set_day_duration(&mut self, real_ms_per_day: i64)
        requires
            old(self).wf(),
            real_ms_per_day != 0,
        ensures
            final(self).speed_milli == spec_trunc_div(
                old(self).spec_calendar().spec_seconds_per_day() * 1000000,
                real_ms_per_day as int,
            ),
            final(self).elapsed_ms == old(self).elapsed_ms,
            final(self).paused == old(self).paused,
            final(self).start_datetime == old(self).start_datetime,
            final(self).spec_calendar() == old(self).spec_calendar(),
    {
        let spd: u32 = self.calendar.seconds_per_day();
        let num: i64 = (spd as i64) * 1000000;
        proof {
            lemma_trunc_div_some(num, real_ms_per_day);
        }
        self.speed_milli = match num.checked_div(real_ms_per_day) {
            Some(q) => q,
            None => {
                proof {
                    assert(false);
                }
                0
            },
        };
    }

    /// How many real milliseconds one calendar day of simulated time takes
    /// at the current speed.
    pub fn day_duration(&self) -> (r: i64)
        requires
            self.wf(),
            self.speed_milli != 0,
        ensures
            r == spec_trunc_div(
                self.spec_calendar().spec_seconds_per_day() * 1000000,
                self.speed_milli as int,
            ),
    {
        let spd: u32 = self.calendar.seconds_per_day();
        let num: i64 = (spd as i64) * 1000000;
        proof {
            lemma_trunc_div_some(num, self.speed_milli);
        }
        match num.checked_div(self.speed_milli) {
            Some(q) => q,
            None => {
                proof {
                    assert(false);
                }
                0
            },
        }
    }

    /// Advances the clock by a real-time delta: while not paused, elapsed
    /// simulated time grows by exactly the delta times the speed
    /// multiplier; while paused, nothing changes.
    pub fn advance(&mut self, delta_ms: i64)
        requires
            !old(self).paused ==> i64::MIN <= spec_scaled(
                delta_ms as int,
                old(self).speed_milli as int,
            ) <= i64::MAX,
            !old(self).paused ==> i64::MIN <= old(self).elapsed_ms + spec_scaled(
                delta_ms as int,
                old(self).speed_milli as int,
            ) <= i64::MAX,
        ensures
            final(self).speed_milli == old(self).speed_milli,
            final(self).paused == old(self).paused,
            final(self).start_datetime == old(self).start_datetime,
            final(self).spec_calendar() == old(self).spec_calendar(),
            old(self).paused ==> final(self).elapsed_ms == old(self).elapsed_ms,
            !old(self).paused ==> final(self).elapsed_ms == old(self).elapsed_ms + spec_scaled(
                delta_ms as int,
                old(self).speed_milli as int,
            ),
    {
        if !self.paused {
            let product: i128 = (delta_ms as i128) * (self.speed_milli as i128);
            proof {
                lemma_div_bounds(product as int, 1000);
            }
            let scaled128: i128 = match product.checked_div_euclid(1000) {
                Some(q) => q,
                None => {
                    proof {
                        assert(false);
                    }
                    0
                },
            };
            let scaled: i64 = scaled128 as i64;
            self.elapsed_ms = match self.elapsed_ms.checked_add(scaled) {
                Some(e) => e,
                None => {
                    proof {
                        assert(false);
                    }
                    0
                },
            };
        }
    }

    /// The Gregorian wall-clock moment at the current elapsed time: the
    /// start moment shifted by the elapsed milliseconds, whatever calendar
    /// renders dates.
    pub fn current_datetime(&self) -> (r: Moment)
        ensures
            r == spec_greg_shifted(self.start_datetime, self.elapsed_ms),
    {
        match greg_shift(&self.start_datetime, self.elapsed_ms) {
            Some(t) => Moment {
                year: t.0,
                month: t.1,
                day: t.2,
                hour: t.3,
                minute: t.4,
                second: t.5,
            },
            None => self.start_datetime,
        }
    }

    /// The Gregorian time of day at the current elapsed time, as (hour,
    /// minute, second).
    pub fn as_hms(&self) -> (r: (u32, u32, u32))
        ensures
            ({
                let m = spec_greg_shifted(self.start_datetime, self.elapsed_ms);
                r == (m.hour, m.minute, m.second)
            }),
    {
        let m = self.current_datetime();
        (m.hour, m.minute, m.second)
    }

    /// The current date under the active calendar, as (year, month, day).
    pub fn current_date(&self) -> (r: (i32, u32, u32))
        requires
            self.wf(),
            self.spec_date_in_range(),
        ensures
            r == self.spec_calendar().spec_get_date(self.elapsed_ms, self.start_datetime),
    {
        self.calendar.get_date(self.elapsed_ms, &self.start_datetime)
    }

    /// The current time of day under the active calendar, as (hour,
    /// minute, second).
    pub fn current_time(&self) -> (r: (u32, u32, u32))
        requires
            self.wf(),
        ensures
            r == self.spec_calendar().spec_get_time(self.elapsed_ms, self.start_datetime),
    {
        self.calendar.get_time(self.elapsed_ms, &self.start_datetime)
    }

    /// Renders the current date; without a template, `YYYY-MM-DD`.
    pub fn format_date(&self, format: Option<&str>) -> (r: String)
        requires
            self.wf(),
            self.spec_date_in_range(),
        ensures
            r@ == self.spec_calendar().spec_format_date(
                self.elapsed_ms,
                self.start_datetime,
                match format {
                    Some(f) => Some(f@),
                    None => None,
                },
            ),
    {
        self.calendar.format_date(self.elapsed_ms, &self.start_datetime, format)
    }

    /// Renders the current time of day; without a template, `HH:MM:SS`.
    pub fn format_time(&self, format: Option<&str>) -> (r: String)
        requires
            self.wf(),
        ensures
            r@ == self.spec_calendar().spec_format_time(
                self.elapsed_ms,
                self.start_datetime,
                match format {
                    Some(f) => Some(f@),
                    None => None,
                },
            ),
    {
        self.calendar.format_time(self.elapsed_ms, &self.start_datetime, format)
    }

    /// Renders the current date and time; without a template,
    /// `YYYY-MM-DD HH:MM:SS`.
    pub fn format_datetime(&self, format: Option<&str>) -> (r: String)
        requires
            self.wf(),
            self.spec_date_in_range(),
        ensures
            r@ == self.spec_calendar().spec_format_datetime(
                self.elapsed_ms,
                self.start_datetime,
                match format {
                    Some(f) => Some(f@),
                    None => None,
                },
            ),
    {
        self.calendar.format_datetime(self.elapsed_ms, &self.start_datetime, format)
    }

    /// The calendar this clock renders with.
    pub fn calendar(&self) -> (r: &Calendar)
        ensures
            *r == self.spec_calendar(),
    {
        &self.calendar
    }
}

impl Default for InGameClock {
    /// A fresh clock, as `new` builds it.
    fn default() -> (r: Self)
        ensures
            r.elapsed_ms == 0,
            r.speed_milli == 1000,
            !r.paused,
            r.spec_calendar() is Gregorian,
            r.wf(),
    {
        InGameClock::new()
    }
}

/// A positive number divided by a nonzero divisor is defined under checked
/// division and matches truncating division.
proof fn lemma_trunc_div_some(a: i64, b: i64)
    requires
        a > 0,
        b != 0,
    ensures
        a.checked_div(b) is Some,
        a.checked_div(b)->0 == spec_trunc_div(a as int, b as int),
{
    let ai = a as int;
    let bi = b as int;
    if b > 0 {
        lemma_div_pos_is_pos(ai, bi);
        lemma_div_nonincreasing(ai, bi);
    } else {
        lemma_div_pos_is_pos(ai, -bi);
        lemma_div_nonincreasing(ai, -bi);
    }
}


/// The period of an interval in milliseconds under a calendar.
pub open spec fn spec_period_ms(interval: ClockInterval, cal: Calendar) -> int {
    interval.spec_seconds(cal) * 1000
}

/// How many whole periods of length `p` fit in elapsed time `e`; elapsed
/// time at or below zero counts none.
pub open spec fn spec_cross_count(e: int, p: int) -> int
    recommends
        p > 0,
{
    if e <= 0 {
        0
    } else {
        e / p
    }
}

/// Addition clamped to the 64-bit range.
pub open spec fn spec_sat_add(a: int, b: int) -> int {
    if a + b > u64::MAX {
        u64::MAX as int
    } else {
        a + b
    }
}

/// How many period boundaries a tracker crosses when elapsed time moves to
/// `e`: never negative, and none at all for a degenerate (zero-length)
/// period.
pub open spec fn spec_crossings(t: IntervalTracker, e: int, cal: Calendar) -> int {
    let p = spec_period_ms(t.interval, cal);
    if p <= 0 {
        0
    } else {
        let c = spec_cross_count(e, p) - spec_cross_count(t.last_trigger_ms as int, p);
        if c > 0 {
            c
        } else {
            0
        }
    }
}

/// A tracker after one check at elapsed time `e`: its count grows by the
/// crossings (clamped to the 64-bit range) and it remembers `e`.  A
/// tracker with a degenerate period is left untouched.
pub open spec fn spec_tracker_after(t: IntervalTracker, e: i64, cal: Calendar) -> IntervalTracker {
    let p = spec_period_ms(t.interval, cal);
    if p <= 0 {
        t
    } else {
        IntervalTracker {
            interval: t.interval,
            last_trigger_ms: e,
            count: spec_sat_add(t.count as int, spec_crossings(t, e as int, cal)) as u64,
        }
    }
}

/// The notifications one tracker emits in one check: one per crossing,
/// with consecutive cumulative counts.
pub open spec fn spec_events_for(t: IntervalTracker, e: i64, cal: Calendar) -> Seq<
    ClockIntervalEvent,
> {
    Seq::new(
        spec_crossings(t, e as int, cal) as nat,
        |i: int|
            ClockIntervalEvent {
                interval: t.interval,
                count: spec_sat_add(t.count as int, i + 1) as u64,
            },
    )
}

/// The notifications of all trackers from index `i` on, in registration
/// order.
pub open spec fn spec_events_from(
    ts: Seq<IntervalTracker>,
    i: int,
    e: i64,
    cal: Calendar,
) -> Seq<ClockIntervalEvent>
    decreases ts.len() - i,
        when 0 <= i <= ts.len()
{
    if i >= ts.len() {
        Seq::empty()
    } else {
        spec_events_for(ts[i], e, cal) + spec_events_from(ts, i + 1, e, cal)
    }
}

/// The registry of interval trackers, one per distinct registered
/// interval.
#[derive(Debug, Clone)]
pub struct ClockIntervalTrackers {
    /// The trackers, in registration order.
    pub trackers: Vec<IntervalTracker>,
}

impl Default for ClockIntervalTrackers {
    /// An empty registry.
    fn default() -> (r: Self)
        ensures
            r.trackers@.len() == 0,
    {
        ClockIntervalTrackers { trackers: Vec::new() }
    }
}

impl ClockIntervalTrackers {
    /// An empty registry.
    pub fn new() -> (r: Self)
        ensures
            r.trackers@.len() == 0,
    {
        ClockIntervalTrackers { trackers: Vec::new() }
    }

    /// What registering an interval does: nothing if a tracker for it
    /// exists, else a fresh tracker is appended.
    pub open spec fn spec_register(
        ts: Seq<IntervalTracker>,
        interval: ClockInterval,
    ) -> Seq<IntervalTracker> {
        if exists|i: int| 0 <= i < ts.len() && ts[i].interval == interval {
            ts
        } else {
            ts.push(IntervalTracker { interval, last_trigger_ms: 0, count: 0 })
        }
    }

    /// Registers an interval: a no-op when it is already tracked, so
    /// registration is idempotent per interval.
    pub fn register(&mut self, interval: ClockInterval)
        ensures
            final(self).trackers@ == Self::spec_register(old(self).trackers@, interval),
    {
        let n = self.trackers.len();
        let mut i: usize = 0;
        while i < n
            invariant
                i <= n,
                n == self.trackers@.len(),
                self.trackers@ == old(self).trackers@,
                forall|j: int| 0 <= j < i ==> self.trackers@[j].interval != interval,
            decreases n - i,
        {
            if self.trackers[i].interval == interval {
                return ;
            }
            i = i + 1;
        }
        self.trackers.push(IntervalTracker { interval, last_trigger_ms: 0, count: 0 });
    }

    /// Checks every tracker against the clock's elapsed time.  While the
    /// clock is paused nothing is updated and nothing emitted.  Otherwise
    /// each tracker emits one notification per crossed period boundary,
    /// with consecutive cumulative counts, in registration order, and
    /// remembers the elapsed time it saw.
    pub fn check_intervals(&mut self, clock: &InGameClock) -> (events: Vec<ClockIntervalEvent>)
        requires
            clock.wf(),
        ensures
            clock.paused ==> final(self).trackers@ == old(self).trackers@ && events@.len() == 0,
            !clock.paused ==> {
                &&& final(self).trackers@.len() == old(self).trackers@.len()
                &&& (forall|i: int|
                    0 <= i < old(self).trackers@.len() ==> final(self).trackers@[i]
                        == spec_tracker_after(
                        old(self).trackers@[i],
                        clock.elapsed_ms,
                        clock.spec_calendar(),
                    ))
                &&& events@ == spec_events_from(
                    old(self).trackers@,
                    0,
                    clock.elapsed_ms,
                    clock.spec_calendar(),
                )
            },
    {
        let mut events: Vec<ClockIntervalEvent> = Vec::new();
        if clock.paused {
            return events;
        }
        let ghost ts0 = self.trackers@;
        let ghost cal = clock.spec_calendar();
        let e = clock.elapsed_ms;
        let n = self.trackers.len();
        let mut i: usize = 0;
        while i < n
            invariant
                i <= n,
                n == self.trackers@.len(),
                clock.wf(),
                e == clock.elapsed_ms,
                cal == clock.spec_calendar(),
                ts0.len() == n,
                forall|j: int|
                    0 <= j < i ==> self.trackers@[j] == spec_tracker_after(ts0[j], e, cal),
                forall|j: int| i <= j < n ==> self.trackers@[j] == ts0[j],
                spec_events_from(ts0, 0, e, cal) == events@ + spec_events_from(
                    ts0,
                    i as int,
                    e,
                    cal,
                ),
            decreases n - i,
        {
            let ghost t_old = ts0[i as int];
            let ghost events_pre = events@;
            let interval = self.trackers[i].interval;
            let secs: u32 = interval.as_seconds(clock.calendar());
            let p_ms: i64 = (secs as i64) * 1000;
            if p_ms > 0 {
                let cur: u64 = cross_count(e, p_ms);
                let prev: u64 = cross_count(self.trackers[i].last_trigger_ms, p_ms);
                let delta: u64 = if cur > prev {
                    cur - prev
                } else {
                    0
                };
                proof {
                    assert(delta as int == spec_crossings(t_old, e as int, cal));
                }
                let mut c: u64 = self.trackers[i].count;
                let mut k: u64 = 0;
                while k < delta
                    invariant
                        k <= delta,
                        delta as int == spec_crossings(t_old, e as int, cal),
                        interval == t_old.interval,
                        c as int == spec_sat_add(t_old.count as int, k as int),
                        events@ == events_pre + Seq::new(
                            k as nat,
                            |j: int|
                                ClockIntervalEvent {
                                    interval: t_old.interval,
                                    count: spec_sat_add(t_old.count as int, j + 1) as u64,
                                },
                        ),
                    decreases delta - k,
                {
                    c = c.saturating_add(1);
                    events.push(ClockIntervalEvent { interval, count: c });
                    proof {
                        assert(events@ =~= events_pre + Seq::new(
                            (k + 1) as nat,
                            |j: int|
                                ClockIntervalEvent {
                                    interval: t_old.interval,
                                    count: spec_sat_add(t_old.count as int, j + 1) as u64,
                                },
                        ));
                    }
                    k = k + 1;
                }
                let updated = IntervalTracker { interval, last_trigger_ms: e, count: c };
                self.trackers.set(i, updated);
                proof {
                    assert(events@ =~= events_pre + spec_events_for(t_old, e, cal));
                }
            } else {
                proof {
                    assert(spec_events_for(t_old, e, cal) =~= Seq::<ClockIntervalEvent>::empty());
                    assert(events@ =~= events_pre + spec_events_for(t_old, e, cal));
                }
            }
            proof {
                assert(spec_events_from(ts0, i as int, e, cal) == spec_events_for(t_old, e, cal)
                    + spec_events_from(ts0, i as int + 1, e, cal));
                assert(events_pre + (spec_events_for(t_old, e, cal) + spec_events_from(
                    ts0,
                    i as int + 1,
                    e,
                    cal,
                )) =~= (events_pre + spec_events_for(t_old, e, cal)) + spec_events_from(
                    ts0,
                    i as int + 1,
                    e,
                    cal,
                ));
            }
            i = i + 1;
        }
        events
    }
}

/// Executable twin of `spec_cross_count`.
fn cross_count(e: i64, p: i64) -> (r: u64)
    requires
        p > 0,
    ensures
        r as int == spec_cross_count(e as int, p as int),
{
    if e <= 0 {
        0
    } else {
        proof {
            lemma_div_pos_is_pos(e as int, p as int);
            lemma_div_nonincreasing(e as int, p as int);
        }
        (e as u64) / (p as u64)
    }
}


/// Registering an interval twice produces exactly what registering it once
/// produces: registration is idempotent per interval.
pub proof fn lemma_register_idempotent(ts: Seq<IntervalTracker>, interval: ClockInterval)
    ensures
        ClockIntervalTrackers::spec_register(
            ClockIntervalTrackers::spec_register(ts, interval),
            interval,
        ) == ClockIntervalTrackers::spec_register(ts, interval),
{
    let once = ClockIntervalTrackers::spec_register(ts, interval);
    if !(exists|i: int| 0 <= i < ts.len() && ts[i].interval == interval) {
        assert(once[ts.len() as int].interval == interval);
        assert(exists|i: int| 0 <= i < once.len() && once[i].interval == interval);
    }
}

/// Advancing elapsed time across `k` whole periods in a single check emits
/// exactly `k` notifications, with consecutive increasing counts.
pub proof fn lemma_catch_up_crossings(t: IntervalTracker, e: i64, cal: Calendar, k: int)
    requires
        spec_period_ms(t.interval, cal) > 0,
        t.last_trigger_ms >= 0,
        k >= 0,
        e as int == t.last_trigger_ms + k * spec_period_ms(t.interval, cal),
        t.count + k <= u64::MAX,
    ensures
        spec_events_for(t, e, cal).len() == k,
        forall|i: int|
            0 <= i < k ==> spec_events_for(t, e, cal)[i].count == t.count + i + 1,
        forall|i: int|
            0 <= i < k ==> spec_events_for(t, e, cal)[i].interval == t.interval,
{
    let p = spec_period_ms(t.interval, cal);
    let last = t.last_trigger_ms as int;
    lemma_fundamental_div_mod(last, p);
    lemma_mod_bound(last, p);
    let q = last / p;
    let r = last % p;
    lemma_div_pos_is_pos(last, p);
    assert(e as int == (q + k) * p + r) by (nonlinear_arith)
        requires
            last == p * q + r,
            e as int == last + k * p,
    ;
    lemma_fundamental_div_mod_converse(e as int, p, q + k, r);
    if e > 0 {
        assert(spec_cross_count(e as int, p) == q + k);
    } else {
        assert(last == 0 && k == 0 && r == 0) by (nonlinear_arith)
            requires
                e as int <= 0,
                e as int == last + k * p,
                last >= 0,
                k >= 0,
                p > 0,
                e as int == (q + k) * p + r,
                0 <= r < p,
                q >= 0,
                last == p * q + r,
        ;
    }
    assert(spec_crossings(t, e as int, cal) == k);
}

/// Setting the day duration and reading it back returns the same value,
/// whenever the duration divides the day's length exactly: the round trip
/// through the speed multiplier is lossless.
pub proof fn lemma_day_duration_round_trip(n: int, real_ms: int)
    requires
        n > 0,
        1 <= real_ms <= n,
        n % real_ms == 0,
    ensures
        spec_trunc_div(n, spec_trunc_div(n, real_ms)) == real_ms,
{
    let q = n / real_ms;
    lemma_div_by_self(real_ms);
    lemma_div_is_ordered(real_ms, n, real_ms);
    assert(q >= 1);
    lemma_fundamental_div_mod(n, real_ms);
    assert(n == q * real_ms) by (nonlinear_arith)
        requires
            n == real_ms * q + n % real_ms,
            n % real_ms == 0,
    ;
    lemma_fundamental_div_mod_converse(n, q, real_ms, 0);
    assert(n / q == real_ms);
    assert(spec_trunc_div(n, real_ms) == q);
    assert(spec_trunc_div(n, q) == real_ms);
}

} // verus!
