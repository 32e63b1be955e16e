//! An in-game clock and calendar library.
//!
//! The library keeps a simulated clock that advances independently of real
//! time, at a configurable multiplier, and detects when configurable time
//! periods elapse.  Dates and times can be rendered either through a
//! standard proleptic Gregorian calendar or through a fully custom calendar
//! with variable month lengths and an expression-based leap-year rule.
//!
//! Simulated time is measured in whole milliseconds and the speed multiplier
//! in thousandths, so that every computation is exact integer arithmetic.

pub mod calendar;
pub mod clock;
pub mod expr;
pub mod gregorian;
pub mod render;

pub use calendar::Calendar;
pub use calendar::CustomCalendar;
pub use calendar::CustomCalendarBuilder;
pub use calendar::Epoch;
pub use calendar::Month;
pub use clock::ClockInterval;
pub use clock::ClockIntervalEvent;
pub use clock::ClockIntervalTrackers;
pub use clock::InGameClock;
pub use clock::IntervalTracker;
pub use gregorian::GregorianCalendar;
pub use gregorian::Moment;
