//! Recurrences: how often a task runs, how many times, and until when.
use vstd::prelude::*;

use crate::time::Timestamp;

verus! {

/// A span of time between two runs of a task, in seconds.
#[derive(Debug, Clone, Copy, PartialEq, Eq, Structural, Hash)]
pub struct RecurrenceUnit(u64);

impl View for RecurrenceUnit {
    type V = u64;

    closed spec fn view(&self) -> u64 {
        self.0
    }
}

impl RecurrenceUnit {
    /// A span is determined by its seconds.
    pub proof fn lemma_view_determines(a: RecurrenceUnit, b: RecurrenceUnit)
        requires
            a@ == b@,
        ensures
            a == b,
    {
    }

    /// The span of `secs` seconds.
    pub fn from_secs(secs: u64) -> (r: RecurrenceUnit)
        ensures
            r@ == secs,
    {
        RecurrenceUnit(secs)
    }

    /// The span in seconds.
    pub fn as_secs(&self) -> (r: u64)
        ensures
            r == self@,
    {
        self.0
    }
}

impl core::ops::Deref for RecurrenceUnit {
    type Target = u64;

    fn deref(&self) -> (r: &u64)
        ensures
            *r == self@,
    {
        &self.0
    }
}

/// Seconds in a minute.
pub const SECS_PER_MINUTE: u64 = 60u64;

/// Seconds in an hour.
pub const SECS_PER_HOUR: u64 = 3_600u64;

/// Seconds in a day.
pub const SECS_PER_DAY: u64 = 86_400u64;

/// Seconds in a week.
pub const SECS_PER_WEEK: u64 = 604_800u64;

/// Seconds in a month of thirty days.
pub const SECS_PER_MONTH: u64 = 2_592_000u64;

/// Seconds in a year of 365 days.
pub const SECS_PER_YEAR: u64 = 31_536_000u64;

/// Turns a number into a span of that many seconds, minutes, hours, days,
/// weeks, months (of thirty days) or years (of 365 days).
pub trait RecurrenceCast: Sized {
    /// The number that the value stands for.
    spec fn amount(&self) -> u64;

    /// The number that the value stands for.
    fn to_amount(self) -> (r: u64)
        ensures
            r == self.amount(),
    ;

    fn seconds(self) -> (r: RecurrenceUnit)
        ensures
            r@ == self.amount(),
    {
        RecurrenceUnit(self.to_amount())
    }

    fn minutes(self) -> (r: RecurrenceUnit)
        requires
            self.amount() * SECS_PER_MINUTE <= u64::MAX,
        ensures
            r@ == self.amount() * SECS_PER_MINUTE,
    {
        RecurrenceUnit(self.to_amount() * SECS_PER_MINUTE)
    }

    fn hours(self) -> (r: RecurrenceUnit)
        requires
            self.amount() * SECS_PER_HOUR <= u64::MAX,
        ensures
            r@ == self.amount() * SECS_PER_HOUR,
    {
        RecurrenceUnit(self.to_amount() * SECS_PER_HOUR)
    }

    fn days(self) -> (r: RecurrenceUnit)
        requires
            self.amount() * SECS_PER_DAY <= u64::MAX,
        ensures
            r@ == self.amount() * SECS_PER_DAY,
    {
        RecurrenceUnit(self.to_amount() * SECS_PER_DAY)
    }

    fn weeks(self) -> (r: RecurrenceUnit)
        requires
            self.amount() * SECS_PER_WEEK <= u64::MAX,
        ensures
            r@ == self.amount() * SECS_PER_WEEK,
    {
        RecurrenceUnit(self.to_amount() * SECS_PER_WEEK)
    }

    fn months(self) -> (r: RecurrenceUnit)
        requires
            self.amount() * SECS_PER_MONTH <= u64::MAX,
        ensures
            r@ == self.amount() * SECS_PER_MONTH,
    {
        RecurrenceUnit(self.to_amount() * SECS_PER_MONTH)
    }

    fn years(self) -> (r: RecurrenceUnit)
        requires
            self.amount() * SECS_PER_YEAR <= u64::MAX,
        ensures
            r@ == self.amount() * SECS_PER_YEAR,
    {
        RecurrenceUnit(self.to_amount() * SECS_PER_YEAR)
    }
}

impl RecurrenceCast for u64 {
    open spec fn amount(&self) -> u64 {
        *self
    }

    fn to_amount(self) -> (r: u64) {
        self
    }
}

/// When a task runs: every `unit` seconds, first at once or, with
/// `run_after`, after one unit; at most `count` more times where a count is
/// set; until `limit` seconds have passed since the task was scheduled, and
/// until `limit_datetime`, where those are set.
#[derive(Debug, Clone, Copy, PartialEq, Eq, Structural, Hash)]
pub struct Recurrence {
    pub unit: RecurrenceUnit,
    pub run_after: bool,
    pub count: Option<u64>,
    pub limit: Option<RecurrenceUnit>,
    pub limit_datetime: Option<Timestamp>,
}

/// A recurrence of one run every `unit`, with no count and no limit, that
/// runs first at once.
pub fn every(unit: RecurrenceUnit) -> (r: Recurrence)
    ensures
        r == (Recurrence {
            unit,
            run_after: false,
            count: None,
            limit: None,
            limit_datetime: None,
        }),
{
    Recurrence { unit, run_after: false, count: None, limit: None, limit_datetime: None }
}

impl Recurrence {
    /// Lengthens the span between runs by `unit`.
    pub fn and(self, unit: RecurrenceUnit) -> (r: Recurrence)
        requires
            self.unit@ + unit@ <= u64::MAX,
        ensures
            r.unit@ == self.unit@ + unit@,
            r.run_after == self.run_after,
            r.count == self.count,
            r.limit == self.limit,
            r.limit_datetime == self.limit_datetime,
    {
        let mut r = self;
        r.unit = RecurrenceUnit(self.unit.0 + unit.0);
        r
    }

    /// Sets the number of runs left.
    pub fn count(self, count: u64) -> (r: Recurrence)
        ensures
            r == (Recurrence { count: Some(count), ..self }),
    {
        let mut r = self;
        r.count = Some(count);
        r
    }

    /// Sets whether the first run waits one unit.
    pub fn run_after(self, value: bool) -> (r: Recurrence)
        ensures
            r == (Recurrence { run_after: value, ..self }),
    {
        let mut r = self;
        r.run_after = value;
        r
    }

    /// Sets the span, from the moment the task is scheduled, after which it
    /// runs no more.
    pub fn until(self, value: RecurrenceUnit) -> (r: Recurrence)
        ensures
            r == (Recurrence { limit: Some(value), ..self }),
    {
        let mut r = self;
        r.limit = Some(value);
        r
    }

    /// Sets the instant from which the task runs no more.
    pub fn until_datetime(self, value: Timestamp) -> (r: Recurrence)
        ensures
            r == (Recurrence { limit_datetime: Some(value), ..self }),
    {
        let mut r = self;
        r.limit_datetime = Some(value);
        r
    }
}

} // verus!
