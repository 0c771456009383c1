//! Instants on the UTC time line, as the scheduler reads them.
use vstd::prelude::*;

verus! {

/// Earliest second (since the Unix epoch) that the calendar supports: -262143-01-01T00:00:00.
pub const MIN_SECS: i64 = -8_334_601_228_800i64;

/// Latest second (since the Unix epoch) that the calendar supports: +262142-12-31T23:59:59.
pub const MAX_SECS: i64 = 8_210_266_876_799i64;

/// Nanoseconds in one second.
pub const NANOS_PER_SEC: u32 = 1_000_000_000u32;

/// An instant on the UTC time line: whole seconds since the Unix epoch and
/// the nanoseconds within that second.
#[derive(Debug, Clone, Copy, PartialEq, Eq, Structural, Hash)]
pub struct Timestamp {
    secs: i64,
    nanos: u32,
}

/// The calendar date (proleptic Gregorian, UTC) that holds the second `secs`
/// after the Unix epoch, written as chrono writes a `NaiveDate`: `YYYY-MM-DD`,
/// with a sign and more digits for a year outside 0 to 9999.
pub uninterp spec fn utc_date_text(secs: i64) -> Seq<char>;

/// Calls chrono's `DateTime::<Utc>::from_timestamp(secs, 0)`, takes the
/// `date_naive()` of the result and writes it with `to_string()`. Trusted:
/// chrono's source shows `from_timestamp` returning `Some` on every second of
/// the range that `requires` admits, and the text is the date's text named
/// above; nothing more is claimed of its shape.
#[verifier::external_body]
fn utc_date_text_of(secs: i64) -> (r: String)
    requires
        MIN_SECS <= secs <= MAX_SECS,
    ensures
        r@ == utc_date_text(secs),
{
    match chrono::DateTime::from_timestamp(secs, 0) {
        Some(dt) => dt.date_naive().to_string(),
        None => String::new(),
    }
}

/// The second of its day (UTC) that the second `secs` after the Unix epoch
/// is: from 0 to 86399. The earliest second of the calendar begins a day.
pub open spec fn second_of_day(secs: int) -> int {
    (secs - MIN_SECS) % 86_400
}

/// Whether the nanoseconds `nanos` may stand in the second `secs`: below one
/// second, or from one to two seconds (a leap second) where `secs` is the
/// last second of a minute.
pub open spec fn valid_nanos(secs: int, nanos: int) -> bool {
    nanos < NANOS_PER_SEC || (nanos < 2 * NANOS_PER_SEC && second_of_day(secs) % 60 == 59)
}

/// Calls chrono's `DateTime::<Utc>::from_timestamp(secs, nanos)` and says
/// whether it gives an instant. Trusted: chrono's source
/// (`DateTime::from_timestamp`, `NaiveDate::from_num_days_from_ce_opt`,
/// `NaiveTime::from_num_seconds_from_midnight_opt`) gives one exactly where
/// the day of `secs` lies in its calendar (years -262143 to 262142, the
/// seconds from `MIN_SECS` to `MAX_SECS`) and `nanos` is below two seconds,
/// and below one second unless `secs` is the last second of a minute.
#[verifier::external_body]
fn chrono_accepts(secs: i64, nanos: u32) -> (b: bool)
    ensures
        b == (MIN_SECS <= secs <= MAX_SECS && valid_nanos(secs as int, nanos as int)),
{
    chrono::DateTime::from_timestamp(secs, nanos).is_some()
}

/// The whole seconds, rounded towards zero, that chrono measures from the
/// instant `(b_secs, b_nanos)` to the instant `(a_secs, a_nanos)`: what
/// `a.signed_duration_since(b).num_seconds()` gives, leap seconds counted as
/// chrono counts them.
pub uninterp spec fn chrono_whole_seconds(a_secs: i64, a_nanos: u32, b_secs: i64, b_nanos: u32) -> i64;

/// Calls chrono's `DateTime::<Utc>::from_timestamp` on both instants, then
/// `signed_duration_since` and `num_seconds`. Trusted: both instants are
/// accepted by chrono on the inputs that `requires` admits (see
/// `chrono_accepts`), and the result is the one named above.
#[verifier::external_body]
fn chrono_whole_seconds_of(a_secs: i64, a_nanos: u32, b_secs: i64, b_nanos: u32) -> (r: i64)
    requires
        MIN_SECS <= a_secs <= MAX_SECS,
        valid_nanos(a_secs as int, a_nanos as int),
        MIN_SECS <= b_secs <= MAX_SECS,
        valid_nanos(b_secs as int, b_nanos as int),
    ensures
        r == chrono_whole_seconds(a_secs, a_nanos, b_secs, b_nanos),
{
    match (
        chrono::DateTime::from_timestamp(a_secs, a_nanos),
        chrono::DateTime::from_timestamp(b_secs, b_nanos),
    ) {
        (Some(a), Some(b)) => a.signed_duration_since(b).num_seconds(),
        _ => 0,
    }
}

impl Timestamp {
    /// Seconds since the Unix epoch lie in the supported calendar, and the
    /// nanoseconds lie within the second, or within a leap second at the end
    /// of a minute.
    #[verifier::type_invariant]
    pub closed spec fn wf(self) -> bool {
        &&& MIN_SECS <= self.secs <= MAX_SECS
        &&& valid_nanos(self.secs as int, self.nanos as int)
    }

    pub closed spec fn spec_secs(self) -> i64 {
        self.secs
    }

    pub closed spec fn spec_nanos(self) -> u32 {
        self.nanos
    }

    /// An instant is determined by its seconds and its nanoseconds.
    pub proof fn lemma_parts_determine(a: Timestamp, b: Timestamp)
        requires
            a.spec_secs() == b.spec_secs(),
            a.spec_nanos() == b.spec_nanos(),
        ensures
            a == b,
    {
    }

    /// Whether this instant is `other` or comes before it: an earlier second,
    /// or the same second and no more nanoseconds.
    pub open spec fn at_or_before(self, other: Timestamp) -> bool {
        self.spec_secs() < other.spec_secs() || (self.spec_secs() == other.spec_secs()
            && self.spec_nanos() <= other.spec_nanos())
    }

    /// The whole seconds from `earlier` to this instant, rounded towards
    /// zero, as chrono measures them.
    pub open spec fn seconds_since(self, earlier: Timestamp) -> int {
        chrono_whole_seconds(
            self.spec_secs(),
            self.spec_nanos(),
            earlier.spec_secs(),
            earlier.spec_nanos(),
        ) as int
    }

    /// Builds the instant `secs` seconds and `nanos` nanoseconds after the
    /// Unix epoch, as chrono's `DateTime::from_timestamp` does. `None` where
    /// `secs` lies outside the calendar, or `nanos` is two seconds or more,
    /// or is one second or more (a leap second) in a second that does not
    /// end a minute.
    pub fn from_parts(secs: i64, nanos: u32) -> (r: Option<Timestamp>)
        ensures
            r is Some <==> (MIN_SECS <= secs <= MAX_SECS && valid_nanos(secs as int, nanos as int)),
            r matches Some(t) ==> t.spec_secs() == secs && t.spec_nanos() == nanos,
    {
        if chrono_accepts(secs, nanos) {
            Some(Timestamp { secs, nanos })
        } else {
            None
        }
    }

    /// Seconds since the Unix epoch.
    pub fn secs(&self) -> (r: i64)
        ensures
            r == self.spec_secs(),
    {
        self.secs
    }

    /// Nanoseconds within the second (a second or more in a leap second).
    pub fn nanos(&self) -> (r: u32)
        ensures
            r == self.spec_nanos(),
    {
        self.nanos
    }

    /// The calendar date of this instant, as `YYYY-MM-DD`.
    pub fn date_text(&self) -> (r: String)
        ensures
            r@ == utc_date_text(self.spec_secs()),
    {
        proof {
            use_type_invariant(self);
        }
        utc_date_text_of(self.secs)
    }

    /// Whether this instant is the same as `other` or comes before it.
    pub fn is_at_or_before(&self, other: &Timestamp) -> (r: bool)
        ensures
            r == self.at_or_before(*other),
    {
        self.secs < other.secs || (self.secs == other.secs && self.nanos <= other.nanos)
    }

    /// The whole seconds from `earlier` to this instant, rounded towards
    /// zero (negative where `earlier` comes after this instant), as chrono's
    /// `signed_duration_since(..).num_seconds()` gives them.
    pub fn whole_seconds_since(&self, earlier: &Timestamp) -> (r: i64)
        ensures
            r == self.seconds_since(*earlier),
    {
        proof {
            use_type_invariant(self);
            use_type_invariant(earlier);
        }
        chrono_whole_seconds_of(self.secs, self.nanos, earlier.secs, earlier.nanos)
    }
}

} // verus!
