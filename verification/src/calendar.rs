//! Instants as plain numbers, and the calendar questions the library asks `chrono` and
//! `chrono_tz` about them.
use vstd::prelude::*;

verus! {

/// The earliest second `chrono` can represent (the start of year -262143, UTC).
pub const MIN_TIMESTAMP_SECS: i64 = -8_334_601_228_800;
/// The latest second `chrono` can represent (the end of year 262142, UTC).
pub const MAX_TIMESTAMP_SECS: i64 = 8_210_266_876_799;

/// Whether the second `secs` after the UNIX epoch lies in `chrono`'s range.
pub open spec fn secs_in_range(secs: int) -> bool {
    MIN_TIMESTAMP_SECS <= secs <= MAX_TIMESTAMP_SECS
}

/// An instant in UTC: whole seconds since the UNIX epoch and the nanoseconds past them.
#[derive(Debug, Clone, Copy, PartialEq, Eq, Structural)]
pub struct Timestamp {
    pub secs: i64,
    pub nanos: u32,
}

impl Timestamp {
    /// A representable instant: the nanoseconds are less than a second and the second lies
    /// in `chrono`'s range.
    pub open spec fn wf(self) -> bool {
        &&& self.nanos < 1_000_000_000
        &&& secs_in_range(self.secs as int)
    }

    /// The instant as nanoseconds since the UNIX epoch.
    pub open spec fn total_nanos(self) -> int {
        self.secs * 1_000_000_000 + self.nanos
    }
}

/// The days from 1 January of the year 1 to 1 January of year `y`, in the proleptic
/// Gregorian calendar (every fourth year a leap year, but not every hundredth, yet every
/// four hundredth).
pub open spec fn days_before_year(y: int) -> int {
    let p = y - 1;
    365 * p + p / 4 - p / 100 + p / 400
}

/// The day, counted from 1 January 1970, on which year `y` begins.
pub open spec fn year_start_day(y: int) -> int {
    days_before_year(y) - days_before_year(1970)
}

/// The calendar year, in UTC, in which the second `secs` after the epoch falls: the year
/// whose days hold the day of that second.
pub open spec fn utc_year_of(secs: int) -> int {
    choose|y: int| #[trigger] year_start_day(y) <= secs / 86_400 < year_start_day(y + 1)
}

/// A year has at least 365 days.
pub proof fn lemma_year_length(y: int)
    ensures
        year_start_day(y) + 365 <= year_start_day(y + 1),
{
    let p = y - 1;
    assert((p + 1) / 4 >= p / 4);
    assert((p + 1) / 100 <= p / 100 + 1);
    assert((p + 1) / 400 >= p / 400);
}

/// Years begin on later days the later they are.
pub proof fn lemma_year_start_increases(a: int, b: int)
    requires
        a < b,
    ensures
        year_start_day(a) < year_start_day(b),
    decreases b - a,
{
    lemma_year_length(a);
    if a + 1 < b {
        lemma_year_start_increases(a + 1, b);
    }
}

/// The second `secs` falls in year `y` exactly when `y` is its UTC year.
pub proof fn lemma_utc_year_unique(secs: int, y: int)
    requires
        year_start_day(y) <= secs / 86_400 < year_start_day(y + 1),
    ensures
        utc_year_of(secs) == y,
{
    let c = utc_year_of(secs);
    assert(year_start_day(c) <= secs / 86_400 < year_start_day(c + 1));
    if c < y {
        if c + 1 < y {
            lemma_year_start_increases(c + 1, y);
        }
    } else if y < c {
        if y + 1 < c {
            lemma_year_start_increases(y + 1, c);
        }
    }
}

/// The local calendar date (year, month, day) in the IANA zone `zone` of the instant `secs`
/// s + `nanos` ns after the epoch.
pub uninterp spec fn zoned_date_of(secs: i64, nanos: u32, zone: Seq<char>) -> (i32, u32, u32);

/// Whether `name` is the name of a time zone of the IANA database that `chrono_tz` knows.
pub uninterp spec fn known_zone(name: Seq<char>) -> bool;

/// `Utc::now`, as seconds and nanoseconds. Of the value only what every reading of the
/// clock satisfies is stated: the nanoseconds stay below a second, the second is not before
/// the epoch and lies in range (`Utc::now` panics otherwise).
#[verifier::external_body]
pub fn utc_now() -> (r: Timestamp)
    ensures
        r.wf(),
        r.secs >= 0,
{
    let now = chrono::Utc::now();
    Timestamp { secs: now.timestamp(), nanos: now.timestamp_subsec_nanos() }
}

/// `Datelike::year` of the `DateTime<Utc>` that `DateTime::from_timestamp` builds from the
/// instant: the proleptic Gregorian year whose days hold the instant's day (the seconds
/// divided by 86 400, rounded down).
#[verifier::external_body]
pub fn utc_year(t: Timestamp) -> (r: i32)
    requires
        t.wf(),
    ensures
        year_start_day(r as int) <= t.secs / 86_400 < year_start_day(r + 1),
{
    chrono::Datelike::year(&chrono::DateTime::from_timestamp(t.secs, t.nanos).unwrap())
}

/// `DateTime::with_timezone` into the zone that `zone` names (parsed as a `chrono_tz::Tz`),
/// read back as year, month and day of the local date. The date is named, not computed here;
/// the month lies in `1..=12` and the day in `1..=31`, as `chrono` documents.
#[verifier::external_body]
pub fn zoned_date(t: Timestamp, zone: &str) -> (r: (i32, u32, u32))
    requires
        t.wf(),
        known_zone(zone@),
    ensures
        r == zoned_date_of(t.secs, t.nanos, zone@),
        1 <= r.1 <= 12,
        1 <= r.2 <= 31,
{
    let tz: chrono_tz::Tz = zone.parse().unwrap();
    let local = chrono::DateTime::from_timestamp(t.secs, t.nanos).unwrap().with_timezone(&tz);
    (chrono::Datelike::year(&local), chrono::Datelike::month(&local), chrono::Datelike::day(&local))
}

/// `str::parse::<chrono_tz::Tz>` succeeds: whether `name` names a zone. Parsing looks the
/// name up exactly (case matters), and a zone's `name()` is the string it was parsed from.
#[verifier::external_body]
pub fn is_known_zone(name: &str) -> (r: bool)
    ensures
        r == known_zone(name@),
{
    name.parse::<chrono_tz::Tz>().is_ok()
}

/// `chrono_tz::Tz::UTC.name()`: the name `"UTC"`, which parses back to that zone.
#[verifier::external_body]
pub fn utc_zone_name() -> (r: String)
    ensures
        r@ == "UTC"@,
        known_zone(r@),
{
    chrono_tz::Tz::UTC.name().to_string()
}

} // verus!
