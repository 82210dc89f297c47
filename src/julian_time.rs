//! Conversion between civil UTC timestamps and the continuous Julian day time base.
//!
//! A Julian date is held exactly, as an integer count of nanoseconds since
//! Julian date 0.0 (noon, 1 January 4713 BC, proleptic Julian calendar).
use vstd::arithmetic::div_mod::{lemma_div_denominator, lemma_fundamental_div_mod, lemma_mod_pos_bound};
use vstd::prelude::*;

verus! {

pub const NANOS_PER_SECOND: i128 = 1_000_000_000;

pub const NANOS_PER_MINUTE: i128 = 60_000_000_000;

pub const NANOS_PER_HOUR: i128 = 3_600_000_000_000;

pub const NANOS_PER_DAY: i128 = 86_400_000_000_000;

/// Julian date of the Unix epoch, 1970-01-01T00:00:00 UTC (2440587.5), in nanoseconds.
pub const UNIX_EPOCH_NANOS: i128 = 210_866_760_000_000_000_000;

/// Julian date of 0001-01-01T00:00:00 UTC (1721425.5), the earliest civil time handled.
pub const JULIAN_MIN_NANOS: i128 = 148_731_163_200_000_000_000;

/// Julian date of 10000-01-01T00:00:00 UTC (5373484.5), just past the latest civil time handled.
pub const JULIAN_END_NANOS: i128 = 464_269_060_800_000_000_000;

/// A UTC calendar timestamp: month and day count from 1.
#[derive(Clone, Copy, Debug, PartialEq, Eq, Structural)]
pub struct CivilTime {
    pub year: i32,
    pub month: i32,
    pub day: i32,
    pub hour: i32,
    pub minute: i32,
    pub second: i32,
    pub nanosecond: i32,
}

/// A point of the continuous time base: the Julian date times `NANOS_PER_DAY`.
#[derive(Clone, Copy, Debug, PartialEq, Eq, Structural)]
pub struct JulianTime {
    pub nanos: i128,
}

/// Gregorian leap year rule.
pub open spec fn is_leap_year(year: int) -> bool {
    year % 4 == 0 && (year % 100 != 0 || year % 400 == 0)
}

/// Length of a month in a common year.
pub open spec fn common_month_days(month: int) -> int {
    if month == 2 {
        28
    } else if month == 4 || month == 6 || month == 9 || month == 11 {
        30
    } else {
        31
    }
}

pub open spec fn days_in_month(year: int, month: int) -> int {
    if month == 2 && is_leap_year(year) {
        29
    } else {
        common_month_days(month)
    }
}

/// Days of a common year before the first of `month`.
pub open spec fn common_days_before(month: int) -> int
    decreases month,
{
    if month <= 1 {
        0
    } else {
        common_days_before(month - 1) + common_month_days(month - 1)
    }
}

/// Ordinal day of the year, 1 for 1 January.
pub open spec fn day_of_year(year: int, month: int, day: int) -> int {
    common_days_before(month) + day + if is_leap_year(year) && month > 2 {
        1int
    } else {
        0int
    }
}

/// Whole part of the Julian date of 0.0 January of `year` (Meeus, Astronomical
/// Formulae for Calculators): the date itself is this plus one half.
pub open spec fn year_start_day(year: int) -> int {
    let y = year - 1;
    let a = y / 100;
    let b = 2 - a + a / 4;
    (1461 * y) / 4 + 428 + 1720994 + b
}

/// Nanoseconds since midnight.
pub open spec fn time_of_day_nanos(t: CivilTime) -> int {
    t.hour * NANOS_PER_HOUR + t.minute * NANOS_PER_MINUTE + t.second * NANOS_PER_SECOND
        + t.nanosecond
}

/// The Julian date of a civil time, in nanoseconds.
pub open spec fn julian_nanos(t: CivilTime) -> int {
    (year_start_day(t.year as int) + day_of_year(t.year as int, t.month as int, t.day as int))
        * NANOS_PER_DAY + NANOS_PER_DAY / 2 + time_of_day_nanos(t)
}

impl CivilTime {
    /// A real instant of the years 1 to 9999 (no leap second).
    pub open spec fn wf(self) -> bool {
        1 <= self.year <= 9999 && 1 <= self.month <= 12 && 1 <= self.day <= days_in_month(
            self.year as int,
            self.month as int,
        ) && 0 <= self.hour < 24 && 0 <= self.minute < 60 && 0 <= self.second < 60
            && 0 <= self.nanosecond < NANOS_PER_SECOND
    }
}

impl CivilTime {
    /// Each field within the range a calendar reading gives it, with room for
    /// a leap second and for any day number up to 31.
    pub open spec fn in_field_ranges(self) -> bool {
        1 <= self.year <= 9999 && 1 <= self.month <= 12 && 1 <= self.day <= 31 && 0 <= self.hour
            < 24 && 0 <= self.minute < 60 && 0 <= self.second <= 60 && 0 <= self.nanosecond
            < NANOS_PER_SECOND
    }
}

impl JulianTime {
    /// Lies in the years 1 to 9999, where it has a civil reading.
    pub open spec fn in_civil_range(self) -> bool {
        JULIAN_MIN_NANOS <= self.nanos < JULIAN_END_NANOS
    }
}

pub open spec fn year_length(year: int) -> int {
    if is_leap_year(year) {
        366
    } else {
        365
    }
}

/// Successive years start `year_length` days apart.
pub proof fn lemma_year_length(year: int)
    requires
        year >= 1,
    ensures
        year_start_day(year + 1) == year_start_day(year) + year_length(year),
{
    let y = year - 1;
    assert((1461 * y) / 4 == 365 * y + y / 4);
    assert((1461 * year) / 4 == 365 * year + year / 4);
    assert((y / 100) / 4 == y / 400) by {
        lemma_div_denominator(y, 100, 4);
    }
    assert((year / 100) / 4 == year / 400) by {
        lemma_div_denominator(year, 100, 4);
    }
}

/// Later years start later.
pub proof fn lemma_year_start_monotone(a: int, b: int)
    requires
        1 <= a <= b,
    ensures
        year_start_day(a) + 365 * (b - a) <= year_start_day(b),
    decreases b - a,
{
    if a < b {
        lemma_year_start_monotone(a, b - 1);
        lemma_year_length(b - 1);
    }
}

/// The ordinal day of a valid date lies within its year.
pub proof fn lemma_day_of_year_bounds(year: int, month: int, day: int)
    requires
        1 <= month <= 12,
        1 <= day <= days_in_month(year, month),
    ensures
        1 <= day_of_year(year, month, day) <= year_length(year),
{
    reveal_with_fuel(common_days_before, 12);
}

/// A valid civil time lies in the civil range of the continuous time base.
pub proof fn lemma_julian_nanos_range(t: CivilTime)
    requires
        t.wf(),
    ensures
        JULIAN_MIN_NANOS <= julian_nanos(t) < JULIAN_END_NANOS,
{
    let y = t.year as int;
    lemma_day_of_year_bounds(y, t.month as int, t.day as int);
    lemma_year_start_monotone(1, y);
    lemma_year_start_monotone(y + 1, 10000);
    lemma_year_length(y);
    assert(year_start_day(1) == 1721424);
    assert(year_start_day(10000) == 5373483);
    let d = year_start_day(y) + day_of_year(y, t.month as int, t.day as int);
    assert(1721425 <= d <= 5373483);
    assert(0 <= time_of_day_nanos(t) < NANOS_PER_DAY);
    assert(1721425 * NANOS_PER_DAY <= d * NANOS_PER_DAY <= 5373483 * NANOS_PER_DAY)
        by (nonlinear_arith)
        requires
            1721425 <= d <= 5373483,
    ;
}

/// A value written in a unit and a remainder below that unit is written one way only.
proof fn lemma_unit_split(x1: int, r1: int, x2: int, r2: int, unit: int)
    requires
        0 <= r1 < unit,
        0 <= r2 < unit,
        x1 * unit + r1 == x2 * unit + r2,
    ensures
        x1 == x2,
        r1 == r2,
{
    if x1 < x2 {
        assert(x1 * unit + unit <= x2 * unit) by (nonlinear_arith)
            requires
                x1 < x2,
                unit > 0,
        ;
    } else if x2 < x1 {
        assert(x2 * unit + unit <= x1 * unit) by (nonlinear_arith)
            requires
                x2 < x1,
                unit > 0,
        ;
    }
}

/// Within one year, distinct valid dates have distinct ordinal days.
proof fn lemma_day_of_year_injective(year: int, m1: int, d1: int, m2: int, d2: int)
    requires
        1 <= m1 <= 12,
        1 <= m2 <= 12,
        1 <= d1 <= days_in_month(year, m1),
        1 <= d2 <= days_in_month(year, m2),
        day_of_year(year, m1, d1) == day_of_year(year, m2, d2),
    ensures
        m1 == m2,
        d1 == d2,
{
    reveal_with_fuel(common_days_before, 12);
}

/// Reading a civil time on the continuous time base loses nothing: two valid
/// civil times with the same Julian date are the same time. Hence converting a
/// civil time to the continuous base, back to civil time and once more to the
/// continuous base gives exactly the first continuous value.
pub proof fn lemma_civil_round_trip(a: CivilTime, b: CivilTime)
    requires
        a.wf(),
        b.wf(),
        julian_nanos(a) == julian_nanos(b),
    ensures
        a == b,
{
    let ya = a.year as int;
    let yb = b.year as int;
    let da = year_start_day(ya) + day_of_year(ya, a.month as int, a.day as int);
    let db = year_start_day(yb) + day_of_year(yb, b.month as int, b.day as int);
    let ta = time_of_day_nanos(a);
    let tb = time_of_day_nanos(b);
    lemma_unit_split(da, ta, db, tb, NANOS_PER_DAY as int);
    lemma_day_of_year_bounds(ya, a.month as int, a.day as int);
    lemma_day_of_year_bounds(yb, b.month as int, b.day as int);
    if ya < yb {
        lemma_year_length(ya);
        lemma_year_start_monotone(ya + 1, yb);
    } else if yb < ya {
        lemma_year_length(yb);
        lemma_year_start_monotone(yb + 1, ya);
    }
    lemma_day_of_year_injective(ya, a.month as int, a.day as int, b.month as int, b.day as int);
    let ra = a.minute * NANOS_PER_MINUTE + a.second * NANOS_PER_SECOND + a.nanosecond;
    let rb = b.minute * NANOS_PER_MINUTE + b.second * NANOS_PER_SECOND + b.nanosecond;
    lemma_unit_split(a.hour as int, ra, b.hour as int, rb, NANOS_PER_HOUR as int);
    let sa = a.second * NANOS_PER_SECOND + a.nanosecond;
    let sb = b.second * NANOS_PER_SECOND + b.nanosecond;
    lemma_unit_split(a.minute as int, sa, b.minute as int, sb, NANOS_PER_MINUTE as int);
    lemma_unit_split(
        a.second as int,
        a.nanosecond as int,
        b.second as int,
        b.nanosecond as int,
        NANOS_PER_SECOND as int,
    );
}

/// Calculates the day of the year for the specified date.
pub fn day_of_the_year(yr: i32, mo: i32, dy: i32) -> (day: i32)
    requires
        1 <= mo <= 12,
        dy <= i32::MAX - 335,
    ensures
        day == day_of_year(yr as int, mo as int, dy as int),
{
    let days: [i32; 12] = [31, 28, 31, 30, 31, 30, 31, 31, 30, 31, 30, 31];
    let mut day: i32 = 0;
    let mut i: usize = 0;
    while i < (mo - 1) as usize
        invariant
            1 <= mo <= 12,
            0 <= i <= mo - 1,
            days@ == seq![31i32, 28, 31, 30, 31, 30, 31, 31, 30, 31, 30, 31],
            day == common_days_before(i + 1),
            0 <= day <= 31 * i,
        decreases mo - 1 - i,
    {
        day = day + days[i];
        i = i + 1;
    }
    proof {
        reveal_with_fuel(common_days_before, 13);
        assert(common_days_before(mo as int) <= 334);
    }
    day = day + dy;
    if (yr % 4 == 0) && ((yr % 100 != 0) || (yr % 400 == 0)) && (mo > 2) {
        day = day + 1;
    }
    day
}

/// Calculates the whole part of the Julian date of 0.0 January of `yr`
/// (Meeus, Astronomical Formulae for Calculators, pages 23-25).
fn julian_date_of_year(yr: i32) -> (r: i64)
    requires
        1 <= yr <= 9999,
    ensures
        r == year_start_day(yr as int),
{
    let year: i64 = yr as i64 - 1;
    let a: i64 = year / 100;
    let i: i64 = a / 4;
    let b: i64 = 2 - a + i;
    1461 * year / 4 + 428 + 1720994 + b
}

/// Converts a civil UTC timestamp to the continuous time base.
///
/// A leap second (second 60) and a day past the end of its month are taken as
/// written: they count on into the next minute or month.
pub fn julian_timestamp(t: CivilTime) -> (r: JulianTime)
    requires
        t.in_field_ranges(),
    ensures
        r.nanos == julian_nanos(t),
        t.wf() ==> r.in_civil_range(),
{
    let day: i64 = julian_date_of_year(t.year) + day_of_the_year(t.year, t.month, t.day) as i64;
    proof {
        if t.wf() {
            lemma_julian_nanos_range(t);
        }
        lemma_year_start_monotone(1, t.year as int);
        lemma_year_start_monotone(t.year as int, 10000);
        assert(year_start_day(1) == 1721424);
        assert(year_start_day(10000) == 5373483);
        reveal_with_fuel(common_days_before, 13);
        assert(1721425 <= day <= 5373483 + 366);
    }
    let nanos: i128 = day as i128 * NANOS_PER_DAY + NANOS_PER_DAY / 2 + t.hour as i128
        * NANOS_PER_HOUR + t.minute as i128 * NANOS_PER_MINUTE + t.second as i128
        * NANOS_PER_SECOND + t.nanosecond as i128;
    JulianTime { nanos }
}

/// The continuous time of a Unix timestamp given as seconds and nanoseconds.
pub fn julian_from_unix(sec: i64, nsec: i32) -> (r: JulianTime)
    requires
        0 <= nsec < NANOS_PER_SECOND,
    ensures
        r.nanos == UNIX_EPOCH_NANOS + sec * NANOS_PER_SECOND + nsec,
{
    JulianTime { nanos: UNIX_EPOCH_NANOS + sec as i128 * NANOS_PER_SECOND + nsec as i128 }
}

/// Gregorian leap year rule.
fn is_leap(year: i32) -> (r: bool)
    ensures
        r == is_leap_year(year as int),
{
    (year % 4 == 0) && ((year % 100 != 0) || (year % 400 == 0))
}

/// Days in `month` of `year`.
fn month_length(year: i32, month: i32) -> (r: i64)
    requires
        1 <= month <= 12,
    ensures
        r == days_in_month(year as int, month as int),
{
    if month == 2 {
        if is_leap(year) {
            29
        } else {
            28
        }
    } else if month == 4 || month == 6 || month == 9 || month == 11 {
        30
    } else {
        31
    }
}

/// The calendar date of the day whose whole Julian day number (at noon before
/// its midnight start, plus one half) is `day`: the year whose span holds it,
/// then the month within that year.
fn civil_date_of_day(day: i64) -> (r: (i32, i32, i32))
    requires
        1721425 <= day <= 5373483,
    ensures
        1 <= r.0 <= 9999,
        1 <= r.1 <= 12,
        1 <= r.2 <= days_in_month(r.0 as int, r.1 as int),
        year_start_day(r.0 as int) + day_of_year(r.0 as int, r.1 as int, r.2 as int) == day,
{
    proof {
        assert(year_start_day(1) == 1721424);
        assert(year_start_day(10000) == 5373483);
    }
    let mut year: i32 = ((day - 1721425) * 400 / 146097 + 1) as i32;
    if year > 9999 {
        year = 9999;
    }
    while year > 1 && julian_date_of_year(year) >= day
        invariant
            1 <= year <= 9999,
            1721425 <= day <= 5373483,
            year_start_day(1) == 1721424,
        decreases year,
    {
        year = year - 1;
    }
    while year < 9999 && julian_date_of_year(year + 1) < day
        invariant
            1 <= year <= 9999,
            1721425 <= day <= 5373483,
            year_start_day(year as int) < day,
            year_start_day(10000) == 5373483,
        decreases 9999 - year,
    {
        year = year + 1;
    }
    proof {
        lemma_year_length(year as int);
    }
    let mut rest: i64 = day - julian_date_of_year(year);
    let mut month: i32 = 1;
    let leap = is_leap(year);
    while month < 12 && rest > month_length(year, month)
        invariant
            1 <= year <= 9999,
            1 <= month <= 12,
            rest >= 1,
            leap == is_leap_year(year as int),
            common_days_before(month as int) + rest + (if leap && month > 2 {
                1int
            } else {
                0int
            }) == day - year_start_day(year as int),
            day - year_start_day(year as int) <= year_length(year as int),
        decreases 12 - month,
    {
        proof {
            reveal_with_fuel(common_days_before, 13);
        }
        rest = rest - month_length(year, month);
        month = month + 1;
    }
    proof {
        reveal_with_fuel(common_days_before, 13);
    }
    (year, month, rest as i32)
}

/// Converts a continuous time back to the civil UTC timestamp it denotes.
pub fn julian_to_unix(julian: JulianTime) -> (r: CivilTime)
    requires
        julian.in_civil_range(),
    ensures
        r.wf(),
        julian_nanos(r) == julian.nanos,
{
    let offset: i128 = julian.nanos - JULIAN_MIN_NANOS;
    let days: i128 = offset / NANOS_PER_DAY;
    let tod: i128 = offset % NANOS_PER_DAY;
    let hour: i128 = tod / NANOS_PER_HOUR;
    let in_hour: i128 = tod % NANOS_PER_HOUR;
    let minute: i128 = in_hour / NANOS_PER_MINUTE;
    let in_minute: i128 = in_hour % NANOS_PER_MINUTE;
    let second: i128 = in_minute / NANOS_PER_SECOND;
    let nanosecond: i128 = in_minute % NANOS_PER_SECOND;
    proof {
        let k: int = 3652059;
        lemma_fundamental_div_mod(offset as int, NANOS_PER_DAY as int);
        lemma_mod_pos_bound(offset as int, NANOS_PER_DAY as int);
        assert(0 <= days < k) by (nonlinear_arith)
            requires
                offset == days * NANOS_PER_DAY + tod,
                0 <= tod < NANOS_PER_DAY,
                0 <= offset < k * NANOS_PER_DAY,
        ;
        lemma_fundamental_div_mod(tod as int, NANOS_PER_HOUR as int);
        lemma_mod_pos_bound(tod as int, NANOS_PER_HOUR as int);
        assert(0 <= hour < 24) by (nonlinear_arith)
            requires
                tod == hour * NANOS_PER_HOUR + in_hour,
                0 <= in_hour < NANOS_PER_HOUR,
                0 <= tod < 24 * NANOS_PER_HOUR,
        ;
        lemma_fundamental_div_mod(in_hour as int, NANOS_PER_MINUTE as int);
        lemma_mod_pos_bound(in_hour as int, NANOS_PER_MINUTE as int);
        assert(0 <= minute < 60) by (nonlinear_arith)
            requires
                in_hour == minute * NANOS_PER_MINUTE + in_minute,
                0 <= in_minute < NANOS_PER_MINUTE,
                0 <= in_hour < 60 * NANOS_PER_MINUTE,
        ;
        lemma_fundamental_div_mod(in_minute as int, NANOS_PER_SECOND as int);
        lemma_mod_pos_bound(in_minute as int, NANOS_PER_SECOND as int);
        assert(0 <= second < 60) by (nonlinear_arith)
            requires
                in_minute == second * NANOS_PER_SECOND + nanosecond,
                0 <= nanosecond < NANOS_PER_SECOND,
                0 <= in_minute < 60 * NANOS_PER_SECOND,
        ;
    }
    let (year, month, day) = civil_date_of_day((days + 1721425) as i64);
    let r = CivilTime {
        year,
        month,
        day,
        hour: hour as i32,
        minute: minute as i32,
        second: second as i32,
        nanosecond: nanosecond as i32,
    };
    proof {
        let d = days + 1721425;
        assert(d * NANOS_PER_DAY == days * NANOS_PER_DAY + 1721425 * NANOS_PER_DAY)
            by (nonlinear_arith)
            requires
                d == days + 1721425,
        ;
        assert(julian_nanos(r) == d * NANOS_PER_DAY + NANOS_PER_DAY / 2 + tod);
    }
    r
}

/// Relies on `time::get_time`: the wall clock as a Unix timestamp, whose
/// nanoseconds `time::Timespec::new` keeps below one second.
#[verifier::external_body]
fn unix_now() -> (r: (i64, i32))
    ensures
        0 <= r.1 < NANOS_PER_SECOND,
{
    let t = time::get_time();
    (t.sec, t.nsec)
}

/// The continuous time of `sec` seconds and `nsec` nanoseconds after the Unix epoch.
pub open spec fn unix_nanos(sec: int, nsec: int) -> int {
    UNIX_EPOCH_NANOS + sec * NANOS_PER_SECOND + nsec
}

/// The current wall-clock time on the continuous time base.
pub fn julian_now() -> (r: JulianTime)
    ensures
        exists|s: int, n: int|
            i64::MIN <= s <= i64::MAX && 0 <= n < NANOS_PER_SECOND && r.nanos == #[trigger] unix_nanos(
                s,
                n,
            ),
{
    let (sec, nsec) = unix_now();
    let r = julian_from_unix(sec, nsec);
    assert(r.nanos == unix_nanos(sec as int, nsec as int));
    r
}

} // verus!
