//! Points in time as `chrono` reports them for UTC, the time elapsed between
//! two of them, and the calendar days that the local time zone puts them on.
use vstd::prelude::*;
use chrono::{DateTime, Datelike, Local, NaiveDate, TimeDelta, TimeZone, Utc};
use crate::text::tdiv;

verus! {

/// A point in time: the Unix timestamp in seconds and the nanoseconds within
/// that second, which reach one billion or more only inside a leap second.
#[derive(Clone, Copy, Debug)]
pub struct Instant {
    pub secs: i64,
    pub nanos: u32,
}

/// How `chrono` reads `text` as a UTC date and time (`str::parse::<DateTime<Utc>>`,
/// a relaxed RFC 3339): its timestamp and sub-second nanoseconds, or `None` when the
/// text is refused.
pub uninterp spec fn utc_reading(text: Seq<char>) -> Option<(i64, u32)>;

/// The instant of a timestamp and its nanoseconds.
pub open spec fn instant_of(p: (i64, u32)) -> Instant {
    Instant { secs: p.0, nanos: p.1 }
}

/// The instant that `text` denotes, or `fallback` when it does not parse.
pub open spec fn instant_or(text: Seq<char>, fallback: Instant) -> Instant {
    match utc_reading(text) {
        Some(p) => Instant { secs: p.0, nanos: p.1 },
        None => fallback,
    }
}

/// Whether `a` lies strictly after `b` (the order of `DateTime<Utc>`).
pub open spec fn is_after(a: Instant, b: Instant) -> bool {
    a.secs > b.secs || (a.secs == b.secs && a.nanos > b.nanos)
}

/// One second more in the difference when the earlier instant sits in a leap
/// second of an earlier second of the day, one less in the mirrored case, as
/// `chrono` counts a time-of-day difference.
pub open spec fn leap_adjust(earlier: Instant, later: Instant) -> int {
    let te = (earlier.secs as int) % 86400;
    let tl = (later.secs as int) % 86400;
    if tl > te && earlier.nanos >= 1_000_000_000 {
        1
    } else if tl < te && later.nanos >= 1_000_000_000 {
        -1
    } else {
        0
    }
}

/// `later - earlier` as a `chrono` time delta: whole seconds (rounded down) and the
/// nanoseconds beyond them, below one billion.
pub open spec fn delta(earlier: Instant, later: Instant) -> (int, int) {
    let frac = later.nanos - earlier.nanos;
    (
        later.secs - earlier.secs + leap_adjust(earlier, later) + frac / 1_000_000_000,
        frac % 1_000_000_000,
    )
}

/// Whole seconds from `earlier` to `later`, rounded toward zero (`num_seconds`).
pub open spec fn whole_seconds(earlier: Instant, later: Instant) -> int {
    let (s, n) = delta(earlier, later);
    if s < 0 && n > 0 {
        s + 1
    } else {
        s
    }
}

/// Whole minutes from `earlier` to `later`, rounded toward zero (`num_minutes`).
pub open spec fn whole_minutes(earlier: Instant, later: Instant) -> int {
    tdiv(whole_seconds(earlier, later), 60)
}

/// Whole hours from `earlier` to `later`, rounded toward zero (`num_hours`).
pub open spec fn whole_hours(earlier: Instant, later: Instant) -> int {
    tdiv(whole_seconds(earlier, later), 3600)
}

/// Monday-based weekday (0 is Monday) of a day counted from 1 January of year 1,
/// which was a Monday, as day 1 (`num_days_from_ce`).
pub open spec fn weekday_of(day: int) -> int {
    (day - 1) % 7
}

/// The calendar day of a Unix timestamp in UTC, counted from 1 January of year 1 as
/// day 1 (1 January 1970 is day 719163).
pub open spec fn utc_day(secs: int) -> int {
    secs / 86400 + 719163
}

/// The first and the last day that `chrono`'s `NaiveDate` holds, counted from
/// 1 January of year 1 as day 1.
pub open spec fn first_day() -> int {
    -95746129
}

/// See `first_day`.
pub open spec fn last_day() -> int {
    95745399
}

/// Whether `chrono` accepts a timestamp and its nanoseconds as a UTC instant
/// (`DateTime::from_timestamp`), over unbounded integers: the day lies between the
/// first and the last day that `NaiveDate` holds, the nanoseconds stay below two
/// billion, and they reach one billion only in the last second of a minute (a leap
/// second).
pub open spec fn accepts_timestamp(secs: int, nanos: int) -> bool {
    &&& first_day() <= utc_day(secs) <= last_day()
    &&& 0 <= nanos < 2_000_000_000
    &&& (nanos < 1_000_000_000 || (secs % 86400) % 60 == 59)
}

/// Whether `chrono` accepts `(secs, nanos)` as a UTC instant.
pub open spec fn utc_accepts(secs: i64, nanos: u32) -> bool {
    accepts_timestamp(secs as int, nanos as int)
}

/// Whether the local day of `at` can be had in every time zone: `chrono` accepts the
/// instant and its UTC day is neither the first nor the last that `NaiveDate` holds,
/// so that a local offset, always under a day, keeps the local date in range.
pub open spec fn has_local_day(at: Instant) -> bool {
    utc_accepts(at.secs, at.nanos) && first_day() < utc_day(at.secs as int) < last_day()
}

/// Whether `day` is what the library takes as the local day of `at` in some time zone:
/// the UTC day or a neighbour where the local day can be had, and `None` where it
/// cannot.
pub open spec fn is_local_day_of(day: Option<i64>, at: Instant) -> bool {
    if has_local_day(at) {
        day matches Some(d) && -1 <= d - utc_day(at.secs as int) <= 1
    } else {
        day is None
    }
}

/// Whether the local date of an instant with this timestamp falls in the years 0 to
/// 9999, in every time zone, so that `%Y` writes four digits.
pub open spec fn four_digit_year(secs: i64) -> bool {
    -364 <= utc_day(secs as int) <= 3652058
}

/// Whether `t` is `n` decimal digits.
pub open spec fn all_digits(t: Seq<char>, n: nat) -> bool {
    t.len() == n && forall|i: int| 0 <= i < n ==> '0' <= #[trigger] t[i] <= '9'
}

/// The value of two decimal digits.
pub open spec fn two_digit_value(t: Seq<char>) -> int {
    ((t[0] as int) - 48) * 10 + ((t[1] as int) - 48)
}

/// Whether `t` is two decimal digits whose value lies in `lo..=hi`.
pub open spec fn two_digits_in(t: Seq<char>, lo: int, hi: int) -> bool {
    all_digits(t, 2) && lo <= two_digit_value(t) <= hi
}

/// `HH:MM`, as `%H:%M` writes it: hour below 24, minute below 60.
pub open spec fn clock_shape(t: Seq<char>) -> bool {
    &&& t.len() == 5
    &&& two_digits_in(t.subrange(0, 2), 0, 23)
    &&& t[2] == ':'
    &&& two_digits_in(t.subrange(3, 5), 0, 59)
}

/// `MM-DD`, as `%m-%d` writes it: month 1 to 12, day 1 to 31.
pub open spec fn month_day_shape(t: Seq<char>) -> bool {
    &&& t.len() == 5
    &&& two_digits_in(t.subrange(0, 2), 1, 12)
    &&& t[2] == '-'
    &&& two_digits_in(t.subrange(3, 5), 1, 31)
}

/// `YYYY-MM-DD`, as `%Y-%m-%d` writes a date of the years 0 to 9999.
pub open spec fn date_shape(t: Seq<char>) -> bool {
    &&& t.len() == 10
    &&& all_digits(t.subrange(0, 4), 4)
    &&& t[4] == '-'
    &&& month_day_shape(t.subrange(5, 10))
}

/// `MM-DD HH:MM`, as `%m-%d %H:%M` writes it.
pub open spec fn stamp_shape(t: Seq<char>) -> bool {
    &&& t.len() == 11
    &&& month_day_shape(t.subrange(0, 5))
    &&& t[5] == ' '
    &&& clock_shape(t.subrange(6, 11))
}

/// `YYYY-MM-DD HH:MM`, as `%Y-%m-%d %H:%M` writes a time of the years 0 to 9999.
pub open spec fn date_time_shape(t: Seq<char>) -> bool {
    &&& t.len() == 16
    &&& date_shape(t.subrange(0, 10))
    &&& t[10] == ' '
    &&& clock_shape(t.subrange(11, 16))
}

/// The shape of the text that `chrono`'s `format` gives for each pattern that the
/// library uses, for an instant with timestamp `secs`, in every time zone.
pub open spec fn pattern_shape(pattern: Seq<char>, secs: i64, t: Seq<char>) -> bool {
    &&& pattern == "%H:%M"@ ==> clock_shape(t)
    &&& pattern == "%m-%d %H:%M"@ ==> stamp_shape(t)
    &&& pattern == "%Y-%m-%d"@ ==> (four_digit_year(secs) ==> date_shape(t))
    &&& pattern == "%Y-%m-%d %H:%M"@ ==> (four_digit_year(secs) ==> date_time_shape(t))
}

/// The seconds from 1 January 1970 to `hour:minute` on the day `day` (counted from
/// 1 January of year 1 as day 1), read as if that clock time were UTC.
pub open spec fn clock_seconds(day: int, hour: int, minute: int) -> int {
    (day - 719163) * 86400 + hour * 3600 + minute * 60
}

/// Reads `text` as a UTC date and time with `chrono` (`str::parse::<DateTime<Utc>>`).
/// The contract claims that the result is `utc_reading` of the text, and that it is a
/// timestamp that `DateTime::from_timestamp` accepts again: its documentation shows
/// that `timestamp` and `timestamp_subsec_nanos` of a `DateTime` round-trip there.
#[verifier::external_body]
pub(crate) fn parse_utc(text: &str) -> (r: Option<Instant>)
    ensures
        r matches Some(i) ==> utc_reading(text@) == Some((i.secs, i.nanos)) && i.nanos
            < 2_000_000_000 && utc_accepts(i.secs, i.nanos),
        r is None ==> utc_reading(text@) is None,
{
    text.parse::<DateTime<Utc>>().ok().map(
        |t| Instant { secs: t.timestamp(), nanos: t.timestamp_subsec_nanos() },
    )
}

/// The local calendar day of `at`, counted from 1 January of year 1 as day 1, through
/// `chrono` (`DateTime::from_timestamp`, then `with_timezone(&Local)`, `date_naive`,
/// `num_days_from_ce`). Which day depends on the time zone of the machine. The
/// contract claims what holds in every zone: `from_timestamp` accepts the instant, and
/// the local date is the UTC date moved by the zone's offset, which `FixedOffset`
/// keeps strictly within a day, so it is the UTC day or a neighbour. `date_naive`
/// panics where that would leave `chrono`'s range of dates, so `requires` keeps the
/// UTC day away from the first and the last day.
#[verifier::external_body]
pub(crate) fn local_day(at: Instant) -> (r: Option<i64>)
    requires
        has_local_day(at),
    ensures
        r is Some,
        r matches Some(d) ==> -1 <= d - utc_day(at.secs as int) <= 1,
{
    DateTime::from_timestamp(at.secs, at.nanos).map(
        |t| t.with_timezone(&Local).date_naive().num_days_from_ce() as i64,
    )
}

/// Whether the local day of `at` can be had in every time zone.
pub fn local_day_known(at: Instant) -> (r: bool)
    ensures
        r == has_local_day(at),
{
    let secs = at.secs as i128;
    let mut second_of_day = secs % 86400;
    if second_of_day < 0 {
        second_of_day = second_of_day + 86400;
    }
    let day = (secs - second_of_day) / 86400 + 719163;
    assert(day == utc_day(at.secs as int) && second_of_day == (at.secs as int) % 86400);
    -95746129 < day && day < 95745399 && at.nanos < 2_000_000_000 && (at.nanos
        < 1_000_000_000 || second_of_day % 60 == 59)
}

/// The local date and time of `at` written by `chrono` with `pattern`
/// (`DateTime::from_timestamp`, `with_timezone(&Local)`, `format`). Nothing is claimed
/// of the text beyond its shape, since it depends on the time zone of the machine.
/// The contract claims that there is a text exactly where `DateTime::from_timestamp`
/// accepts the instant, the one step here that can refuse, and that the text has the
/// shape that `format` gives each pattern in every zone (`%m`, `%d`, `%H`, `%M` as two
/// digits, `%Y` as four for the years 0 to 9999). The patterns admitted are the ones
/// that the library uses, all valid, so that the formatting cannot fail.
#[verifier::external_body]
pub(crate) fn local_text(at: Instant, pattern: &str) -> (r: Option<String>)
    requires
        pattern@ == "%m-%d %H:%M"@ || pattern@ == "%Y-%m-%d %H:%M"@ || pattern@ == "%Y-%m-%d"@
            || pattern@ == "%H:%M"@,
    ensures
        r is Some <==> utc_accepts(at.secs, at.nanos),
        r matches Some(t) ==> pattern_shape(pattern@, at.secs, t@),
{
    DateTime::from_timestamp(at.secs, at.nanos).map(
        |t| t.with_timezone(&Local).format(pattern).to_string(),
    )
}

/// What `chrono` makes of the instant `(secs, nanos)` plus `minutes` minutes
/// (`DateTime::from_timestamp`, `TimeDelta::try_minutes`, `checked_add_signed`), or
/// `None` where it refuses one of them.
pub uninterp spec fn utc_plus_minutes(secs: i64, nanos: u32, minutes: i64) -> Option<(i64, u32)>;

/// `at` plus `minutes` minutes, through `chrono`. The contract claims that the result
/// is `utc_plus_minutes` of the arguments, with nanoseconds below two billion as
/// `timestamp_subsec_nanos` documents. For an accepted instant outside a leap second
/// and a shift of at most a trillion minutes (well inside what `TimeDelta` holds), it
/// also claims what `NaiveTime::overflowing_add_signed` and
/// `NaiveDate::checked_add_signed` do there: the timestamp moves by sixty seconds a
/// minute, the nanoseconds stay, and the result exists exactly where `chrono` accepts
/// the moved timestamp.
#[verifier::external_body]
pub(crate) fn plus_minutes(at: Instant, minutes: i64) -> (r: Option<Instant>)
    ensures
        r matches Some(i) ==> utc_plus_minutes(at.secs, at.nanos, minutes) == Some(
            (i.secs, i.nanos),
        ) && i.nanos < 2_000_000_000,
        r is None ==> utc_plus_minutes(at.secs, at.nanos, minutes) is None,
        at.nanos < 1_000_000_000 && utc_accepts(at.secs, at.nanos) && -1_000_000_000_000
            <= minutes <= 1_000_000_000_000 ==> (r is Some <==> accepts_timestamp(
            at.secs + 60 * minutes,
            at.nanos as int,
        )) && (r matches Some(i) ==> i.secs == at.secs + 60 * minutes && i.nanos == at.nanos),
{
    let t = DateTime::from_timestamp(at.secs, at.nanos)?;
    let d = TimeDelta::try_minutes(minutes)?;
    t.checked_add_signed(d).map(
        |u| Instant { secs: u.timestamp(), nanos: u.timestamp_subsec_nanos() },
    )
}

/// How `chrono` writes the instant `(secs, nanos)` in RFC 3339 for UTC
/// (`DateTime::from_timestamp`, then `to_rfc3339`), or `None` where it refuses it.
pub uninterp spec fn rfc3339_of(secs: i64, nanos: u32) -> Option<Seq<char>>;

/// `at` written in RFC 3339 for UTC, through `chrono`. The contract claims that the
/// result is `rfc3339_of` of the instant.
#[verifier::external_body]
pub(crate) fn rfc3339(at: Instant) -> (r: Option<String>)
    ensures
        r matches Some(t) ==> rfc3339_of(at.secs, at.nanos) == Some(t@),
        r is None ==> rfc3339_of(at.secs, at.nanos) is None,
{
    DateTime::from_timestamp(at.secs, at.nanos).map(|t| t.to_rfc3339())
}

/// The instant at `hour:minute` on the local day `day` (counted from 1 January of
/// year 1 as day 1), through `chrono` (`NaiveDate::from_num_days_from_ce_opt`,
/// `and_hms_opt`, `Local.from_local_datetime(..).earliest()`). Which instant comes
/// out depends on the machine's time zone, and it is `None` where `chrono` refuses the
/// day or the time or the zone has no such local time. The contract claims what holds
/// of every zone: the instant has no fraction of a second, and it is the clock time
/// read as UTC minus the zone's offset, which `FixedOffset` keeps strictly within a
/// day.
#[verifier::external_body]
pub(crate) fn local_instant(day: i64, hour: u32, minute: u32) -> (r: Option<Instant>)
    ensures
        r matches Some(i) ==> i.nanos == 0 && -86400 < clock_seconds(
            day as int,
            hour as int,
            minute as int,
        ) - i.secs < 86400,
{
    let date = NaiveDate::from_num_days_from_ce_opt(i32::try_from(day).ok()?)?;
    let naive = date.and_hms_opt(hour, minute, 0)?;
    Local.from_local_datetime(&naive).earliest().map(
        |t| Instant { secs: t.timestamp(), nanos: t.timestamp_subsec_nanos() },
    )
}

/// The instant that `text` denotes, or `fallback` when it does not parse
/// (`text.parse().unwrap_or_else(|_| fallback)`).
pub fn instant_or_fallback(text: &str, fallback: Instant) -> (r: Instant)
    ensures
        r == instant_or(text@, fallback),
        fallback.nanos < 2_000_000_000 ==> r.nanos < 2_000_000_000,
{
    match parse_utc(text) {
        Some(i) => i,
        None => fallback,
    }
}

/// Whether `a` lies strictly after `b`.
pub fn after(a: Instant, b: Instant) -> (r: bool)
    ensures
        r == is_after(a, b),
{
    a.secs > b.secs || (a.secs == b.secs && a.nanos > b.nanos)
}

/// Whole seconds from `earlier` to `later`, rounded toward zero.
pub fn seconds_between(earlier: Instant, later: Instant) -> (r: i128)
    requires
        earlier.nanos < 2_000_000_000,
        later.nanos < 2_000_000_000,
    ensures
        r == whole_seconds(earlier, later),
        -0x2_0000_0000_0000_0000 < r < 0x2_0000_0000_0000_0000,
{
    let es = earlier.secs as i128;
    let ls = later.secs as i128;
    let mut te = es % 86400;
    if te < 0 {
        te = te + 86400;
    }
    let mut tl = ls % 86400;
    if tl < 0 {
        tl = tl + 86400;
    }
    let adj: i128 = if tl > te && earlier.nanos >= 1_000_000_000 {
        1
    } else if tl < te && later.nanos >= 1_000_000_000 {
        -1
    } else {
        0
    };
    let frac: i128 = later.nanos as i128 - earlier.nanos as i128;
    let (carry, rest): (i128, i128) = if frac >= 1_000_000_000 {
        (1, frac - 1_000_000_000)
    } else if frac >= 0 {
        (0, frac)
    } else if frac >= -1_000_000_000 {
        (-1, frac + 1_000_000_000)
    } else {
        (-2, frac + 2_000_000_000)
    };
    assert(carry == frac / 1_000_000_000 && rest == frac % 1_000_000_000);
    let s = ls - es + adj + carry;
    if s < 0 && rest > 0 {
        s + 1
    } else {
        s
    }
}

/// Whole minutes from `earlier` to `later`, rounded toward zero.
pub fn minutes_between(earlier: Instant, later: Instant) -> (r: i64)
    requires
        earlier.nanos < 2_000_000_000,
        later.nanos < 2_000_000_000,
    ensures
        r == whole_minutes(earlier, later),
{
    let s = seconds_between(earlier, later);
    (s / 60) as i64
}

/// Whole hours from `earlier` to `later`, rounded toward zero.
pub fn hours_between(earlier: Instant, later: Instant) -> (r: i64)
    requires
        earlier.nanos < 2_000_000_000,
        later.nanos < 2_000_000_000,
    ensures
        r == whole_hours(earlier, later),
{
    let s = seconds_between(earlier, later);
    (s / 3600) as i64
}

/// The weekday of a day counted from 1 January of year 1 as day 1, Monday as 0.
pub fn weekday_index(day: i64) -> (r: usize)
    ensures
        r == weekday_of(day as int),
        r < 7,
{
    let d = day as i128 - 1;
    let mut w = d % 7;
    if w < 0 {
        w = w + 7;
    }
    w as usize
}

/// No time passes from an instant to itself.
pub proof fn law_no_time_elapsed(a: Instant)
    requires
        a.nanos < 2_000_000_000,
    ensures
        whole_seconds(a, a) == 0,
        whole_minutes(a, a) == 0,
{
}

/// Swapping two instants turns the elapsed seconds, minutes and hours into their
/// negatives.
pub proof fn law_elapsed_antisymmetric(a: Instant, b: Instant)
    requires
        a.nanos < 2_000_000_000,
        b.nanos < 2_000_000_000,
    ensures
        whole_seconds(b, a) == -whole_seconds(a, b),
        whole_minutes(b, a) == -whole_minutes(a, b),
        whole_hours(b, a) == -whole_hours(a, b),
{
    let f = b.nanos - a.nanos;
    assert(leap_adjust(a, b) == -leap_adjust(b, a));
    if f == 1_000_000_000 || f == -1_000_000_000 {
    } else if f > 1_000_000_000 {
        assert(f / 1_000_000_000 == 1 && f % 1_000_000_000 == f - 1_000_000_000);
        assert((-f) / 1_000_000_000 == -2 && (-f) % 1_000_000_000 == 2_000_000_000 - f);
    } else if f > 0 {
        assert(f / 1_000_000_000 == 0 && f % 1_000_000_000 == f);
        assert((-f) / 1_000_000_000 == -1 && (-f) % 1_000_000_000 == 1_000_000_000 - f);
    } else if f < -1_000_000_000 {
        assert((-f) / 1_000_000_000 == 1 && (-f) % 1_000_000_000 == -f - 1_000_000_000);
        assert(f / 1_000_000_000 == -2 && f % 1_000_000_000 == 2_000_000_000 + f);
    } else if f < 0 {
        assert((-f) / 1_000_000_000 == 0 && (-f) % 1_000_000_000 == -f);
        assert(f / 1_000_000_000 == -1 && f % 1_000_000_000 == 1_000_000_000 + f);
    }
    let w = whole_seconds(a, b);
    assert(tdiv(-w, 60) == -tdiv(w, 60));
    assert(tdiv(-w, 3600) == -tdiv(w, 3600));
}

} // verus!
