//! What the dashboard shows: bars, the week per project, the last seven days,
//! the recent sessions, the running session, and when it closes.
use vstd::prelude::*;
use crate::clock::{
    Instant, instant_or, instant_or_fallback, is_local_day_of, local_day, local_day_known, local_text,
    stamp_shape, utc_accepts, weekday_index, weekday_of,
};
use crate::model::{Session, SessionView, history_view};
use crate::report::{
    ProjectTotal, minutes_of_session, session_minutes, totals_view,
};
use crate::style::{fmt_hours_minutes, hours_minutes_text};
use crate::text::{
    chars_of, dec_nat, dec_zero2, nat_text, pad_left, pad_right, push_padded_left,
    push_padded_right, push_repeat, push_str, push_zero2, repeat, string_of_range,
};
use crate::tracker::{clock_line, clock_text};

verus! {

/// A bar of `width` cells, the first `filled` of them full.
pub open spec fn bar_text(filled: nat, width: nat) -> Seq<char> {
    repeat('█', if filled < width { filled } else { width }) + repeat(
        ' ',
        if filled < width { (width - filled) as nat } else { 0 },
    )
}

/// A bar of `width` cells, the first `filled` of them full (`filled` beyond the
/// width fills it).
pub fn bar(filled: usize, width: usize) -> (r: String)
    ensures
        r@ == bar_text(filled as nat, width as nat),
        r@.len() == width,
{
    let mut r = String::new();
    let full = if filled < width {
        filled
    } else {
        width
    };
    push_repeat(&mut r, '█', full);
    push_repeat(&mut r, ' ', width - full);
    assert(r@ =~= bar_text(filled as nat, width as nat));
    r
}

/// The greatest of `v`, or 1 when `v` is empty.
pub open spec fn peak_of(v: Seq<u64>) -> u64
    decreases v.len(),
{
    if v.len() == 0 {
        1
    } else if v.len() == 1 {
        v[0]
    } else {
        let m = peak_of(v.drop_last());
        if v.last() > m {
            v.last()
        } else {
            m
        }
    }
}

/// The greatest of `v`, or 1 when `v` is empty.
pub fn peak(v: &Vec<u64>) -> (r: u64)
    ensures
        r == peak_of(v@),
        v@.len() > 0 ==> (forall|i: int| 0 <= i < v@.len() ==> v@[i] <= r) && v@.contains(r),
{
    if v.len() == 0 {
        return 1;
    }
    let mut m = v[0];
    assert(v@.take(1).drop_last() =~= Seq::<u64>::empty());
    assert(v@.take(1)[0] == m);
    let mut i: usize = 1;
    while i < v.len()
        invariant
            1 <= i <= v@.len(),
            m == peak_of(v@.take(i as int)),
            forall|j: int| 0 <= j < i ==> v@[j] <= m,
            v@.take(i as int).contains(m),
        decreases v.len() - i,
    {
        assert(v@.take(i + 1).drop_last() =~= v@.take(i as int));
        let ghost w = choose|w: int| 0 <= w < i && v@.take(i as int)[w] == m;
        if v[i] > m {
            m = v[i];
            assert(v@.take(i + 1)[i as int] == m);
        } else {
            assert(v@.take(i + 1)[w] == m);
        }
        i += 1;
    }
    assert(v@.take(v.len() as int) =~= v@);
    m
}

/// The minutes by which the dashboard draws the week's totals (as `u64`).
pub open spec fn panel_minutes(e: Seq<(Seq<char>, int)>) -> Seq<u64> {
    e.map_values(|x: (Seq<char>, int)| x.1 as u64)
}

/// The minutes by which the dashboard draws the week's totals.
pub fn panel_values(entries: &Vec<ProjectTotal>) -> (r: Vec<u64>)
    ensures
        r@ == panel_minutes(totals_view(entries@)),
{
    let mut r: Vec<u64> = Vec::new();
    for k in 0..entries.len()
        invariant
            r@ == panel_minutes(totals_view(entries@)).take(k as int),
    {
        r.push(entries[k].minutes as u64);
        assert(r@ =~= panel_minutes(totals_view(entries@)).take(k + 1));
    }
    assert(panel_minutes(totals_view(entries@)).take(entries.len() as int) =~= panel_minutes(
        totals_view(entries@),
    ));
    r
}

/// Bytes that UTF-8 takes for `c` (`char::len_utf8`).
pub open spec fn char_width(c: char) -> nat {
    let u = c as u32;
    if u < 0x80 {
        1
    } else if u < 0x800 {
        2
    } else if u < 0x10000 {
        3
    } else {
        4
    }
}

/// Bytes that UTF-8 takes for `s` (`str::len`).
pub open spec fn byte_len(s: Seq<char>) -> nat
    decreases s.len(),
{
    if s.len() == 0 {
        0
    } else {
        byte_len(s.drop_last()) + char_width(s.last())
    }
}

/// Whether the first ten bytes of `s` end on a character boundary, or `s` is no longer.
pub open spec fn label_fits(s: Seq<char>) -> bool {
    byte_len(s) <= 10 || exists|k: int| 0 <= k <= s.len() && #[trigger] byte_len(s.take(k)) == 10
}

/// A project name cut to its first ten bytes, as the dashboard shows it.
pub open spec fn label_of(s: Seq<char>) -> Seq<char> {
    if byte_len(s) <= 10 {
        s
    } else {
        s.take(choose|k: int| 0 <= k <= s.len() && #[trigger] byte_len(s.take(k)) == 10)
    }
}

/// Longer prefixes take more bytes.
proof fn lemma_byte_len_grows(s: Seq<char>, a: int, b: int)
    requires
        0 <= a < b <= s.len(),
    ensures
        byte_len(s.take(a)) < byte_len(s.take(b)),
    decreases b - a,
{
    assert(s.take(b).drop_last() =~= s.take(b - 1));
    if a < b - 1 {
        lemma_byte_len_grows(s, a, b - 1);
    }
}

/// The width of a character.
fn width_of(c: char) -> (w: usize)
    ensures
        w == char_width(c),
{
    let u = c as u32;
    if u < 0x80 {
        1
    } else if u < 0x800 {
        2
    } else if u < 0x10000 {
        3
    } else {
        4
    }
}

/// A project name cut to its first ten bytes (`&name[..10]` when longer), or `None`
/// when byte ten falls inside a character, where such a cut would panic.
pub fn week_label(name: &str) -> (r: Option<String>)
    ensures
        r is Some <==> label_fits(name@),
        r matches Some(l) ==> l@ == label_of(name@),
{
    let v = chars_of(name);
    let mut k: usize = 0;
    let mut bytes: usize = 0;
    assert(v@.take(0) =~= Seq::<char>::empty());
    while k < v.len() && bytes < 10
        invariant
            k <= v@.len(),
            v@ == name@,
            bytes == byte_len(v@.take(k as int)),
            k > 0 ==> byte_len(v@.take(k - 1)) < 10,
        decreases v.len() - k,
    {
        assert(v@.take(k + 1).drop_last() =~= v@.take(k as int));
        bytes = bytes + width_of(v[k]);
        k += 1;
    }
    if bytes <= 10 {
        let l = string_of_range(&v, 0, k);
        assert(v@.subrange(0, k as int) =~= v@.take(k as int));
        proof {
            if k < v@.len() {
                assert(byte_len(v@) > 10) by {
                    lemma_byte_len_grows(v@, k as int, v@.len() as int);
                    assert(v@.take(v@.len() as int) =~= v@);
                }
                assert(byte_len(v@.take(k as int)) == 10);
                let c = choose|c: int| 0 <= c <= v@.len() && #[trigger] byte_len(v@.take(c)) == 10;
                if c < k {
                    lemma_byte_len_grows(v@, c, k as int);
                } else if c > k {
                    lemma_byte_len_grows(v@, k as int, c);
                }
            } else {
                assert(v@.take(k as int) =~= v@);
            }
        }
        Some(l)
    } else {
        proof {
            assert(v@.take(v@.len() as int) =~= v@);
            if k < v@.len() {
                lemma_byte_len_grows(v@, k as int, v@.len() as int);
            }
            assert forall|c: int| 0 <= c <= v@.len() implies #[trigger] byte_len(v@.take(c)) != 10 by {
                if c < k {
                    if c < k - 1 {
                        lemma_byte_len_grows(v@, c, k - 1);
                    }
                } else if c > k {
                    lemma_byte_len_grows(v@, k as int, c);
                }
            }
        }
        None
    }
}

/// A line of the week's panel: the label, the bar, and hours and minutes.
pub open spec fn week_line_text(label: Seq<char>, bar: Seq<char>, mins: u64) -> Seq<char> {
    "  "@ + pad_right(label, 10) + " "@ + bar + " "@ + pad_left(dec_nat((mins / 60) as nat), 2)
        + "h"@ + dec_zero2((mins % 60) as int) + "m"@
}

/// Appends hours and minutes as ` 1h05m`.
fn push_hours_minutes(s: &mut String, mins: u64)
    ensures
        final(s)@ == old(s)@ + pad_left(dec_nat((mins / 60) as nat), 2) + "h"@ + dec_zero2(
            (mins % 60) as int,
        ) + "m"@,
{
    let ghost start = s@;
    let h = nat_text(mins / 60);
    push_padded_left(s, h.as_str(), 2);
    push_str(s, "h");
    push_zero2(s, (mins % 60) as i128);
    push_str(s, "m");
    assert(s@ =~= start + pad_left(dec_nat((mins / 60) as nat), 2) + "h"@ + dec_zero2(
        (mins % 60) as int,
    ) + "m"@);
}

/// A line of the week's panel for a project, or `None` when its name cannot be cut
/// at ten bytes without splitting a character.
pub fn week_line(name: &str, bar: &str, mins: u64) -> (r: Option<String>)
    ensures
        r is Some <==> label_fits(name@),
        r matches Some(l) ==> l@ == week_line_text(label_of(name@), bar@, mins),
{
    let label = match week_label(name) {
        Some(l) => l,
        None => return None,
    };
    let mut r = String::new();
    push_str(&mut r, "  ");
    push_padded_right(&mut r, label.as_str(), 10);
    push_str(&mut r, " ");
    push_str(&mut r, bar);
    push_str(&mut r, " ");
    push_hours_minutes(&mut r, mins);
    assert(r@ =~= week_line_text(label_of(name@), bar@, mins));
    Some(r)
}

/// The minutes of the closed sessions whose start falls on local day `day`.
pub open spec fn day_minutes(h: Seq<SessionView>, days: Seq<Option<i64>>, day: int, now: Instant) -> int
    decreases h.len(),
{
    if h.len() == 0 {
        0
    } else {
        day_minutes(h.drop_last(), days.drop_last(), day, now) + if days.last() == Some(day as i64)
            && h.last().end_time is Some {
            minutes_of_session(h.last(), now)
        } else {
            0
        }
    }
}

/// The short English name of a Monday-based weekday.
pub open spec fn day_name(w: int) -> Seq<char> {
    if w == 0 {
        "Mon"@
    } else if w == 1 {
        "Tue"@
    } else if w == 2 {
        "Wed"@
    } else if w == 3 {
        "Thu"@
    } else if w == 4 {
        "Fri"@
    } else if w == 5 {
        "Sat"@
    } else {
        "Sun"@
    }
}

/// Entry `i` of the last seven days ending `today`: the weekday's name and the
/// minutes of the day (summed as `i64`, shown as `u64`).
pub open spec fn daily_entry(
    h: Seq<SessionView>,
    days: Seq<Option<i64>>,
    today: int,
    i: int,
    now: Instant,
) -> (Seq<char>, u64) {
    let day = today - (6 - i);
    (day_name(weekday_of(day)), ((day_minutes(h, days, day, now) as i64) as u64))
}

/// The local days of the session starts, a start that does not parse read as `now`.
/// Each is, in some time zone, the local day of that instant (see `is_local_day_of`).
pub fn dashboard_days(history: &Vec<Session>, now: Instant) -> (r: Vec<Option<i64>>)
    ensures
        r@.len() == history@.len(),
        forall|i: int|
            0 <= i < history@.len() ==> is_local_day_of(
                #[trigger] r@[i],
                instant_or(history@[i].start_time@, now),
            ),
{
    let mut r: Vec<Option<i64>> = Vec::new();
    for i in 0..history.len()
        invariant
            r@.len() == i,
            forall|j: int|
                0 <= j < i ==> is_local_day_of(
                    #[trigger] r@[j],
                    instant_or(history@[j].start_time@, now),
                ),
    {
        let t = instant_or_fallback(history[i].start_time.as_str(), now);
        let d = if local_day_known(t) {
            local_day(t)
        } else {
            None
        };
        r.push(d);
    }
    r
}

/// The minutes of the closed sessions whose start falls on local day `day`.
fn minutes_on(history: &Vec<Session>, days: &Vec<Option<i64>>, day: i64, now: Instant) -> (r: i128)
    requires
        days@.len() == history@.len(),
        now.nanos < 2_000_000_000,
    ensures
        r == day_minutes(history_view(history@), days@, day as int, now),
{
    let ghost h = history_view(history@);
    let mut total: i128 = 0;
    for i in 0..history.len()
        invariant
            h == history_view(history@),
            days@.len() == history@.len(),
            total == day_minutes(h.take(i as int), days@.take(i as int), day as int, now),
            -(i * 0x8000_0000_0000_0000) <= total <= i * 0x8000_0000_0000_0000,
            now.nanos < 2_000_000_000,
    {
        assert(h.take(i + 1).drop_last() =~= h.take(i as int));
        assert(days@.take(i + 1).drop_last() =~= days@.take(i as int));
        assert(history@[i as int]@ == h[i as int]);
        if days[i] == Some(day) && history[i].end_time.is_some() {
            total = total + session_minutes(&history[i], now) as i128;
        }
    }
    assert(h.take(history.len() as int) =~= h);
    assert(days@.take(history.len() as int) =~= days@);
    total
}

/// The last seven days ending `today` (a local day number), oldest first: each
/// weekday's name and its minutes, given the local day of each session's start.
pub fn daily_activity(history: &Vec<Session>, days: &Vec<Option<i64>>, today: i64, now: Instant) -> (r:
    Vec<(String, u64)>)
    requires
        days@.len() == history@.len(),
        today >= i64::MIN + 6,
        now.nanos < 2_000_000_000,
    ensures
        r@.len() == 7,
        forall|i: int|
            0 <= i < 7 ==> ((#[trigger] r@[i]).0@, r@[i].1) == daily_entry(
                history_view(history@),
                days@,
                today as int,
                i,
                now,
            ),
{
    let mut r: Vec<(String, u64)> = Vec::new();
    for i in 0..7usize
        invariant
            days@.len() == history@.len(),
            today >= i64::MIN + 6,
            now.nanos < 2_000_000_000,
            r@.len() == i,
            forall|j: int|
                0 <= j < i ==> ((#[trigger] r@[j]).0@, r@[j].1) == daily_entry(
                    history_view(history@),
                    days@,
                    today as int,
                    j,
                    now,
                ),
    {
        let day = today - (6 - i as i64);
        let mins = minutes_on(history, days, day, now);
        let w = weekday_index(day);
        let name = if w == 0 {
            "Mon"
        } else if w == 1 {
            "Tue"
        } else if w == 2 {
            "Wed"
        } else if w == 3 {
            "Thu"
        } else if w == 4 {
            "Fri"
        } else if w == 5 {
            "Sat"
        } else {
            "Sun"
        };
        r.push((String::from_str(name), (mins as i64) as u64));
    }
    r
}

/// A line of the daily panel: a dash for an empty day, else the bar and the time.
pub open spec fn day_line_text(name: Seq<char>, mins: u64, bar: Seq<char>) -> Seq<char> {
    if mins == 0 {
        "  "@ + name + " ─"@
    } else {
        "  "@ + name + " "@ + bar + " "@ + pad_left(dec_nat((mins / 60) as nat), 2) + "h"@
            + dec_zero2((mins % 60) as int) + "m"@
    }
}

/// A line of the daily panel.
pub fn day_line(name: &str, mins: u64, bar: &str) -> (r: String)
    ensures
        r@ == day_line_text(name@, mins, bar@),
{
    let mut r = String::new();
    push_str(&mut r, "  ");
    push_str(&mut r, name);
    if mins == 0 {
        push_str(&mut r, " ─");
    } else {
        push_str(&mut r, " ");
        push_str(&mut r, bar);
        push_str(&mut r, " ");
        push_hours_minutes(&mut r, mins);
    }
    assert(r@ =~= day_line_text(name@, mins, bar@));
    r
}

/// A row of the recent sessions' table.
pub struct SessionRow {
    /// The local date and time of the start, `%m-%d %H:%M`.
    pub date: String,
    pub project: String,
    pub duration: String,
    pub commits: String,
}

/// The number of rows of the recent sessions' table: the last eight sessions.
pub open spec fn recent_count(n: nat) -> nat {
    if n < 8 {
        n
    } else {
        8
    }
}

/// The recent sessions' table: the last eight sessions, newest first, each with
/// its local start (`MM-DD HH:MM` as `%m-%d %H:%M` writes it, empty where `chrono`
/// refuses the instant; which local time depends on the machine's time zone),
/// project, duration and number of commits.
pub fn recent_rows(history: &Vec<Session>, now: Instant) -> (r: Vec<SessionRow>)
    requires
        now.nanos < 2_000_000_000,
    ensures
        r@.len() == recent_count(history@.len() as nat),
        forall|t: int|
            0 <= t < r@.len() ==> {
                let s = history_view(history@)[history@.len() - 1 - t];
                let at = instant_or(s.start_time, now);
                &&& (#[trigger] r@[t]).project@ == s.project
                &&& utc_accepts(at.secs, at.nanos) ==> stamp_shape(r@[t].date@)
                &&& !utc_accepts(at.secs, at.nanos) ==> r@[t].date@.len() == 0
                &&& r@[t].duration@ == hours_minutes_text(minutes_of_session(s, now))
                &&& r@[t].commits@ == dec_nat(s.commits.len())
            },
{
    let ghost h = history_view(history@);
    let n = history.len();
    let count = if n < 8 {
        n
    } else {
        8
    };
    let mut r: Vec<SessionRow> = Vec::new();
    for t in 0..count
        invariant
            h == history_view(history@),
            n == history@.len(),
            count == recent_count(n as nat),
            now.nanos < 2_000_000_000,
            r@.len() == t,
            forall|u: int|
                0 <= u < t ==> {
                    let s = h[n - 1 - u];
                    let at = instant_or(s.start_time, now);
                    &&& (#[trigger] r@[u]).project@ == s.project
                    &&& utc_accepts(at.secs, at.nanos) ==> stamp_shape(r@[u].date@)
                    &&& !utc_accepts(at.secs, at.nanos) ==> r@[u].date@.len() == 0
                    &&& r@[u].duration@ == hours_minutes_text(minutes_of_session(s, now))
                    &&& r@[u].commits@ == dec_nat(s.commits.len())
                },
    {
        let s = &history[n - 1 - t];
        assert(s@ == h[n - 1 - t]);
        let start = instant_or_fallback(s.start_time.as_str(), now);
        let date = match local_text(start, "%m-%d %H:%M") {
            Some(d) => d,
            None => String::new(),
        };
        let mins = session_minutes(s, now);
        r.push(
            SessionRow {
                date,
                project: s.project.clone(),
                duration: fmt_hours_minutes(mins),
                commits: nat_text(s.commits.len() as u64),
            },
        );
    }
    r
}

/// The running session's elapsed time, `1h 05min 09sec`, a start that does not parse
/// read as `now`.
pub fn active_clock(start_text: &str, now: Instant) -> (r: String)
    requires
        now.nanos < 2_000_000_000,
    ensures
        r@ == clock_text(instant_or(start_text@, now), now),
{
    let start = instant_or_fallback(start_text, now);
    clock_line(start, now)
}

/// Whether a key closes the dashboard: `q`, `Q`, or `c` with Control alone held.
pub open spec fn closes_dashboard(key: Option<char>, control_only: bool) -> bool {
    key == Some('q') || key == Some('Q') || (key == Some('c') && control_only)
}

/// Whether a key closes the dashboard.
pub fn quits(key: Option<char>, control_only: bool) -> (r: bool)
    ensures
        r == closes_dashboard(key, control_only),
{
    match key {
        Some(c) => c == 'q' || c == 'Q' || (c == 'c' && control_only),
        None => false,
    }
}

} // verus!
