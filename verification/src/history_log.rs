//! The session log, a single session's details, and the messages of `rename`
//! and `edit`.
use vstd::prelude::*;
use crate::clock::{
    Instant, clock_shape, date_shape, four_digit_year, instant_or, instant_or_fallback, local_text,
    parse_utc, pattern_shape, utc_accepts, utc_reading,
};
use crate::model::{Session, SessionView, history_view};
use crate::report::{minutes_of_session, session_minutes};
use crate::style::{bold, bold_text, cyan, cyan_text, duration_text, fmt_duration, gray, gray_text, green, green_text};
use crate::text::{dec_nat, pad_left, pad_right, push_nat, push_padded_left, push_padded_right, push_str, views};

verus! {

/// A session's line in the log: its number, local start time, project, duration and
/// number of commits.
pub open spec fn log_entry_text(id: nat, time: Seq<char>, s: SessionView, now: Instant) -> Seq<char> {
    "  "@ + pad_right("#"@ + dec_nat(id), 5) + " "@ + time + "  "@ + pad_right(s.project, 20) + " "@
        + pad_left(duration_text(minutes_of_session(s, now)), 9) + "  "@ + dec_nat(s.commits.len())
        + " commits"@
}

/// The log of the first `n` sessions: a date line before each session whose local date
/// differs from the one before it, then the session's line.
pub open spec fn log_prefix(
    h: Seq<SessionView>,
    dates: Seq<Seq<char>>,
    times: Seq<Seq<char>>,
    now: Instant,
    n: nat,
) -> Seq<Seq<char>>
    decreases n,
{
    if n == 0 {
        seq![]
    } else {
        let k = (n - 1) as nat;
        log_prefix(h, dates, times, now, k) + if k == 0 || dates[k as int] != dates[k - 1] {
            seq![bold_text(dates[k as int])]
        } else {
            seq![]
        } + seq![log_entry_text(n, times[k as int], h[k as int], now)]
    }
}

/// The log of the first `m` sessions is the start of the log of the first `n`.
proof fn lemma_log_prefix_grows(
    h: Seq<SessionView>,
    dates: Seq<Seq<char>>,
    times: Seq<Seq<char>>,
    now: Instant,
    m: nat,
    n: nat,
)
    requires
        m <= n,
    ensures
        log_prefix(h, dates, times, now, m).len() <= log_prefix(h, dates, times, now, n).len(),
        forall|i: int|
            0 <= i < log_prefix(h, dates, times, now, m).len() ==> #[trigger] log_prefix(
                h,
                dates,
                times,
                now,
                n,
            )[i] == log_prefix(h, dates, times, now, m)[i],
    decreases n,
{
    if m < n {
        lemma_log_prefix_grows(h, dates, times, now, m, (n - 1) as nat);
    }
}

/// In the log, a session's line is followed by the next session's line when both
/// sessions have the same local date, and by a heading with the next session's date
/// when their dates differ: each run of sessions on one date stands under a single
/// heading. The first line is the first session's date.
pub proof fn law_log_heading_between(
    h: Seq<SessionView>,
    dates: Seq<Seq<char>>,
    times: Seq<Seq<char>>,
    now: Instant,
    k: nat,
)
    requires
        dates.len() == h.len(),
        times.len() == h.len(),
        1 <= k < h.len(),
    ensures
        log_text(h, dates, times, now)[0] == bold_text(dates[0]),
        exists|p: int|
            0 <= p && p + 1 < log_text(h, dates, times, now).len() && #[trigger] log_text(
                h,
                dates,
                times,
                now,
            )[p] == log_entry_text(k, times[k - 1], h[k - 1], now) && log_text(
                h,
                dates,
                times,
                now,
            )[p + 1] == if dates[k as int] == dates[k - 1] {
                log_entry_text(k + 1, times[k as int], h[k as int], now)
            } else {
                bold_text(dates[k as int])
            },
{
    let l = log_text(h, dates, times, now);
    let a = log_prefix(h, dates, times, now, k);
    let b = log_prefix(h, dates, times, now, k + 1);
    let k1 = (k - 1) as nat;
    assert(a == log_prefix(h, dates, times, now, k1) + if k1 == 0 || dates[k1 as int]
        != dates[k1 - 1] {
        seq![bold_text(dates[k1 as int])]
    } else {
        seq![]
    } + seq![log_entry_text(k, times[k1 as int], h[k1 as int], now)]);
    let p = a.len() - 1;
    assert(a[p] == log_entry_text(k, times[k - 1], h[k - 1], now));
    let mid = if k == 0 || dates[k as int] != dates[k - 1] {
        seq![bold_text(dates[k as int])]
    } else {
        seq![]
    };
    assert(b == a + mid + seq![log_entry_text(k + 1, times[k as int], h[k as int], now)]);
    assert(b[p] == a[p]);
    assert(b[p + 1] == if dates[k as int] == dates[k - 1] {
        log_entry_text(k + 1, times[k as int], h[k as int], now)
    } else {
        bold_text(dates[k as int])
    });
    lemma_log_prefix_grows(h, dates, times, now, k + 1, h.len());
    assert(l == log_prefix(h, dates, times, now, h.len()));
    assert(l[p] == b[p]);
    assert(l[p + 1] == b[p + 1]);
    let first = log_prefix(h, dates, times, now, 1);
    assert(first == log_prefix(h, dates, times, now, 0) + seq![bold_text(dates[0])] + seq![
        log_entry_text(1, times[0], h[0], now),
    ]);
    assert(first[0] == bold_text(dates[0]));
    lemma_log_prefix_grows(h, dates, times, now, 1, h.len());
    assert(l[0] == first[0]);
}

/// The lines of the session log, grouped by local date (`dates`, `times`: the local
/// date and start time of each session).
pub open spec fn log_text(
    h: Seq<SessionView>,
    dates: Seq<Seq<char>>,
    times: Seq<Seq<char>>,
    now: Instant,
) -> Seq<Seq<char>> {
    if h.len() == 0 {
        seq!["No sessions recorded yet."@]
    } else {
        log_prefix(h, dates, times, now, h.len())
    }
}

/// A time written in a session, shown in local time with `pattern` (in the shape that
/// `chrono` writes for the pattern; which local time depends on the machine's time
/// zone); the text as written when it does not parse.
pub fn local_or_raw(text: &String, pattern: &str) -> (r: String)
    requires
        pattern@ == "%Y-%m-%d %H:%M"@ || pattern@ == "%Y-%m-%d"@ || pattern@ == "%H:%M"@,
    ensures
        utc_reading(text@) is None ==> r@ == text@,
        utc_reading(text@) matches Some(p) ==> pattern_shape(pattern@, p.0, r@),
{
    match parse_utc(text.as_str()) {
        Some(t) => match local_text(t, pattern) {
            Some(s) => s,
            None => text.clone(),
        },
        None => text.clone(),
    }
}

/// Whether `date` and `time` are what the log shows for a session starting at `at`:
/// the local date and time as `chrono` writes them where it accepts the instant
/// (which local date and time depends on the machine's time zone), both empty where
/// it does not.
pub open spec fn dated(at: Instant, date: Seq<char>, time: Seq<char>) -> bool {
    if utc_accepts(at.secs, at.nanos) {
        (four_digit_year(at.secs) ==> date_shape(date)) && clock_shape(time)
    } else {
        date.len() == 0 && time.len() == 0
    }
}

/// The local date and the local start time of each session (a start that does not
/// parse read as `now`), which depend on the machine's time zone.
/// Each date is `YYYY-MM-DD` and each time `HH:MM` as `chrono` writes them (for the
/// years 0 to 9999), and both are empty where `chrono` refuses the instant.
pub fn session_dates(history: &Vec<Session>, now: Instant) -> (r: (Vec<String>, Vec<String>))
    ensures
        r.0@.len() == history@.len(),
        r.1@.len() == history@.len(),
        forall|i: int|
            0 <= i < history@.len() ==> #[trigger] dated(
                instant_or(history@[i].start_time@, now),
                r.0@[i]@,
                r.1@[i]@,
            ),
{
    let mut dates: Vec<String> = Vec::new();
    let mut times: Vec<String> = Vec::new();
    for i in 0..history.len()
        invariant
            dates@.len() == i,
            times@.len() == i,
            forall|j: int|
                0 <= j < i ==> #[trigger] dated(
                    instant_or(history@[j].start_time@, now),
                    dates@[j]@,
                    times@[j]@,
                ),
    {
        let t = instant_or_fallback(history[i].start_time.as_str(), now);
        let d = match local_text(t, "%Y-%m-%d") {
            Some(s) => s,
            None => String::new(),
        };
        let h = match local_text(t, "%H:%M") {
            Some(s) => s,
            None => String::new(),
        };
        dates.push(d);
        times.push(h);
    }
    (dates, times)
}

/// A session's line in the log.
fn log_entry(id: usize, time: &String, s: &Session, now: Instant) -> (r: String)
    requires
        now.nanos < 2_000_000_000,
    ensures
        r@ == log_entry_text(id as nat, time@, s@, now),
{
    let mut r = String::new();
    push_str(&mut r, "  ");
    let mut tag = String::new();
    push_str(&mut tag, "#");
    push_nat(&mut tag, id as u64);
    push_padded_right(&mut r, tag.as_str(), 5);
    push_str(&mut r, " ");
    push_str(&mut r, time.as_str());
    push_str(&mut r, "  ");
    push_padded_right(&mut r, s.project.as_str(), 20);
    push_str(&mut r, " ");
    let d = fmt_duration(session_minutes(s, now));
    push_padded_left(&mut r, d.as_str(), 9);
    push_str(&mut r, "  ");
    push_nat(&mut r, s.commits.len() as u64);
    push_str(&mut r, " commits");
    assert(r@ =~= log_entry_text(id as nat, time@, s@, now));
    r
}

/// The lines of the session log.
pub fn log_lines(history: &Vec<Session>, dates: &Vec<String>, times: &Vec<String>, now: Instant) -> (r:
    Vec<String>)
    requires
        dates@.len() == history@.len(),
        times@.len() == history@.len(),
        now.nanos < 2_000_000_000,
    ensures
        views(r@) == log_text(history_view(history@), views(dates@), views(times@), now),
{
    let ghost h = history_view(history@);
    let ghost ds = views(dates@);
    let ghost ts = views(times@);
    let mut r: Vec<String> = Vec::new();
    if history.len() == 0 {
        r.push(String::from_str("No sessions recorded yet."));
        assert(views(r@) =~= log_text(h, ds, ts, now));
        return r;
    }
    for i in 0..history.len()
        invariant
            h == history_view(history@),
            ds == views(dates@),
            ts == views(times@),
            dates@.len() == history@.len(),
            times@.len() == history@.len(),
            now.nanos < 2_000_000_000,
            views(r@) == log_prefix(h, ds, ts, now, i as nat),
    {
        let ghost before = views(r@);
        let new_date = i == 0 || dates[i] != dates[i - 1];
        if new_date {
            r.push(bold(dates[i].as_str()));
        }
        let ghost mid = views(r@);
        assert(ds[i as int] == dates@[i as int]@);
        if i > 0 {
            assert(ds[i - 1] == dates@[i - 1]@);
        }
        assert(mid =~= before + if i == 0 || ds[i as int] != ds[i - 1] {
            seq![bold_text(ds[i as int])]
        } else {
            seq![]
        });
        let line = log_entry(i + 1, &times[i], &history[i], now);
        assert(h[i as int] == history@[i as int]@);
        r.push(line);
        assert(views(r@) =~= mid.push(line@));
    }
    r
}

/// The lines that show one session: its number, project, local start and end (a dash
/// while it runs), duration and number of commits.
pub open spec fn detail_text(
    id: nat,
    s: SessionView,
    start_local: Seq<char>,
    end_local: Option<Seq<char>>,
    now: Instant,
) -> Seq<Seq<char>> {
    seq![
        bold_text("── Session #"@ + dec_nat(id) + " ──────────────────────"@),
        "  "@ + gray_text("project:"@) + " "@ + cyan_text(s.project),
        "  "@ + gray_text("start:"@) + " "@ + start_local,
        "  "@ + gray_text("end:"@) + " "@ + match end_local {
            Some(e) => e,
            None => "—"@,
        },
        "  "@ + gray_text("duration:"@) + " "@ + duration_text(minutes_of_session(s, now)),
        "  "@ + gray_text("commits:"@) + " "@ + dec_nat(s.commits.len()),
    ]
}

/// The lines that show one session, given its local start and end.
pub fn detail_lines(
    id: usize,
    s: &Session,
    start_local: &String,
    end_local: &Option<String>,
    now: Instant,
) -> (r: Vec<String>)
    requires
        now.nanos < 2_000_000_000,
    ensures
        views(r@) == detail_text(
            id as nat,
            s@,
            start_local@,
            match end_local {
                Some(e) => Some(e@),
                None => None,
            },
            now,
        ),
{
    let mut head = String::new();
    push_str(&mut head, "── Session #");
    push_nat(&mut head, id as u64);
    push_str(&mut head, " ──────────────────────");
    let mut a = String::new();
    push_str(&mut a, "  ");
    push_str(&mut a, gray("project:").as_str());
    push_str(&mut a, " ");
    push_str(&mut a, cyan(s.project.as_str()).as_str());
    let mut b = String::new();
    push_str(&mut b, "  ");
    push_str(&mut b, gray("start:").as_str());
    push_str(&mut b, " ");
    push_str(&mut b, start_local.as_str());
    let mut c = String::new();
    push_str(&mut c, "  ");
    push_str(&mut c, gray("end:").as_str());
    push_str(&mut c, " ");
    match end_local {
        Some(e) => push_str(&mut c, e.as_str()),
        None => push_str(&mut c, "—"),
    }
    let mut d = String::new();
    push_str(&mut d, "  ");
    push_str(&mut d, gray("duration:").as_str());
    push_str(&mut d, " ");
    push_str(&mut d, fmt_duration(session_minutes(s, now)).as_str());
    let mut e = String::new();
    push_str(&mut e, "  ");
    push_str(&mut e, gray("commits:").as_str());
    push_str(&mut e, " ");
    push_nat(&mut e, s.commits.len() as u64);
    let mut r: Vec<String> = Vec::new();
    r.push(bold(head.as_str()));
    r.push(a);
    r.push(b);
    r.push(c);
    r.push(d);
    r.push(e);
    assert(views(r@) =~= detail_text(
        id as nat,
        s@,
        start_local@,
        match end_local {
            Some(x) => Some(x@),
            None => None,
        },
        now,
    ));
    r
}

/// The message of a rename that changed `n` sessions.
pub open spec fn rename_text(from: Seq<char>, to: Seq<char>, n: nat) -> Seq<char> {
    if n == 0 {
        "No sessions found for project '"@ + from + "'."@
    } else {
        green_text("✔"@) + " Renamed "@ + cyan_text(from) + " → "@ + cyan_text(to) + " in "@
            + dec_nat(n) + " session(s)"@
    }
}

/// The message of a rename that changed `n` sessions.
pub fn rename_line(from: &str, to: &str, n: usize) -> (r: String)
    ensures
        r@ == rename_text(from@, to@, n as nat),
{
    let mut r = String::new();
    if n == 0 {
        push_str(&mut r, "No sessions found for project '");
        push_str(&mut r, from);
        push_str(&mut r, "'.");
    } else {
        push_str(&mut r, green("✔").as_str());
        push_str(&mut r, " Renamed ");
        push_str(&mut r, cyan(from).as_str());
        push_str(&mut r, " → ");
        push_str(&mut r, cyan(to).as_str());
        push_str(&mut r, " in ");
        push_nat(&mut r, n as u64);
        push_str(&mut r, " session(s)");
    }
    assert(r@ =~= rename_text(from@, to@, n as nat));
    r
}

/// The message for a session number that does not exist.
pub open spec fn no_session_text(id: nat) -> Seq<char> {
    "No session #"@ + dec_nat(id) + "."@
}

/// The message for a session number that does not exist.
pub fn no_session_line(id: usize) -> (r: String)
    ensures
        r@ == no_session_text(id as nat),
{
    let mut r = String::new();
    push_str(&mut r, "No session #");
    push_nat(&mut r, id as u64);
    push_str(&mut r, ".");
    assert(r@ =~= no_session_text(id as nat));
    r
}

/// The message after a session was corrected.
pub open spec fn updated_text(id: nat) -> Seq<char> {
    green_text("✔"@) + " "@ + bold_text("Session #"@ + dec_nat(id) + " updated"@)
}

/// The message after a session was corrected.
pub fn updated_line(id: usize) -> (r: String)
    ensures
        r@ == updated_text(id as nat),
{
    let mut t = String::new();
    push_str(&mut t, "Session #");
    push_nat(&mut t, id as u64);
    push_str(&mut t, " updated");
    let mut r = String::new();
    push_str(&mut r, green("✔").as_str());
    push_str(&mut r, " ");
    push_str(&mut r, bold(t.as_str()).as_str());
    assert(r@ =~= updated_text(id as nat));
    r
}

} // verus!
