//! The stand-up message: yesterday's and today's sessions, by local day.
use vstd::prelude::*;
use crate::clock::{
    Instant, instant_of, is_local_day_of, local_day, local_day_known, minutes_between, parse_utc,
    utc_reading, whole_minutes,
};
use crate::model::{CommitView, Session, SessionView, history_view};
use crate::report::{minutes_of_session, session_minutes, starts_parse, all_starts_parse};
use crate::style::{
    bold, bold_text, cyan, cyan_text, duration_text, fmt_duration, gray, gray_text, green,
    green_text,
};
use crate::text::{push_str, views};

verus! {

/// The closed sessions whose start falls on local day `day`, in history order;
/// `days[k]` is the local day of the start of session `k`, if known.
pub open spec fn sessions_on(h: Seq<SessionView>, days: Seq<Option<i64>>, day: int) -> Seq<
    SessionView,
>
    decreases h.len(),
{
    if h.len() == 0 {
        seq![]
    } else {
        let rest = sessions_on(h.drop_last(), days.drop_last(), day);
        if days.last() == Some(day as i64) && h.last().end_time is Some {
            rest.push(h.last())
        } else {
            rest
        }
    }
}

/// A day lists only closed sessions whose start fell on that day, each from the
/// history, and no more of them than the history holds.
pub proof fn law_day_lists_closed(h: Seq<SessionView>, days: Seq<Option<i64>>, day: int)
    requires
        days.len() == h.len(),
    ensures
        sessions_on(h, days, day).len() <= h.len(),
        forall|t: int|
            0 <= t < sessions_on(h, days, day).len() ==> (#[trigger] sessions_on(h, days, day)[t]).end_time
                is Some && h.contains(sessions_on(h, days, day)[t]),
    decreases h.len(),
{
    if h.len() > 0 {
        law_day_lists_closed(h.drop_last(), days.drop_last(), day);
        let rest = sessions_on(h.drop_last(), days.drop_last(), day);
        assert forall|t: int| 0 <= t < rest.len() implies h.contains(#[trigger] rest[t]) by {
            let w = choose|w: int| 0 <= w < h.drop_last().len() && h.drop_last()[w] == rest[t];
            assert(h[w] == rest[t]);
        }
        assert(h[h.len() - 1] == h.last());
    }
}

/// A day lists every closed session whose start fell on that day: with the days of
/// the starts as the stand-up gets them, a closed session filed under yesterday is
/// listed under Yesterday, one filed under today under Today.
pub proof fn law_day_lists_every_closed(h: Seq<SessionView>, days: Seq<Option<i64>>, day: int, k: int)
    requires
        days.len() == h.len(),
        0 <= k < h.len(),
        days[k] == Some(day as i64),
        h[k].end_time is Some,
    ensures
        sessions_on(h, days, day).contains(h[k]),
    decreases h.len(),
{
    let rest = sessions_on(h.drop_last(), days.drop_last(), day);
    if k == h.len() - 1 {
        assert(sessions_on(h, days, day) == rest.push(h.last()));
        assert(sessions_on(h, days, day)[rest.len() as int] == h[k]);
    } else {
        law_day_lists_every_closed(h.drop_last(), days.drop_last(), day, k);
        assert(h.drop_last()[k] == h[k]);
        let w = choose|w: int| 0 <= w < rest.len() && rest[w] == h[k];
        if days.last() == Some(day as i64) && h.last().end_time is Some {
            assert(sessions_on(h, days, day) == rest.push(h.last()));
            assert(sessions_on(h, days, day)[w] == h[k]);
        } else {
            assert(sessions_on(h, days, day) == rest);
        }
    }
}

/// A session as the stand-up lists it.
pub open spec fn standup_session_text(s: SessionView, now: Instant) -> Seq<char> {
    "  "@ + gray_text("▸"@) + " "@ + bold_text(s.project) + " — "@ + duration_text(
        minutes_of_session(s, now),
    )
}

/// A commit message as the stand-up lists it.
pub open spec fn standup_commit_text(c: CommitView) -> Seq<char> {
    "      "@ + gray_text("·"@) + " "@ + c.message
}

/// Yesterday's sessions, each followed by its commit messages.
pub open spec fn yesterday_entries(s: Seq<SessionView>, now: Instant) -> Seq<Seq<char>>
    decreases s.len(),
{
    if s.len() == 0 {
        seq![]
    } else {
        yesterday_entries(s.drop_last(), now) + seq![standup_session_text(s.last(), now)]
            + s.last().commits.map_values(|c: CommitView| standup_commit_text(c))
    }
}

/// The running session as the stand-up lists it, `elapsed` minutes after its start.
pub open spec fn active_text(project: Seq<char>, elapsed: int) -> Seq<char> {
    "  "@ + green_text("●"@) + " "@ + bold_text(project) + " "@ + gray_text("(active)"@) + " "@
        + duration_text(elapsed)
}

/// The stand-up lines: yesterday's and today's closed sessions (by the local days
/// `days` of their starts), and the session in progress with its elapsed minutes.
pub open spec fn standup_text(
    h: Seq<SessionView>,
    days: Seq<Option<i64>>,
    today: int,
    active: Option<(Seq<char>, int)>,
    now: Instant,
) -> Seq<Seq<char>> {
    let ys = sessions_on(h, days, today - 1);
    let ts = sessions_on(h, days, today);
    seq![bold_text("── Stand-up ──────────────────────────"@)] + if ys.len() == 0 {
        seq![cyan_text("Yesterday:"@) + " "@ + gray_text("no sessions recorded"@)]
    } else {
        seq![cyan_text("Yesterday:"@) + " "@] + yesterday_entries(ys, now)
    } + if ts.len() == 0 && active is None {
        seq![cyan_text("Today:    "@) + " "@ + gray_text("nothing started yet"@)]
    } else {
        seq![cyan_text("Today:    "@) + " "@] + ts.map_values(
            |s: SessionView| standup_session_text(s, now),
        ) + match active {
            Some(a) => seq![active_text(a.0, a.1)],
            None => seq![],
        }
    } + seq![
        cyan_text("Blockers: "@) + " "@ + gray_text("none"@),
        bold_text("──────────────────────────────────────"@),
    ]
}

/// The closed sessions whose start falls on local day `day`, as positions in `history`.
fn positions_on(history: &Vec<Session>, days: &Vec<Option<i64>>, day: i64) -> (r: Vec<usize>)
    requires
        days@.len() == history@.len(),
    ensures
        r@.map_values(|k: usize| history_view(history@)[k as int]) == sessions_on(
            history_view(history@),
            days@,
            day as int,
        ),
        forall|t: int| 0 <= t < r@.len() ==> #[trigger] r@[t] < history@.len(),
{
    let ghost h = history_view(history@);
    let mut r: Vec<usize> = Vec::new();
    assert(h.take(0) =~= Seq::<SessionView>::empty());
    for i in 0..history.len()
        invariant
            h == history_view(history@),
            days@.len() == history@.len(),
            r@.map_values(|k: usize| h[k as int]) == sessions_on(
                h.take(i as int),
                days@.take(i as int),
                day as int,
            ),
            forall|t: int| 0 <= t < r@.len() ==> #[trigger] r@[t] < i,
    {
        let ghost before = r@.map_values(|k: usize| h[k as int]);
        assert(h.take(i + 1).drop_last() =~= h.take(i as int));
        assert(days@.take(i + 1).drop_last() =~= days@.take(i as int));
        assert(h[i as int] == history@[i as int]@);
        if days[i] == Some(day) && history[i].end_time.is_some() {
            r.push(i);
            assert(r@.map_values(|k: usize| h[k as int]) =~= before.push(h[i as int]));
        }
    }
    assert(h.take(history.len() as int) =~= h);
    assert(days@.take(history.len() as int) =~= days@);
    r
}

/// A session as the stand-up lists it.
fn standup_session_line(s: &Session, now: Instant) -> (r: String)
    requires
        now.nanos < 2_000_000_000,
    ensures
        r@ == standup_session_text(s@, now),
{
    let mut r = String::new();
    push_str(&mut r, "  ");
    push_str(&mut r, gray("▸").as_str());
    push_str(&mut r, " ");
    push_str(&mut r, bold(s.project.as_str()).as_str());
    push_str(&mut r, " — ");
    push_str(&mut r, fmt_duration(session_minutes(s, now)).as_str());
    assert(r@ =~= standup_session_text(s@, now));
    r
}

/// The stand-up lines, given the local day of each session's start and, for the
/// session in progress, its project and elapsed minutes.
pub fn standup_lines_for(
    history: &Vec<Session>,
    days: &Vec<Option<i64>>,
    today: i64,
    active: Option<(&str, i64)>,
    now: Instant,
) -> (r: Vec<String>)
    requires
        days@.len() == history@.len(),
        today > i64::MIN,
        now.nanos < 2_000_000_000,
    ensures
        views(r@) == standup_text(
            history_view(history@),
            days@,
            today as int,
            match active {
                Some(a) => Some((a.0@, a.1 as int)),
                None => None,
            },
            now,
        ),
{
    let ghost h = history_view(history@);
    let ys = positions_on(history, days, today - 1);
    let ts = positions_on(history, days, today);
    let ghost ysv = sessions_on(h, days@, today - 1);
    let ghost tsv = sessions_on(h, days@, today as int);
    let mut r: Vec<String> = Vec::new();
    r.push(bold("── Stand-up ──────────────────────────"));
    let ghost p0 = views(r@);
    assert(p0 =~= seq![bold_text("── Stand-up ──────────────────────────"@)]);
    assert(ys@.len() == ysv.len() && ts@.len() == tsv.len());
    let mut y = String::new();
    push_str(&mut y, cyan("Yesterday:").as_str());
    push_str(&mut y, " ");
    if ys.len() == 0 {
        push_str(&mut y, gray("no sessions recorded").as_str());
        assert(y@ =~= cyan_text("Yesterday:"@) + " "@ + gray_text("no sessions recorded"@));
        r.push(y);
    } else {
        assert(y@ =~= cyan_text("Yesterday:"@) + " "@);
        r.push(y);
        let ghost top = views(r@);
        assert(ysv.take(0) =~= Seq::<SessionView>::empty());
        for t in 0..ys.len()
            invariant
                h == history_view(history@),
                ysv == sessions_on(h, days@, today - 1),
                ys@.map_values(|k: usize| h[k as int]) == ysv,
                forall|u: int| 0 <= u < ys@.len() ==> #[trigger] ys@[u] < history@.len(),
                views(r@) == top + yesterday_entries(ysv.take(t as int), now),
                now.nanos < 2_000_000_000,
        {
            let k = ys[t];
            let s = &history[k];
            assert(ysv[t as int] == h[k as int]);
            assert(h[k as int] == s@);
            assert(ysv.take(t + 1).drop_last() =~= ysv.take(t as int));
            let ghost before = views(r@);
            r.push(standup_session_line(s, now));
            let ghost mid = views(r@);
            assert(mid =~= before.push(standup_session_text(ysv[t as int], now)));
            let ghost cv = s@.commits;
            for j in 0..s.commits.len()
                invariant
                    cv == s@.commits,
                    views(r@) == mid + cv.take(j as int).map_values(
                        |c: CommitView| standup_commit_text(c),
                    ),
            {
                let ghost b2 = views(r@);
                let mut line = String::new();
                push_str(&mut line, "      ");
                push_str(&mut line, gray("·").as_str());
                push_str(&mut line, " ");
                push_str(&mut line, s.commits[j].message.as_str());
                assert(cv[j as int] == s.commits@[j as int]@);
                assert(line@ =~= standup_commit_text(cv[j as int]));
                r.push(line);
                assert(cv.take(j + 1).map_values(|c: CommitView| standup_commit_text(c))
                    =~= cv.take(j as int).map_values(|c: CommitView| standup_commit_text(c)).push(
                    standup_commit_text(cv[j as int]),
                ));
                assert(views(r@) =~= b2.push(line@));
            }
            assert(cv.take(s.commits.len() as int) =~= cv);
            assert(ysv.take(t + 1).last() == ysv[t as int]);
            assert(yesterday_entries(ysv.take(t + 1), now) == yesterday_entries(
                ysv.take(t as int),
                now,
            ) + seq![standup_session_text(ysv[t as int], now)] + cv.map_values(
                |c: CommitView| standup_commit_text(c),
            ));
            assert(views(r@) =~= top + yesterday_entries(ysv.take(t as int), now) + seq![
                standup_session_text(ysv[t as int], now),
            ] + cv.map_values(|c: CommitView| standup_commit_text(c)));
            assert(views(r@) =~= top + yesterday_entries(ysv.take(t + 1), now));
        }
        assert(ysv.take(ys.len() as int) =~= ysv);
    }
    let ghost p1 = views(r@);
    let ghost act = match active {
        Some(a) => Some((a.0@, a.1 as int)),
        None => None,
    };
    assert(p1 =~= p0 + if ysv.len() == 0 {
        seq![cyan_text("Yesterday:"@) + " "@ + gray_text("no sessions recorded"@)]
    } else {
        seq![cyan_text("Yesterday:"@) + " "@] + yesterday_entries(ysv, now)
    });
    let mut td = String::new();
    push_str(&mut td, cyan("Today:    ").as_str());
    push_str(&mut td, " ");
    if ts.len() == 0 && active.is_none() {
        push_str(&mut td, gray("nothing started yet").as_str());
        assert(td@ =~= cyan_text("Today:    "@) + " "@ + gray_text("nothing started yet"@));
        r.push(td);
    } else {
        assert(td@ =~= cyan_text("Today:    "@) + " "@);
        r.push(td);
        let ghost top = views(r@);
        for t in 0..ts.len()
            invariant
                h == history_view(history@),
                tsv == sessions_on(h, days@, today as int),
                ts@.map_values(|k: usize| h[k as int]) == tsv,
                forall|u: int| 0 <= u < ts@.len() ==> #[trigger] ts@[u] < history@.len(),
                views(r@) == top + tsv.take(t as int).map_values(
                    |s: SessionView| standup_session_text(s, now),
                ),
                now.nanos < 2_000_000_000,
        {
            let k = ts[t];
            let ghost before = views(r@);
            let line = standup_session_line(&history[k], now);
            assert(tsv[t as int] == h[k as int]);
            assert(h[k as int] == history@[k as int]@);
            r.push(line);
            assert(tsv.take(t + 1).map_values(|s: SessionView| standup_session_text(s, now))
                =~= tsv.take(t as int).map_values(|s: SessionView| standup_session_text(s, now)).push(
                standup_session_text(tsv[t as int], now),
            ));
            assert(views(r@) =~= before.push(line@));
        }
        assert(tsv.take(ts.len() as int) =~= tsv);
        let ghost mid = views(r@);
        assert(mid =~= p1 + seq![cyan_text("Today:    "@) + " "@] + tsv.map_values(
            |s: SessionView| standup_session_text(s, now),
        ));
        if let Some((project, elapsed)) = active {
            let mut a = String::new();
            push_str(&mut a, "  ");
            push_str(&mut a, green("●").as_str());
            push_str(&mut a, " ");
            push_str(&mut a, bold(project).as_str());
            push_str(&mut a, " ");
            push_str(&mut a, gray("(active)").as_str());
            push_str(&mut a, " ");
            push_str(&mut a, fmt_duration(elapsed).as_str());
            assert(a@ =~= active_text(project@, elapsed as int));
            r.push(a);
            assert(views(r@) =~= mid + seq![active_text(project@, elapsed as int)]);
        } else {
            assert(views(r@) =~= mid + Seq::<Seq<char>>::empty());
        }
    }
    let ghost p2 = views(r@);
    assert(p2 =~= p1 + if tsv.len() == 0 && act is None {
        seq![cyan_text("Today:    "@) + " "@ + gray_text("nothing started yet"@)]
    } else {
        seq![cyan_text("Today:    "@) + " "@] + tsv.map_values(
            |s: SessionView| standup_session_text(s, now),
        ) + match act {
            Some(a) => seq![active_text(a.0, a.1)],
            None => seq![],
        }
    });
    let mut b = String::new();
    push_str(&mut b, cyan("Blockers: ").as_str());
    push_str(&mut b, " ");
    push_str(&mut b, gray("none").as_str());
    assert(b@ =~= cyan_text("Blockers: "@) + " "@ + gray_text("none"@));
    r.push(b);
    r.push(bold("──────────────────────────────────────"));
    assert(views(r@) =~= p2 + seq![
        cyan_text("Blockers: "@) + " "@ + gray_text("none"@),
        bold_text("──────────────────────────────────────"@),
    ]);
    r
}

/// The session in progress as the stand-up shows it: its project and the minutes
/// since its start.
pub open spec fn running_entry(current: Option<&Session>, now: Instant) -> Option<(Seq<char>, int)> {
    match current {
        Some(c) => Some(
            (c.project@, whole_minutes(instant_of(utc_reading(c.start_time@)->0), now)),
        ),
        None => None,
    }
}

/// The local days of the session starts, each start as it parses: `None` for a start
/// that does not parse or whose local day cannot be had.
fn local_days(history: &Vec<Session>) -> (r: Vec<Option<i64>>)
    ensures
        r@.len() == history@.len(),
        forall|i: int|
            0 <= i < history@.len() ==> match utc_reading(#[trigger] history@[i].start_time@) {
                Some(p) => is_local_day_of(r@[i], instant_of(p)),
                None => r@[i] is None,
            },
{
    let mut r: Vec<Option<i64>> = Vec::new();
    for i in 0..history.len()
        invariant
            r@.len() == i,
            forall|j: int|
                0 <= j < i ==> match utc_reading(#[trigger] history@[j].start_time@) {
                    Some(p) => is_local_day_of(r@[j], instant_of(p)),
                    None => r@[j] is None,
                },
    {
        let d = match parse_utc(history[i].start_time.as_str()) {
            Some(t) => if local_day_known(t) {
                local_day(t)
            } else {
                None
            },
            None => None,
        };
        r.push(d);
    }
    r
}

/// The stand-up lines for `history` and the session in progress, or `None` when a
/// start time does not parse, where the command stops. Local days come from the
/// machine's time zone, so the contract says which lines come out for days that are,
/// in some zone, the local days of the starts: each the UTC day or a neighbour, or
/// `None` for a start too near the end of `chrono`'s range of dates.
pub fn standup_lines(history: &Vec<Session>, current: Option<&Session>, today: i64, now: Instant) -> (r:
    Option<Vec<String>>)
    requires
        today > i64::MIN,
        now.nanos < 2_000_000_000,
    ensures
        r is Some <==> starts_parse(history_view(history@)) && match current {
            Some(c) => utc_reading(c.start_time@) is Some,
            None => true,
        },
        r matches Some(lines) ==> exists|days: Seq<Option<i64>>|
            days.len() == history@.len() && (forall|i: int|
                0 <= i < days.len() ==> is_local_day_of(
                    #[trigger] days[i],
                    instant_of(utc_reading(history@[i].start_time@)->0),
                )) && views(lines@) == #[trigger] standup_text(
                history_view(history@),
                days,
                today as int,
                running_entry(current, now),
                now,
            ),
{
    if !all_starts_parse(history) {
        return None;
    }
    let days = local_days(history);
    assert forall|i: int| 0 <= i < days@.len() implies is_local_day_of(
        #[trigger] days@[i],
        instant_of(utc_reading(history@[i].start_time@)->0),
    ) by {
        assert(history_view(history@)[i] == history@[i]@);
        assert(utc_reading(history_view(history@)[i].start_time) is Some);
        assert(utc_reading(history@[i].start_time@) is Some);
    }
    let active: Option<(&str, i64)> = match current {
        Some(c) => match parse_utc(c.start_time.as_str()) {
            Some(start) => Some((c.project.as_str(), minutes_between(start, now))),
            None => return None,
        },
        None => None,
    };
    let lines = standup_lines_for(history, &days, today, active, now);
    Some(lines)
}

} // verus!
