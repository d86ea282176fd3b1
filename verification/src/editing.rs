//! Correcting the history: renaming a project across all sessions, choosing a
//! session by its number, and setting when a session ended.
use vstd::prelude::*;
use crate::clock::{
    Instant, clock_seconds, local_instant, parse_utc, plus_minutes, rfc3339, rfc3339_of, utc_plus_minutes,
    utc_reading,
};
use crate::model::{Session, SessionView, history_view};

verus! {

/// `s` under the project name `name`.
pub open spec fn with_project(s: SessionView, name: Seq<char>) -> SessionView {
    SessionView { project: name, start_time: s.start_time, end_time: s.end_time, commits: s.commits }
}

/// `s` ending at `end`.
pub open spec fn with_end(s: SessionView, end: Seq<char>) -> SessionView {
    SessionView { project: s.project, start_time: s.start_time, end_time: Some(end), commits: s.commits }
}

/// The history with every session of project `old` moved to project `new`.
pub open spec fn renamed(h: Seq<SessionView>, old: Seq<char>, new: Seq<char>) -> Seq<SessionView> {
    h.map_values(
        |s: SessionView|
            if s.project == old {
                with_project(s, new)
            } else {
                s
            },
    )
}

/// How many sessions belong to `project`.
pub open spec fn count_of(h: Seq<SessionView>, project: Seq<char>) -> nat
    decreases h.len(),
{
    if h.len() == 0 {
        0
    } else {
        count_of(h.drop_last(), project) + if h.last().project == project {
            1nat
        } else {
            0
        }
    }
}

/// Renames project `from` to `to` in every session of `history`; returns how many
/// sessions changed.
pub fn rename_project(history: &mut Vec<Session>, from: &String, to: &String) -> (n: usize)
    ensures
        history_view(final(history)@) == renamed(history_view(old(history)@), from@, to@),
        n == count_of(history_view(old(history)@), from@),
{
    let ghost h0 = history_view(history@);
    let mut n: usize = 0;
    let len = history.len();
    assert(h0.take(0) =~= Seq::<SessionView>::empty());
    for i in 0..len
        invariant
            len == history@.len(),
            h0.len() == len,
            forall|k: int|
                #![trigger history@[k]]
                0 <= k < i ==> history@[k]@ == (if h0[k].project == from@ {
                    with_project(h0[k], to@)
                } else {
                    h0[k]
                }),
            forall|k: int| i <= k < len ==> #[trigger] history@[k]@ == h0[k],
            n == count_of(h0.take(i as int), from@),
            n <= i,
    {
        assert(h0.take(i + 1).drop_last() =~= h0.take(i as int));
        if history[i].project == *from {
            let ghost before = history@;
            let mut s = history.remove(i);
            s.project = to.clone();
            history.insert(i, s);
            assert forall|k: int| 0 <= k < len && k != i implies #[trigger] history@[k] == before[k] by {}
            n = n + 1;
        }
    }
    assert(h0.take(len as int) =~= h0);
    assert(history_view(history@) =~= renamed(h0, from@, to@));
    n
}

/// Renaming keeps every session, each with everything but its project name.
pub proof fn law_rename_keeps_sessions(h: Seq<SessionView>, old: Seq<char>, new: Seq<char>)
    ensures
        renamed(h, old, new).len() == h.len(),
        forall|k: int|
            0 <= k < h.len() ==> {
                let s = #[trigger] renamed(h, old, new)[k];
                &&& s.start_time == h[k].start_time
                &&& s.end_time == h[k].end_time
                &&& s.commits == h[k].commits
                &&& s.project == if h[k].project == old {
                    new
                } else {
                    h[k].project
                }
            },
{
}

/// After a rename to another name, no session belongs to the old name.
pub proof fn law_rename_clears_old(h: Seq<SessionView>, old: Seq<char>, new: Seq<char>)
    requires
        old != new,
    ensures
        forall|k: int| 0 <= k < h.len() ==> (#[trigger] renamed(h, old, new)[k]).project != old,
{
}

/// Renaming to a name no session uses, and back, restores the history.
pub proof fn law_rename_round_trip(h: Seq<SessionView>, old: Seq<char>, new: Seq<char>)
    requires
        forall|k: int| 0 <= k < h.len() ==> (#[trigger] h[k]).project != new,
    ensures
        renamed(renamed(h, old, new), new, old) == h,
{
    assert(renamed(renamed(h, old, new), new, old) =~= h);
}

/// The position of session number `id` (counted from 1) among `len` sessions, or of
/// the last session when no number is given; `None` when there is no such session.
pub open spec fn position_of_id(len: nat, id: Option<usize>) -> Option<int> {
    match id {
        None => if len > 0 {
            Some(len - 1)
        } else {
            None
        },
        Some(n) => if 1 <= n <= len {
            Some(n - 1)
        } else {
            None
        },
    }
}

/// The position of session number `id` (counted from 1), or of the last session.
pub fn session_position(len: usize, id: Option<usize>) -> (r: Option<usize>)
    ensures
        match position_of_id(len as nat, id) {
            Some(p) => r == Some(p as usize),
            None => r is None,
        },
{
    match id {
        None => if len > 0 {
            Some(len - 1)
        } else {
            None
        },
        Some(n) => if 1 <= n && n <= len {
            Some(n - 1)
        } else {
            None
        },
    }
}

/// The end that `--duration minutes` gives a session: its start plus the minutes,
/// written in RFC 3339; `None` when the start does not parse or `chrono` refuses.
pub open spec fn end_after(start: Seq<char>, minutes: i64) -> Option<Seq<char>> {
    match utc_reading(start) {
        Some(p) => match utc_plus_minutes(p.0, p.1, minutes) {
            Some(q) => rfc3339_of(q.0, q.1),
            None => None,
        },
        None => None,
    }
}

/// Sets the session's end to its start plus `minutes` minutes; returns whether it
/// could (the start must parse). Nothing changes when it cannot.
pub fn set_duration(session: &mut Session, minutes: i64) -> (ok: bool)
    ensures
        ok == end_after(old(session)@.start_time, minutes) is Some,
        ok ==> final(session)@ == with_end(
            old(session)@,
            end_after(old(session)@.start_time, minutes)->0,
        ),
        !ok ==> final(session)@ == old(session)@,
{
    let start = match parse_utc(session.start_time.as_str()) {
        Some(t) => t,
        None => return false,
    };
    let end = match plus_minutes(start, minutes) {
        Some(t) => t,
        None => return false,
    };
    match rfc3339(end) {
        Some(text) => {
            session.end_time = Some(text);
            true
        },
        None => false,
    }
}

/// Sets the session's end to the instant `end`, written in RFC 3339; returns whether
/// `chrono` could write it. Nothing changes when it cannot.
pub fn set_end(session: &mut Session, end: Instant) -> (ok: bool)
    ensures
        ok == rfc3339_of(end.secs, end.nanos) is Some,
        ok ==> final(session)@ == with_end(old(session)@, rfc3339_of(end.secs, end.nanos)->0),
        !ok ==> final(session)@ == old(session)@,
{
    match rfc3339(end) {
        Some(text) => {
            session.end_time = Some(text);
            true
        },
        None => false,
    }
}

/// The value of a decimal digit character.
pub open spec fn digit_value(c: char) -> int {
    (c as u32) - 48
}

/// Whether `c` is a decimal digit.
pub open spec fn is_digit(c: char) -> bool {
    48 <= (c as u32) <= 57
}

/// A clock time `H:MM` or `HH:MM` (hour below 24, minute below 60) as hour and minute.
pub open spec fn clock_reading(t: Seq<char>) -> Option<(u32, u32)> {
    if t.len() == 4 && is_digit(t[0]) && t[1] == ':' && is_digit(t[2]) && is_digit(t[3]) {
        let m = digit_value(t[2]) * 10 + digit_value(t[3]);
        if m < 60 {
            Some((digit_value(t[0]) as u32, m as u32))
        } else {
            None
        }
    } else if t.len() == 5 && is_digit(t[0]) && is_digit(t[1]) && t[2] == ':' && is_digit(t[3])
        && is_digit(t[4]) {
        let h = digit_value(t[0]) * 10 + digit_value(t[1]);
        let m = digit_value(t[3]) * 10 + digit_value(t[4]);
        if h < 24 && m < 60 {
            Some((h as u32, m as u32))
        } else {
            None
        }
    } else {
        None
    }
}

/// Every clock text `HH:MM` (two digits, a colon, two digits) whose hour is 0 to 23
/// and whose minute is 0 to 59 reads as that hour and minute, and so does `H:MM`
/// with a one-digit hour; and every reading is such an hour and minute.
pub proof fn law_clock_times_read(t: Seq<char>)
    ensures
        t.len() == 5 && 48 <= (t[0] as u32) <= 57 && 48 <= (t[1] as u32) <= 57 && t[2] == ':'
            && 48 <= (t[3] as u32) <= 57 && 48 <= (t[4] as u32) <= 57 && ((t[0] as u32) - 48) * 10
            + ((t[1] as u32) - 48) < 24 && ((t[3] as u32) - 48) * 10 + ((t[4] as u32) - 48) < 60
            ==> clock_reading(t) == Some(
            (
                (((t[0] as u32) - 48) * 10 + ((t[1] as u32) - 48)) as u32,
                (((t[3] as u32) - 48) * 10 + ((t[4] as u32) - 48)) as u32,
            ),
        ),
        t.len() == 4 && 48 <= (t[0] as u32) <= 57 && t[1] == ':' && 48 <= (t[2] as u32) <= 57
            && 48 <= (t[3] as u32) <= 57 && ((t[2] as u32) - 48) * 10 + ((t[3] as u32) - 48) < 60
            ==> clock_reading(t) == Some(
            (((t[0] as u32) - 48) as u32, (((t[2] as u32) - 48) * 10 + ((t[3] as u32) - 48)) as u32),
        ),
        clock_reading(t) matches Some(hm) ==> hm.0 < 24 && hm.1 < 60,
{
}

/// The value of a digit character, if it is one.
fn digit_of(c: char) -> (r: Option<u32>)
    ensures
        r is Some <==> is_digit(c),
        r matches Some(d) ==> d == digit_value(c),
{
    let u = c as u32;
    if 48 <= u && u <= 57 {
        Some(u - 48)
    } else {
        None
    }
}

/// Reads a clock time `H:MM` or `HH:MM`.
pub fn parse_clock(text: &str) -> (r: Option<(u32, u32)>)
    ensures
        r == clock_reading(text@),
{
    let v = crate::text::chars_of(text);
    if v.len() == 4 {
        match (digit_of(v[0]), digit_of(v[2]), digit_of(v[3])) {
            (Some(h), Some(m1), Some(m2)) => if v[1] == ':' {
                let m = m1 * 10 + m2;
                if m < 60 {
                    Some((h, m))
                } else {
                    None
                }
            } else {
                None
            },
            _ => None,
        }
    } else if v.len() == 5 {
        match (digit_of(v[0]), digit_of(v[1]), digit_of(v[3]), digit_of(v[4])) {
            (Some(h1), Some(h2), Some(m1), Some(m2)) => if v[2] == ':' {
                let h = h1 * 10 + h2;
                let m = m1 * 10 + m2;
                if h < 24 && m < 60 {
                    Some((h, m))
                } else {
                    None
                }
            } else {
                None
            },
            _ => None,
        }
    } else {
        None
    }
}

/// Sets the session's end to the clock time `text` (`H:MM` or `HH:MM`) on the local
/// day `day` (counted from 1 January of year 1 as day 1); returns whether it could.
/// Nothing changes when the text is no clock time, or when the local time zone or
/// `chrono` gives no instant for it. Which instant the local time zone gives is not
/// stated: the end is then the RFC 3339 text of a whole-second instant that lies less
/// than a day from that clock time read as UTC.
pub fn set_end_at_clock(session: &mut Session, day: i64, text: &str) -> (ok: bool)
    ensures
        clock_reading(text@) is None ==> !ok,
        !ok ==> final(session)@ == old(session)@,
        ok ==> (clock_reading(text@) matches Some(hm) && exists|e: Instant|
            #![trigger rfc3339_of(e.secs, e.nanos)]
            e.nanos == 0 && -86400 < clock_seconds(day as int, hm.0 as int, hm.1 as int)
                - e.secs < 86400 && rfc3339_of(e.secs, e.nanos) is Some && final(session)@
                == with_end(old(session)@, rfc3339_of(e.secs, e.nanos)->0)),
{
    let (hour, minute) = match parse_clock(text) {
        Some(t) => t,
        None => return false,
    };
    let at = match local_instant(day, hour, minute) {
        Some(t) => t,
        None => return false,
    };
    set_end(session, at)
}

} // verus!
