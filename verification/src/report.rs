//! Time per project over the last week: which sessions count, how their
//! minutes add up per project, and the order in which projects are listed.
use vstd::prelude::*;
use crate::clock::{
    Instant, accepts_timestamp, after, instant_of, instant_or, instant_or_fallback, is_after,
    minutes_between, parse_utc, plus_minutes, utc_accepts, utc_plus_minutes, utc_reading,
    whole_minutes,
};
use crate::model::{Session, SessionView, history_view};
use crate::style::{bold, bold_text, cyan, cyan_text, duration_text, fmt_duration};
use crate::text::{pad_right, push_padded_right, push_str, views};

verus! {

/// The time spent on one project.
pub struct ProjectTotal {
    pub project: String,
    /// Exact sum of the minutes of the project's sessions.
    pub minutes: i128,
}

/// A project total as a name and a number.
pub open spec fn total_view(e: ProjectTotal) -> (Seq<char>, int) {
    (e.project@, e.minutes as int)
}

/// Project totals as names and numbers.
pub open spec fn totals_view(v: Seq<ProjectTotal>) -> Seq<(Seq<char>, int)> {
    v.map_values(|e: ProjectTotal| total_view(e))
}

/// Minutes from the start of a closed session to its end, times that do not parse
/// read as `now`; an open session counts zero.
pub open spec fn minutes_of_session(s: SessionView, now: Instant) -> int {
    match s.end_time {
        Some(e) => whole_minutes(instant_or(s.start_time, now), instant_or(e, now)),
        None => 0,
    }
}

/// Whether a session counts toward the week: it has ended and it started after
/// `week_ago` (a start that does not parse reads as `now`).
pub open spec fn counts_in_week(s: SessionView, week_ago: Instant, now: Instant) -> bool {
    s.end_time is Some && is_after(instant_or(s.start_time, now), week_ago)
}

/// Minutes of the counted sessions of `project`.
pub open spec fn project_minutes(
    h: Seq<SessionView>,
    project: Seq<char>,
    week_ago: Instant,
    now: Instant,
) -> int
    decreases h.len(),
{
    if h.len() == 0 {
        0
    } else {
        project_minutes(h.drop_last(), project, week_ago, now) + if counts_in_week(
            h.last(),
            week_ago,
            now,
        ) && h.last().project == project {
            minutes_of_session(h.last(), now)
        } else {
            0
        }
    }
}

/// Minutes of all counted sessions.
pub open spec fn week_minutes(h: Seq<SessionView>, week_ago: Instant, now: Instant) -> int
    decreases h.len(),
{
    if h.len() == 0 {
        0
    } else {
        week_minutes(h.drop_last(), week_ago, now) + if counts_in_week(h.last(), week_ago, now) {
            minutes_of_session(h.last(), now)
        } else {
            0
        }
    }
}

/// Whether some counted session belongs to `project`.
pub open spec fn worked_on(
    h: Seq<SessionView>,
    project: Seq<char>,
    week_ago: Instant,
    now: Instant,
) -> bool {
    exists|k: int|
        0 <= k < h.len() && counts_in_week(#[trigger] h[k], week_ago, now) && h[k].project
            == project
}

/// The sum of the numbers of a list of totals.
pub open spec fn sum_minutes(e: Seq<(Seq<char>, int)>) -> int
    decreases e.len(),
{
    if e.len() == 0 {
        0
    } else {
        sum_minutes(e.drop_last()) + e.last().1
    }
}

/// No project is listed twice.
pub open spec fn distinct_projects(e: Seq<(Seq<char>, int)>) -> bool {
    forall|i: int, j: int| 0 <= i < j < e.len() ==> (#[trigger] e[i]).0 != (#[trigger] e[j]).0
}

/// `e` lists each project worked on in the week once, with its minutes.
pub open spec fn is_week_summary(
    e: Seq<(Seq<char>, int)>,
    h: Seq<SessionView>,
    week_ago: Instant,
    now: Instant,
) -> bool {
    &&& distinct_projects(e)
    &&& forall|i: int|
        0 <= i < e.len() ==> (#[trigger] e[i]).1 == project_minutes(h, e[i].0, week_ago, now)
            && worked_on(h, e[i].0, week_ago, now)
    &&& forall|p: Seq<char>|
        #[trigger] worked_on(h, p, week_ago, now) ==> exists|i: int|
            0 <= i < e.len() && (#[trigger] e[i]).0 == p
}

/// Minutes of a session, times that do not parse read as `now`.
pub fn session_minutes(session: &Session, now: Instant) -> (r: i64)
    requires
        now.nanos < 2_000_000_000,
    ensures
        r == minutes_of_session(session@, now),
{
    match &session.end_time {
        Some(end) => {
            let start = instant_or_fallback(session.start_time.as_str(), now);
            let stop = instant_or_fallback(end.as_str(), now);
            minutes_between(start, stop)
        },
        None => 0,
    }
}

/// Whether a session counts toward the week.
pub fn in_week(session: &Session, week_ago: Instant, now: Instant) -> (r: bool)
    ensures
        r == counts_in_week(session@, week_ago, now),
{
    let start = instant_or_fallback(session.start_time.as_str(), now);
    after(start, week_ago) && session.end_time.is_some()
}

/// Where `project` stands in `names`, if it does.
fn position_of(names: &Vec<String>, project: &String) -> (r: Option<usize>)
    ensures
        r matches Some(j) ==> j < names@.len() && names@[j as int]@ == project@,
        r is None ==> forall|k: int| 0 <= k < names@.len() ==> names@[k]@ != project@,
{
    let mut j: usize = 0;
    while j < names.len()
        invariant
            j <= names@.len(),
            forall|k: int| 0 <= k < j ==> names@[k]@ != project@,
        decreases names.len() - j,
    {
        if names[j] == *project {
            return Some(j);
        }
        j += 1;
    }
    None
}

/// Project names and minutes side by side.
pub open spec fn pair_up(names: Seq<String>, mins: Seq<i128>) -> Seq<(Seq<char>, int)> {
    Seq::new(names.len(), |j: int| (names[j]@, mins[j] as int))
}

/// A project with no counted session has no minutes.
pub proof fn lemma_unworked_zero(
    h: Seq<SessionView>,
    project: Seq<char>,
    week_ago: Instant,
    now: Instant,
)
    requires
        !worked_on(h, project, week_ago, now),
    ensures
        project_minutes(h, project, week_ago, now) == 0,
    decreases h.len(),
{
    if h.len() > 0 {
        let g = h.drop_last();
        if worked_on(g, project, week_ago, now) {
            let k = choose|k: int|
                0 <= k < g.len() && counts_in_week(#[trigger] g[k], week_ago, now) && g[k].project
                    == project;
            assert(h[k] == g[k]);
        }
        assert(h[h.len() - 1] == h.last());
        lemma_unworked_zero(g, project, week_ago, now);
    }
}

/// Sum after replacing one entry.
proof fn lemma_sum_update(e: Seq<(Seq<char>, int)>, j: int, x: (Seq<char>, int))
    requires
        0 <= j < e.len(),
    ensures
        sum_minutes(e.update(j, x)) == sum_minutes(e) - e[j].1 + x.1,
    decreases e.len(),
{
    if j == e.len() - 1 {
        assert(e.update(j, x).drop_last() =~= e.drop_last());
    } else {
        assert(e.update(j, x).drop_last() =~= e.drop_last().update(j, x));
        lemma_sum_update(e.drop_last(), j, x);
    }
}

/// The sessions of `history` that count toward the week ending at `now`, summed
/// per project: each project worked on appears once, with its minutes, and the
/// totals add up to the minutes of all counted sessions.
pub fn project_totals(history: &Vec<Session>, week_ago: Instant, now: Instant) -> (r: Vec<
    ProjectTotal,
>)
    requires
        now.nanos < 2_000_000_000,
    ensures
        is_week_summary(totals_view(r@), history_view(history@), week_ago, now),
        sum_minutes(totals_view(r@)) == week_minutes(history_view(history@), week_ago, now),
{
    let ghost h = history_view(history@);
    let mut names: Vec<String> = Vec::new();
    let mut mins: Vec<i128> = Vec::new();
    assert(h.take(0) =~= Seq::<SessionView>::empty());
    assert(pair_up(names@, mins@) =~= Seq::<(Seq<char>, int)>::empty());
    for i in 0..history.len()
        invariant
            h == history_view(history@),
            names@.len() == mins@.len(),
            is_week_summary(pair_up(names@, mins@), h.take(i as int), week_ago, now),
            sum_minutes(pair_up(names@, mins@)) == week_minutes(h.take(i as int), week_ago, now),
            forall|k: int|
                0 <= k < mins@.len() ==> -(i * 0x8000_0000_0000_0000) <= #[trigger] mins@[k] <= i
                    * 0x8000_0000_0000_0000,
            now.nanos < 2_000_000_000,
    {
        let ghost prev = h.take(i as int);
        let ghost next = h.take(i + 1);
        let ghost e0 = pair_up(names@, mins@);
        let ghost names0 = names@;
        let ghost mins0 = mins@;
        assert(next.drop_last() =~= prev);
        assert(next.last() == h[i as int]);
        let s = &history[i];
        assert(s@ == h[i as int]);
        let ghost counted = counts_in_week(h[i as int], week_ago, now);
        let ghost add = minutes_of_session(h[i as int], now);
        if in_week(s, week_ago, now) {
            let m = session_minutes(s, now);
            match position_of(&names, &s.project) {
                Some(j) => {
                    let v = mins[j] + m as i128;
                    mins.set(j, v);
                    assert(pair_up(names@, mins@) =~= e0.update(
                        j as int,
                        (names0[j as int]@, v as int),
                    ));
                    proof {
                        lemma_sum_update(e0, j as int, (names0[j as int]@, v as int));
                    }
                    assert(pair_up(names@, mins@).len() == e0.len());
                },
                None => {
                    names.push(s.project.clone());
                    mins.push(m as i128);
                    assert(pair_up(names@, mins@) =~= e0.push((s.project@, m as int)));
                    assert(e0.push((s.project@, m as int)).drop_last() =~= e0);
                },
            }
        } else {
            assert(pair_up(names@, mins@) == e0);
        }
        let ghost e1 = pair_up(names@, mins@);
        assert(forall|t: int|
            #![trigger e1[t]]
            0 <= t < e0.len() ==> e1[t].0 == e0[t].0 && e1[t].1 == e0[t].1 + if counted && e0[t].0
                == h[i as int].project {
                add
            } else {
                0
            });
        assert(e1.len() == e0.len() || (counted && e1.len() == e0.len() + 1 && e1.last() == (
        h[i as int].project, add) && forall|t: int|
            0 <= t < e0.len() ==> (#[trigger] e0[t]).0 != h[i as int].project));
        assert(e1.len() == e0.len() + 1 ==> counted);
        assert(week_minutes(next, week_ago, now) == week_minutes(prev, week_ago, now) + if counted {
            add
        } else {
            0
        });
        assert forall|p: Seq<char>|
            project_minutes(next, p, week_ago, now) == #[trigger] project_minutes(
                prev,
                p,
                week_ago,
                now,
            ) + if counted && h[i as int].project == p {
                add
            } else {
                0
            } by {}
        assert forall|p: Seq<char>| #[trigger]
            worked_on(next, p, week_ago, now) <==> (worked_on(prev, p, week_ago, now) || (
            counts_in_week(h[i as int], week_ago, now) && h[i as int].project == p)) by {
            if worked_on(next, p, week_ago, now) {
                let k = choose|k: int|
                    0 <= k < next.len() && counts_in_week(#[trigger] next[k], week_ago, now)
                        && next[k].project == p;
                if k < i {
                    assert(prev[k] == next[k]);
                }
            }
            if worked_on(prev, p, week_ago, now) {
                let k = choose|k: int|
                    0 <= k < prev.len() && counts_in_week(#[trigger] prev[k], week_ago, now)
                        && prev[k].project == p;
                assert(next[k] == prev[k]);
            }
            if counts_in_week(h[i as int], week_ago, now) && h[i as int].project == p {
                assert(next[i as int] == h[i as int]);
            }
        }
        assert(distinct_projects(e1));
        assert forall|t: int| 0 <= t < e1.len() implies (#[trigger] e1[t]).1 == project_minutes(
            next,
            e1[t].0,
            week_ago,
            now,
        ) && worked_on(next, e1[t].0, week_ago, now) by {
            if t < e0.len() {
                assert(e0[t].1 == project_minutes(prev, e0[t].0, week_ago, now));
                assert(worked_on(prev, e0[t].0, week_ago, now));
                assert(worked_on(next, e1[t].0, week_ago, now));
            } else {
                let p = h[i as int].project;
                assert(e1[t] == (p, add));
                if worked_on(prev, p, week_ago, now) {
                    let u = choose|u: int| 0 <= u < e0.len() && (#[trigger] e0[u]).0 == p;
                    assert(false);
                }
                lemma_unworked_zero(prev, p, week_ago, now);
                assert(project_minutes(next, p, week_ago, now) == project_minutes(
                    prev,
                    p,
                    week_ago,
                    now,
                ) + add);
            }
        }
        assert forall|p: Seq<char>| #[trigger] worked_on(next, p, week_ago, now) implies exists|
            t: int,
        | 0 <= t < e1.len() && (#[trigger] e1[t]).0 == p by {
            if worked_on(prev, p, week_ago, now) {
                let t = choose|t: int| 0 <= t < e0.len() && (#[trigger] e0[t]).0 == p;
                assert(e1[t].0 == p);
            } else {
                assert(e1[e1.len() - 1].0 == p);
            }
        }
    }
    assert(h.take(history.len() as int) =~= h);
    let mut r: Vec<ProjectTotal> = Vec::new();
    let ghost e = pair_up(names@, mins@);
    for k in 0..names.len()
        invariant
            names@.len() == mins@.len(),
            e == pair_up(names@, mins@),
            r@.len() == k,
            forall|t: int| 0 <= t < k ==> total_view(#[trigger] r@[t]) == e[t],
    {
        r.push(ProjectTotal { project: names[k].clone(), minutes: mins[k] });
    }
    assert(totals_view(r@) =~= e);
    r
}

/// The value by which a total is ordered: its minutes as `i64` (the report), or as
/// `u64` (the dashboard), each wrapping as the sums of those types do.
pub open spec fn order_key(m: int, unsigned: bool) -> int {
    if unsigned {
        (m as u64) as int
    } else {
        (m as i64) as int
    }
}

/// Totals listed from most time to least.
pub open spec fn sorted_desc(e: Seq<(Seq<char>, int)>, unsigned: bool) -> bool {
    forall|i: int, j: int|
        0 <= i < j < e.len() ==> order_key((#[trigger] e[i]).1, unsigned) >= order_key(
            (#[trigger] e[j]).1,
            unsigned,
        )
}

/// `a` and `b` hold the same entries, each once.
pub open spec fn same_entries(a: Seq<(Seq<char>, int)>, b: Seq<(Seq<char>, int)>) -> bool {
    &&& a.len() == b.len()
    &&& forall|t: int| 0 <= t < a.len() ==> b.contains(#[trigger] a[t])
    &&& forall|t: int| 0 <= t < b.len() ==> a.contains(#[trigger] b[t])
}

/// The order key of a total.
fn key_of(m: i128, unsigned: bool) -> (k: i128)
    ensures
        k == order_key(m as int, unsigned),
{
    if unsigned {
        (m as u64) as i128
    } else {
        (m as i64) as i128
    }
}

/// The sum of a concatenation.
pub proof fn lemma_sum_concat(a: Seq<(Seq<char>, int)>, b: Seq<(Seq<char>, int)>)
    ensures
        sum_minutes(a + b) == sum_minutes(a) + sum_minutes(b),
    decreases b.len(),
{
    if b.len() > 0 {
        assert((a + b).drop_last() =~= a + b.drop_last());
        lemma_sum_concat(a, b.drop_last());
    } else {
        assert(a + b =~= a);
    }
}

/// The sum after inserting one entry.
proof fn lemma_sum_insert(a: Seq<(Seq<char>, int)>, pos: int, x: (Seq<char>, int))
    requires
        0 <= pos <= a.len(),
    ensures
        sum_minutes(a.insert(pos, x)) == sum_minutes(a) + x.1,
{
    assert(a.insert(pos, x) =~= a.take(pos).push(x) + a.skip(pos));
    assert(a =~= a.take(pos) + a.skip(pos));
    lemma_sum_concat(a.take(pos).push(x), a.skip(pos));
    lemma_sum_concat(a.take(pos), a.skip(pos));
    assert(a.take(pos).push(x).drop_last() =~= a.take(pos));
}

/// `o` holds the first `k` entries of `g`, each once, ordered by key, with their sum.
pub open spec fn sorted_prefix(
    o: Seq<(Seq<char>, int)>,
    g: Seq<(Seq<char>, int)>,
    k: int,
    unsigned: bool,
) -> bool {
    &&& o.len() == k
    &&& sorted_desc(o, unsigned)
    &&& forall|t: int| 0 <= t < k ==> o.contains(#[trigger] g[t])
    &&& forall|t: int| 0 <= t < o.len() ==> g.take(k).contains(#[trigger] o[t])
    &&& sum_minutes(o) == sum_minutes(g.take(k))
    &&& distinct_projects(o)
}

/// Inserting the next entry before the first one with a smaller key keeps a sorted prefix.
proof fn lemma_insert_step(
    ov: Seq<(Seq<char>, int)>,
    g: Seq<(Seq<char>, int)>,
    k: int,
    pos: int,
    unsigned: bool,
)
    requires
        0 <= k < g.len(),
        distinct_projects(g),
        sorted_prefix(ov, g, k, unsigned),
        0 <= pos <= ov.len(),
        forall|i: int|
            0 <= i < pos ==> order_key((#[trigger] ov[i]).1, unsigned) >= order_key(
                g[k].1,
                unsigned,
            ),
        pos < ov.len() ==> order_key(ov[pos].1, unsigned) < order_key(g[k].1, unsigned),
    ensures
        sorted_prefix(ov.insert(pos, g[k]), g, k + 1, unsigned),
{
    let x = g[k];
    let nv = ov.insert(pos, x);
    let x_key = order_key(x.1, unsigned);
    assert(g.take(k + 1) =~= g.take(k).push(x));
    lemma_sum_insert(ov, pos, x);
    assert(g.take(k + 1).drop_last() =~= g.take(k));
    assert forall|i: int, j: int| 0 <= i < j < nv.len() implies order_key(
        (#[trigger] nv[i]).1,
        unsigned,
    ) >= order_key((#[trigger] nv[j]).1, unsigned) by {
        if j < pos {
            assert(nv[i] == ov[i] && nv[j] == ov[j]);
        } else if j == pos {
            assert(nv[i] == ov[i]);
        } else if i < pos {
            assert(nv[i] == ov[i] && nv[j] == ov[j - 1]);
        } else if i == pos {
            assert(nv[j] == ov[j - 1]);
            assert(order_key(ov[pos].1, unsigned) >= order_key(ov[j - 1].1, unsigned));
        } else {
            assert(nv[i] == ov[i - 1] && nv[j] == ov[j - 1]);
        }
    }
    assert forall|i: int, j: int| 0 <= i < j < nv.len() implies (#[trigger] nv[i]).0 != (
    #[trigger] nv[j]).0 by {
        if i != pos && j != pos {
            let a = if i < pos {
                i
            } else {
                i - 1
            };
            let b = if j < pos {
                j
            } else {
                j - 1
            };
            assert(nv[i] == ov[a] && nv[j] == ov[b]);
        } else {
            let o = if i == pos {
                j
            } else {
                i
            };
            let a = if o < pos {
                o
            } else {
                o - 1
            };
            assert(nv[o] == ov[a]);
            assert(g.take(k).contains(ov[a]));
            let w = choose|w: int| 0 <= w < k && g.take(k)[w] == ov[a];
            assert(g[w] == ov[a]);
        }
    }
    assert forall|t: int| 0 <= t < k + 1 implies nv.contains(#[trigger] g[t]) by {
        if t < k {
            assert(ov.contains(g[t]));
            let w = choose|w: int| 0 <= w < ov.len() && ov[w] == g[t];
            if w < pos {
                assert(nv[w] == g[t]);
            } else {
                assert(nv[w + 1] == g[t]);
            }
        } else {
            assert(nv[pos] == g[t]);
        }
    }
    assert forall|t: int| 0 <= t < nv.len() implies g.take(k + 1).contains(#[trigger] nv[t]) by {
        if t < pos {
            assert(g.take(k).contains(ov[t]));
            let w = choose|w: int| 0 <= w < k && g.take(k)[w] == ov[t];
            assert(g.take(k + 1)[w] == nv[t]);
        } else if t == pos {
            assert(g.take(k + 1)[k] == nv[t]);
        } else {
            assert(g.take(k).contains(ov[t - 1]));
            let w = choose|w: int| 0 <= w < k && g.take(k)[w] == ov[t - 1];
            assert(g.take(k + 1)[w] == nv[t]);
        }
    }
}

/// The totals ordered from most time to least, by `order_key`. The entries are the
/// same, each once, and so is their sum.
pub fn sort_totals(entries: &Vec<ProjectTotal>, unsigned: bool) -> (r: Vec<ProjectTotal>)
    requires
        distinct_projects(totals_view(entries@)),
    ensures
        same_entries(totals_view(r@), totals_view(entries@)),
        distinct_projects(totals_view(r@)),
        sorted_desc(totals_view(r@), unsigned),
        sum_minutes(totals_view(r@)) == sum_minutes(totals_view(entries@)),
{
    let ghost g = totals_view(entries@);
    let mut out: Vec<ProjectTotal> = Vec::new();
    assert(g.take(0) =~= Seq::<(Seq<char>, int)>::empty());
    assert(totals_view(out@) =~= Seq::<(Seq<char>, int)>::empty());
    for k in 0..entries.len()
        invariant
            g == totals_view(entries@),
            distinct_projects(g),
            sorted_prefix(totals_view(out@), g, k as int, unsigned),
    {
        let ghost ov = totals_view(out@);
        let x_key = key_of(entries[k].minutes, unsigned);
        let mut pos: usize = 0;
        while pos < out.len() && key_of(out[pos].minutes, unsigned) >= x_key
            invariant
                pos <= out@.len(),
                ov == totals_view(out@),
                x_key == order_key(g[k as int].1, unsigned),
                forall|i: int| 0 <= i < pos ==> order_key((#[trigger] ov[i]).1, unsigned) >= x_key,
            decreases out.len() - pos,
        {
            pos += 1;
        }
        proof {
            lemma_insert_step(ov, g, k as int, pos as int, unsigned);
        }
        out.insert(
            pos,
            ProjectTotal { project: entries[k].project.clone(), minutes: entries[k].minutes },
        );
        assert(totals_view(out@) =~= ov.insert(pos as int, g[k as int]));
    }
    assert(g.take(entries.len() as int) =~= g);
    out
}

/// Whether every session's start time parses.
pub open spec fn starts_parse(h: Seq<SessionView>) -> bool {
    forall|k: int| 0 <= k < h.len() ==> (#[trigger] utc_reading(h[k].start_time)) is Some
}

/// Whether every session's start time parses.
pub fn all_starts_parse(history: &Vec<Session>) -> (r: bool)
    ensures
        r == starts_parse(history_view(history@)),
{
    let ghost h = history_view(history@);
    for i in 0..history.len()
        invariant
            h == history_view(history@),
            forall|k: int| 0 <= k < i ==> (#[trigger] utc_reading(h[k].start_time)) is Some,
    {
        if parse_utc(history[i].start_time.as_str()).is_none() {
            assert(utc_reading(h[i as int].start_time) is None);
            return false;
        }
    }
    true
}

/// Minutes of all sessions that count toward the week.
pub fn week_total(history: &Vec<Session>, week_ago: Instant, now: Instant) -> (r: i128)
    requires
        now.nanos < 2_000_000_000,
    ensures
        r == week_minutes(history_view(history@), week_ago, now),
{
    let ghost h = history_view(history@);
    let mut total: i128 = 0;
    for i in 0..history.len()
        invariant
            h == history_view(history@),
            total == week_minutes(h.take(i as int), week_ago, now),
            -(i * 0x8000_0000_0000_0000) <= total <= i * 0x8000_0000_0000_0000,
            now.nanos < 2_000_000_000,
    {
        assert(h.take(i + 1).drop_last() =~= h.take(i as int));
        assert(history@[i as int]@ == h[i as int]);
        if in_week(&history[i], week_ago, now) {
            total = total + session_minutes(&history[i], now) as i128;
        }
    }
    assert(h.take(history.len() as int) =~= h);
    total
}

/// The project totals of the week, ordered from most time to least by `order_key`.
pub fn weekly_totals(history: &Vec<Session>, week_ago: Instant, now: Instant, unsigned: bool) -> (r:
    Vec<ProjectTotal>)
    requires
        now.nanos < 2_000_000_000,
    ensures
        is_week_summary(totals_view(r@), history_view(history@), week_ago, now),
        sorted_desc(totals_view(r@), unsigned),
        sum_minutes(totals_view(r@)) == week_minutes(history_view(history@), week_ago, now),
{
    let ghost h = history_view(history@);
    let grouped = project_totals(history, week_ago, now);
    let sorted = sort_totals(&grouped, unsigned);
    let ghost g = totals_view(grouped@);
    let ghost o = totals_view(sorted@);
    assert forall|i: int| 0 <= i < o.len() implies (#[trigger] o[i]).1 == project_minutes(
        h,
        o[i].0,
        week_ago,
        now,
    ) && worked_on(h, o[i].0, week_ago, now) by {
        assert(g.contains(o[i]));
        let w = choose|w: int| 0 <= w < g.len() && g[w] == o[i];
        assert(g[w].1 == project_minutes(h, g[w].0, week_ago, now));
    }
    assert forall|p: Seq<char>| #[trigger] worked_on(h, p, week_ago, now) implies exists|i: int|
        0 <= i < o.len() && (#[trigger] o[i]).0 == p by {
        let w = choose|w: int| 0 <= w < g.len() && (#[trigger] g[w]).0 == p;
        assert(o.contains(g[w]));
        let t = choose|t: int| 0 <= t < o.len() && o[t] == g[w];
        assert(o[t].0 == p);
    }
    sorted
}

/// The weekly report: the project totals, ordered from most time to least, and
/// their sum.
pub struct WeeklyReport {
    pub entries: Vec<ProjectTotal>,
    pub total: i128,
}

/// The weekly report of `history` at `now`, or `None` when a start time does not
/// parse, where the command stops.
pub fn weekly_report(history: &Vec<Session>, week_ago: Instant, now: Instant) -> (r: Option<
    WeeklyReport,
>)
    requires
        now.nanos < 2_000_000_000,
    ensures
        r is Some <==> starts_parse(history_view(history@)),
        r matches Some(w) ==> {
            &&& is_week_summary(totals_view(w.entries@), history_view(history@), week_ago, now)
            &&& sorted_desc(totals_view(w.entries@), false)
            &&& w.total == week_minutes(history_view(history@), week_ago, now)
            &&& w.total == sum_minutes(totals_view(w.entries@))
        },
{
    if !all_starts_parse(history) {
        return None;
    }
    let entries = weekly_totals(history, week_ago, now, false);
    let total = week_total(history, week_ago, now);
    Some(WeeklyReport { entries, total })
}

/// The start of the last seven days before `now`, as `chrono` computes `now - 7 days`.
pub open spec fn week_before(now: Instant) -> Instant {
    instant_of(utc_plus_minutes(now.secs, now.nanos, -10080i64)->0)
}

/// The instant seven days (10080 minutes) before `now`, through `chrono`, or `None`
/// where that leaves `chrono`'s range. Outside a leap second it is `now` less 604800
/// seconds, and it exists exactly where `chrono` accepts that timestamp.
pub fn week_start(now: Instant) -> (r: Option<Instant>)
    ensures
        r is Some <==> utc_plus_minutes(now.secs, now.nanos, -10080i64) is Some,
        r matches Some(w) ==> w == week_before(now) && w.nanos < 2_000_000_000,
        now.nanos < 1_000_000_000 && utc_accepts(now.secs, now.nanos) ==> (r is Some
            <==> accepts_timestamp(now.secs - 604800, now.nanos as int)) && (r matches Some(w)
            ==> w.secs == now.secs - 604800 && w.nanos == now.nanos),
{
    plus_minutes(now, -10080)
}

/// The weekly report of `history` over the seven days before `now`, or `None` when a
/// start time does not parse or the start of the week leaves `chrono`'s range.
pub fn last_week_report(history: &Vec<Session>, now: Instant) -> (r: Option<WeeklyReport>)
    requires
        now.nanos < 2_000_000_000,
    ensures
        r is Some <==> utc_plus_minutes(now.secs, now.nanos, -10080i64) is Some && starts_parse(
            history_view(history@),
        ),
        r matches Some(w) ==> {
            let week_ago = week_before(now);
            &&& is_week_summary(totals_view(w.entries@), history_view(history@), week_ago, now)
            &&& sorted_desc(totals_view(w.entries@), false)
            &&& w.total == week_minutes(history_view(history@), week_ago, now)
            &&& w.total == sum_minutes(totals_view(w.entries@))
        },
        r is Some && now.nanos < 1_000_000_000 && utc_accepts(now.secs, now.nanos) ==> week_before(
            now,
        ).secs == now.secs - 604800 && week_before(now).nanos == now.nanos,
{
    match week_start(now) {
        Some(week_ago) => weekly_report(history, week_ago, now),
        None => None,
    }
}

/// The project totals of the seven days before `now`, ordered as `weekly_totals`
/// orders them, or `None` when the start of the week leaves `chrono`'s range.
pub fn last_week_totals(history: &Vec<Session>, now: Instant, unsigned: bool) -> (r: Option<
    Vec<ProjectTotal>,
>)
    requires
        now.nanos < 2_000_000_000,
    ensures
        r is Some <==> utc_plus_minutes(now.secs, now.nanos, -10080i64) is Some,
        r matches Some(v) ==> {
            let week_ago = week_before(now);
            &&& is_week_summary(totals_view(v@), history_view(history@), week_ago, now)
            &&& sorted_desc(totals_view(v@), unsigned)
            &&& sum_minutes(totals_view(v@)) == week_minutes(history_view(history@), week_ago, now)
        },
        r is Some && now.nanos < 1_000_000_000 && utc_accepts(now.secs, now.nanos) ==> week_before(
            now,
        ).secs == now.secs - 604800 && week_before(now).nanos == now.nanos,
{
    match week_start(now) {
        Some(week_ago) => Some(weekly_totals(history, week_ago, now, unsigned)),
        None => None,
    }
}

/// One project's line of the weekly report.
pub open spec fn report_entry_text(e: (Seq<char>, int)) -> Seq<char> {
    "  "@ + pad_right(cyan_text(e.0), 20) + " "@ + duration_text((e.1 as i64) as int)
}

/// The lines that the weekly report prints.
pub open spec fn report_text(entries: Seq<(Seq<char>, int)>, total: int) -> Seq<Seq<char>> {
    if entries.len() == 0 {
        seq!["No sessions recorded in the last 7 days."@]
    } else {
        seq![bold_text("── Weekly Report ─────────────────────"@)] + entries.map_values(
            |e: (Seq<char>, int)| report_entry_text(e),
        ) + seq![
            "─────────────────────────────────────"@,
            "  "@ + pad_right(bold_text("Total"@), 20) + " "@ + bold_text(
                duration_text((total as i64) as int),
            ),
        ]
    }
}

/// One project's line of the weekly report.
fn report_entry_line(e: &ProjectTotal) -> (r: String)
    ensures
        r@ == report_entry_text(total_view(*e)),
{
    let mut s = String::new();
    push_str(&mut s, "  ");
    let c = cyan(e.project.as_str());
    push_padded_right(&mut s, c.as_str(), 20);
    push_str(&mut s, " ");
    let d = fmt_duration(e.minutes as i64);
    push_str(&mut s, d.as_str());
    assert(s@ =~= report_entry_text(total_view(*e)));
    s
}

/// The lines that the weekly report prints.
pub fn report_lines(report: &WeeklyReport) -> (r: Vec<String>)
    ensures
        views(r@) == report_text(totals_view(report.entries@), report.total as int),
{
    let ghost e = totals_view(report.entries@);
    let mut lines: Vec<String> = Vec::new();
    if report.entries.len() == 0 {
        lines.push(String::from_str("No sessions recorded in the last 7 days."));
        assert(views(lines@) =~= report_text(e, report.total as int));
        return lines;
    }
    lines.push(bold("── Weekly Report ─────────────────────"));
    for k in 0..report.entries.len()
        invariant
            e == totals_view(report.entries@),
            lines@.len() == k + 1,
            views(lines@) == seq![bold_text("── Weekly Report ─────────────────────"@)]
                + e.take(k as int).map_values(|x: (Seq<char>, int)| report_entry_text(x)),
    {
        let line = report_entry_line(&report.entries[k]);
        let ghost before = views(lines@);
        lines.push(line);
        assert(e.take(k + 1).map_values(|x: (Seq<char>, int)| report_entry_text(x))
            =~= e.take(k as int).map_values(|x: (Seq<char>, int)| report_entry_text(x)).push(
            report_entry_text(e[k as int]),
        ));
        assert(views(lines@) =~= before.push(line@));
    }
    assert(e.take(report.entries.len() as int) =~= e);
    lines.push(String::from_str("─────────────────────────────────────"));
    let mut t = String::new();
    push_str(&mut t, "  ");
    let b = bold("Total");
    push_padded_right(&mut t, b.as_str(), 20);
    push_str(&mut t, " ");
    let d = fmt_duration(report.total as i64);
    let bd = bold(d.as_str());
    push_str(&mut t, bd.as_str());
    lines.push(t);
    assert(views(lines@) =~= report_text(e, report.total as int));
    lines
}

} // verus!
