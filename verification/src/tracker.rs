//! The session lifecycle: starting and stopping a session, and the messages
//! that `start`, `stop` and `status` print.
use vstd::prelude::*;
use crate::clock::{
    Instant, hours_between, instant_of, minutes_between, parse_utc, seconds_between, utc_reading,
    whole_hours, whole_minutes, whole_seconds,
};
use crate::model::{
    Commit, CommitView, Session, SessionView, history_view,
};
use crate::style::{
    bold, bold_text, cyan, cyan_text, duration_text, fmt_duration, gray, gray_text, green,
    green_text, yellow, yellow_text,
};
use crate::text::{dec_int, dec_nat, dec_zero2, push_int, push_nat, push_str, push_zero2, trem, views};

verus! {

/// What the tracker keeps: the session in progress (the last one started, which
/// may already be closed), and the finished sessions, oldest first.
pub struct Tracker {
    pub current: Option<Session>,
    pub history: Vec<Session>,
}

/// The tracker as text.
pub struct TrackerView {
    pub current: Option<SessionView>,
    pub history: Seq<SessionView>,
}

impl View for Tracker {
    type V = TrackerView;

    open spec fn view(&self) -> TrackerView {
        TrackerView {
            current: match self.current {
                Some(s) => Some(s@),
                None => None,
            },
            history: history_view(self.history@),
        }
    }
}

/// What `start` did.
pub enum StartOutcome {
    /// A session was already running; nothing changed.
    AlreadyActive,
    /// A new session is running.
    Started,
}

/// What `stop` did.
pub enum StopOutcome {
    /// There was no session; nothing changed.
    NoActive,
    /// The session had already been closed; nothing changed.
    AlreadyClosed,
    /// The session was closed and added to the history.
    Closed,
}

/// Whether a session is running.
pub open spec fn has_open(t: TrackerView) -> bool {
    t.current matches Some(s) && s.end_time is None
}

/// A session that has just started.
pub open spec fn fresh_session(project: Seq<char>, start: Seq<char>) -> SessionView {
    SessionView { project, start_time: start, end_time: None, commits: seq![] }
}

/// A session closed at `end` with `commits`.
pub open spec fn closed_session(s: SessionView, commits: Seq<CommitView>, end: Seq<char>) -> SessionView {
    SessionView { project: s.project, start_time: s.start_time, end_time: Some(end), commits }
}

/// The tracker after `start`.
pub open spec fn after_start(t: TrackerView, project: Seq<char>, start: Seq<char>) -> TrackerView {
    if has_open(t) {
        t
    } else {
        TrackerView { current: Some(fresh_session(project, start)), history: t.history }
    }
}

/// The tracker after `stop`.
pub open spec fn after_stop(t: TrackerView, commits: Seq<CommitView>, end: Seq<char>) -> TrackerView {
    if has_open(t) {
        TrackerView {
            current: None,
            history: t.history.push(closed_session(t.current->0, commits, end)),
        }
    } else {
        t
    }
}

/// The commits as text.
pub open spec fn commits_view(v: Seq<Commit>) -> Seq<CommitView> {
    v.map_values(|c: Commit| c@)
}

impl Tracker {
    /// What `stop` would do now, without doing it.
    pub fn stop_outcome(&self) -> (r: StopOutcome)
        ensures
            (r is NoActive) <==> self@.current is None,
            (r is AlreadyClosed) <==> (self@.current is Some && !has_open(self@)),
            (r is Closed) <==> has_open(self@),
    {
        match &self.current {
            None => StopOutcome::NoActive,
            Some(s) => if s.end_time.is_some() {
                StopOutcome::AlreadyClosed
            } else {
                StopOutcome::Closed
            },
        }
    }

    /// Starts a session of `project` at `now_text`, unless one is running.
    pub fn start(&mut self, project: String, now_text: String) -> (r: StartOutcome)
        ensures
            final(self)@ == after_start(old(self)@, project@, now_text@),
            (r is AlreadyActive) <==> has_open(old(self)@),
    {
        let open = match &self.current {
            Some(s) => s.end_time.is_none(),
            None => false,
        };
        if open {
            return StartOutcome::AlreadyActive;
        }
        self.current = Some(
            Session { project, start_time: now_text, end_time: None, commits: Vec::new() },
        );
        let ghost nv = self@;
        assert(nv.current->0.commits =~= Seq::<CommitView>::empty());
        StartOutcome::Started
    }

    /// Closes the running session at `now_text` with the commits made during it, and
    /// moves it to the history.
    pub fn stop(&mut self, commits: Vec<Commit>, now_text: String) -> (r: StopOutcome)
        ensures
            final(self)@ == after_stop(old(self)@, commits_view(commits@), now_text@),
            (r is NoActive) <==> old(self)@.current is None,
            (r is AlreadyClosed) <==> (old(self)@.current is Some && !has_open(old(self)@)),
            (r is Closed) <==> has_open(old(self)@),
    {
        let ghost old_history = history_view(self.history@);
        match self.current.take() {
            None => StopOutcome::NoActive,
            Some(s) => {
                if s.end_time.is_some() {
                    self.current = Some(s);
                    StopOutcome::AlreadyClosed
                } else {
                    let closed = Session {
                        project: s.project,
                        start_time: s.start_time,
                        end_time: Some(now_text),
                        commits,
                    };
                    self.history.push(closed);
                    assert(history_view(self.history@) =~= old_history.push(self.history@.last()@));
                    StopOutcome::Closed
                }
            },
        }
    }
}

/// Starting and then stopping a session, with none running before, adds exactly
/// that session, closed, to the history and leaves none running.
pub proof fn law_start_then_stop(
    t: TrackerView,
    project: Seq<char>,
    start: Seq<char>,
    commits: Seq<CommitView>,
    end: Seq<char>,
)
    requires
        !has_open(t),
    ensures
        after_stop(after_start(t, project, start), commits, end) == (TrackerView {
            current: None,
            history: t.history.push(
                SessionView { project, start_time: start, end_time: Some(end), commits },
            ),
        }),
{
}

/// A start while a session runs changes nothing.
pub proof fn law_start_refused_while_running(t: TrackerView, project: Seq<char>, start: Seq<char>)
    requires
        has_open(t),
    ensures
        after_start(t, project, start) == t,
{
}

/// After a stop no session is running, and a second stop changes nothing.
pub proof fn law_stop_settles(t: TrackerView, commits: Seq<CommitView>, end: Seq<char>, more: Seq<
    CommitView,
>, later: Seq<char>)
    ensures
        !has_open(after_stop(t, commits, end)),
        after_stop(after_stop(t, commits, end), more, later) == after_stop(t, commits, end),
{
}

/// A stop keeps every earlier session of the history, and adds at most one.
pub proof fn law_stop_keeps_history(t: TrackerView, commits: Seq<CommitView>, end: Seq<char>)
    ensures
        t.history.is_prefix_of(after_stop(t, commits, end).history),
        after_stop(t, commits, end).history.len() <= t.history.len() + 1,
{
    let h = after_stop(t, commits, end).history;
    assert(h.take(t.history.len() as int) =~= t.history);
}

/// The message of a refused start.
pub open spec fn already_active_text(project: Seq<char>) -> Seq<char> {
    "Session already active in '"@ + project + "'. Use 'stop' first."@
}

/// The lines printed when a session starts.
pub open spec fn started_text(project: Seq<char>, branch: Seq<char>) -> Seq<Seq<char>> {
    seq![
        green_text("●"@) + " "@ + bold_text("Session started"@) + " "@ + cyan_text(project),
        "  "@ + gray_text("branch:"@) + " "@ + branch,
    ]
}

/// The line printed for a commit of a closed session.
pub open spec fn commit_line_text(c: CommitView) -> Seq<char> {
    "    "@ + gray_text(c.hash) + " "@ + c.message + " "@ + gray_text("("@ + c.branch + ")"@)
}

/// The lines printed when a session is closed, `elapsed` minutes after it started;
/// the branch shown is that of its first commit, else `fallback_branch`.
pub open spec fn stopped_text(s: SessionView, elapsed: int, fallback_branch: Seq<char>) -> Seq<
    Seq<char>,
> {
    let branch = if s.commits.len() > 0 {
        s.commits[0].branch
    } else {
        fallback_branch
    };
    seq![
        yellow_text("■"@) + " "@ + bold_text("Session closed"@) + " "@ + cyan_text(s.project),
        "  "@ + gray_text("time:"@) + " "@ + duration_text(elapsed) + "   "@ + gray_text(
            "branch:"@,
        ) + " "@ + branch,
    ] + if s.commits.len() == 0 {
        seq!["  "@ + gray_text("no commits this session"@)]
    } else {
        seq!["  "@ + gray_text("commits:"@) + " "@ + dec_nat(s.commits.len())] + s.commits.map_values(
            |c: CommitView| commit_line_text(c),
        )
    }
}

/// Elapsed time as `1h 05min 09sec`.
pub open spec fn clock_text(start: Instant, now: Instant) -> Seq<char> {
    dec_int(whole_hours(start, now)) + "h "@ + dec_zero2(trem(whole_minutes(start, now), 60))
        + "min "@ + dec_zero2(trem(whole_seconds(start, now), 60)) + "sec"@
}

/// The lines printed by `status` for a running session that started at `start`.
pub open spec fn status_text(
    project: Seq<char>,
    start: Instant,
    now: Instant,
    branch: Seq<char>,
    commits: nat,
) -> Seq<Seq<char>> {
    seq![
        green_text("●"@) + " "@ + bold_text("Active:"@) + " "@ + cyan_text(project),
        "  "@ + gray_text("time:"@) + " "@ + clock_text(start, now) + "   "@ + gray_text(
            "branch:"@,
        ) + " "@ + branch + "   "@ + gray_text("commits:"@) + " "@ + dec_nat(commits),
    ]
}

/// The message of a refused start.
pub fn already_active_line(project: &str) -> (r: String)
    ensures
        r@ == already_active_text(project@),
{
    let mut r = String::new();
    push_str(&mut r, "Session already active in '");
    push_str(&mut r, project);
    push_str(&mut r, "'. Use 'stop' first.");
    assert(r@ =~= already_active_text(project@));
    r
}

/// The lines printed when a session starts.
pub fn started_lines(project: &str, branch: &str) -> (r: Vec<String>)
    ensures
        views(r@) == started_text(project@, branch@),
{
    let mut a = String::new();
    push_str(&mut a, green("●").as_str());
    push_str(&mut a, " ");
    push_str(&mut a, bold("Session started").as_str());
    push_str(&mut a, " ");
    push_str(&mut a, cyan(project).as_str());
    let mut b = String::new();
    push_str(&mut b, "  ");
    push_str(&mut b, gray("branch:").as_str());
    push_str(&mut b, " ");
    push_str(&mut b, branch);
    let mut r: Vec<String> = Vec::new();
    r.push(a);
    r.push(b);
    assert(views(r@) =~= started_text(project@, branch@));
    r
}

/// Minutes from the time written in `start_text` to `now`, or `None` when the text
/// does not parse.
pub fn minutes_since(start_text: &str, now: Instant) -> (r: Option<i64>)
    requires
        now.nanos < 2_000_000_000,
    ensures
        r is None <==> utc_reading(start_text@) is None,
        r matches Some(m) ==> m == whole_minutes(
            instant_of(utc_reading(start_text@)->0),
            now,
        ),
{
    match parse_utc(start_text) {
        Some(start) => Some(minutes_between(start, now)),
        None => None,
    }
}

/// The line printed for a commit of a closed session.
fn commit_line(c: &Commit) -> (r: String)
    ensures
        r@ == commit_line_text(c@),
{
    let mut r = String::new();
    push_str(&mut r, "    ");
    push_str(&mut r, gray(c.hash.as_str()).as_str());
    push_str(&mut r, " ");
    push_str(&mut r, c.message.as_str());
    push_str(&mut r, " ");
    let mut inner = String::new();
    push_str(&mut inner, "(");
    push_str(&mut inner, c.branch.as_str());
    push_str(&mut inner, ")");
    push_str(&mut r, gray(inner.as_str()).as_str());
    assert(r@ =~= commit_line_text(c@));
    r
}

/// The lines printed when a session is closed.
pub fn stopped_lines(session: &Session, elapsed: i64, fallback_branch: &str) -> (r: Vec<String>)
    ensures
        views(r@) == stopped_text(session@, elapsed as int, fallback_branch@),
{
    let ghost sv = session@;
    let mut a = String::new();
    push_str(&mut a, yellow("■").as_str());
    push_str(&mut a, " ");
    push_str(&mut a, bold("Session closed").as_str());
    push_str(&mut a, " ");
    push_str(&mut a, cyan(session.project.as_str()).as_str());
    let mut b = String::new();
    push_str(&mut b, "  ");
    push_str(&mut b, gray("time:").as_str());
    push_str(&mut b, " ");
    push_str(&mut b, fmt_duration(elapsed).as_str());
    push_str(&mut b, "   ");
    push_str(&mut b, gray("branch:").as_str());
    push_str(&mut b, " ");
    if session.commits.len() > 0 {
        push_str(&mut b, session.commits[0].branch.as_str());
    } else {
        push_str(&mut b, fallback_branch);
    }
    let mut r: Vec<String> = Vec::new();
    r.push(a);
    r.push(b);
    let ghost head = views(r@);
    if session.commits.len() == 0 {
        let mut c = String::new();
        push_str(&mut c, "  ");
        push_str(&mut c, gray("no commits this session").as_str());
        r.push(c);
        assert(views(r@) =~= stopped_text(sv, elapsed as int, fallback_branch@));
        return r;
    }
    let mut c = String::new();
    push_str(&mut c, "  ");
    push_str(&mut c, gray("commits:").as_str());
    push_str(&mut c, " ");
    push_nat(&mut c, session.commits.len() as u64);
    r.push(c);
    let ghost top = views(r@);
    for k in 0..session.commits.len()
        invariant
            sv == session@,
            views(r@) == top + sv.commits.take(k as int).map_values(
                |c: CommitView| commit_line_text(c),
            ),
    {
        let ghost before = views(r@);
        let line = commit_line(&session.commits[k]);
        r.push(line);
        assert(sv.commits[k as int] == session.commits@[k as int]@);
        assert(sv.commits.take(k + 1).map_values(|c: CommitView| commit_line_text(c))
            =~= sv.commits.take(k as int).map_values(|c: CommitView| commit_line_text(c)).push(
            commit_line_text(sv.commits[k as int]),
        ));
        assert(views(r@) =~= before.push(line@));
    }
    assert(sv.commits.take(session.commits.len() as int) =~= sv.commits);
    assert(views(r@) =~= stopped_text(sv, elapsed as int, fallback_branch@));
    r
}

/// Elapsed time as `1h 05min 09sec`.
pub fn clock_line(start: Instant, now: Instant) -> (r: String)
    requires
        start.nanos < 2_000_000_000,
        now.nanos < 2_000_000_000,
    ensures
        r@ == clock_text(start, now),
{
    let mut r = String::new();
    push_int(&mut r, hours_between(start, now) as i128);
    push_str(&mut r, "h ");
    push_zero2(&mut r, (minutes_between(start, now) % 60) as i128);
    push_str(&mut r, "min ");
    push_zero2(&mut r, seconds_between(start, now) % 60);
    push_str(&mut r, "sec");
    assert(r@ =~= clock_text(start, now));
    r
}

/// The lines printed by `status`, or `None` when the session's start time does not
/// parse, where the command stops.
pub fn status_lines(session: &Session, now: Instant, branch: &str, commits: usize) -> (r: Option<
    Vec<String>,
>)
    requires
        now.nanos < 2_000_000_000,
    ensures
        r is None <==> utc_reading(session.start_time@) is None,
        r matches Some(lines) ==> views(lines@) == status_text(
            session.project@,
            instant_of(utc_reading(session.start_time@)->0),
            now,
            branch@,
            commits as nat,
        ),
{
    let start = match parse_utc(session.start_time.as_str()) {
        Some(t) => t,
        None => return None,
    };
    let mut a = String::new();
    push_str(&mut a, green("●").as_str());
    push_str(&mut a, " ");
    push_str(&mut a, bold("Active:").as_str());
    push_str(&mut a, " ");
    push_str(&mut a, cyan(session.project.as_str()).as_str());
    let mut b = String::new();
    push_str(&mut b, "  ");
    push_str(&mut b, gray("time:").as_str());
    push_str(&mut b, " ");
    push_str(&mut b, clock_line(start, now).as_str());
    push_str(&mut b, "   ");
    push_str(&mut b, gray("branch:").as_str());
    push_str(&mut b, " ");
    push_str(&mut b, branch);
    push_str(&mut b, "   ");
    push_str(&mut b, gray("commits:").as_str());
    push_str(&mut b, " ");
    push_nat(&mut b, commits as u64);
    let mut r: Vec<String> = Vec::new();
    r.push(a);
    r.push(b);
    assert(views(r@) =~= status_text(session.project@, start, now, branch@, commits as nat));
    Some(r)
}

} // verus!
