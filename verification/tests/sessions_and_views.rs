use chrono::Datelike;
use devlog::clock::{instant_or_fallback, Instant};
use devlog::dashboard::{
    active_clock, bar, daily_activity, dashboard_days, day_line, peak, panel_values, quits, recent_rows,
    week_label, week_line,
};
use devlog::model::{Commit, Context, Session};
use devlog::report::{
    last_week_report, last_week_totals, week_start, project_totals, report_lines, session_minutes, sort_totals, weekly_report, weekly_totals,
    ProjectTotal,
};
use devlog::snapshot::{restore_lines, saved_lines, saved_local_time};
use devlog::standup::{standup_lines, standup_lines_for};
use devlog::style::{bold, cyan, gray, green, yellow};
use devlog::tracker::{
    already_active_line, minutes_since, started_lines, status_lines, stopped_lines, StartOutcome,
    StopOutcome, Tracker,
};

fn at(text: &str) -> Instant {
    let nowhere = Instant { secs: i64::MIN, nanos: 0 };
    let t = instant_or_fallback(text, nowhere);
    assert_ne!(t.secs, i64::MIN, "a valid time");
    t
}

fn closed(project: &str, start: &str, end: &str) -> Session {
    Session {
        project: project.to_string(),
        start_time: start.to_string(),
        end_time: Some(end.to_string()),
        commits: vec![],
    }
}

fn commit(hash: &str, message: &str, branch: &str) -> Commit {
    Commit { hash: hash.to_string(), message: message.to_string(), branch: branch.to_string() }
}

fn week() -> (Instant, Instant) {
    (at("2024-03-01T00:00:00Z"), at("2024-03-08T00:00:00Z"))
}

#[test]
fn minutes_of_closed_and_open_sessions() {
    let now = at("2024-03-08T00:00:00Z");
    assert_eq!(session_minutes(&closed("p", "2024-03-07T10:00:00Z", "2024-03-07T11:30:00Z"), now), 90);
    let mut open = closed("p", "2024-03-07T10:00:00Z", "x");
    open.end_time = None;
    assert_eq!(session_minutes(&open, now), 0);
}

#[test]
fn unparsable_times_read_as_now() {
    let now = at("2024-03-07T12:00:00Z");
    assert_eq!(session_minutes(&closed("p", "2024-03-07T10:00:00Z", "garbage"), now), 120);
    assert_eq!(session_minutes(&closed("p", "garbage", "2024-03-07T11:00:00Z"), now), -60);
}

#[test]
fn weekly_totals_group_and_sort() {
    let (week_ago, now) = week();
    let history = vec![
        closed("alpha", "2024-03-02T10:00:00Z", "2024-03-02T11:00:00Z"),
        closed("beta", "2024-03-03T10:00:00Z", "2024-03-03T13:00:00Z"),
        closed("alpha", "2024-03-04T10:00:00Z", "2024-03-04T10:30:00Z"),
        closed("old", "2024-02-20T10:00:00Z", "2024-02-20T18:00:00Z"),
    ];
    let report = weekly_report(&history, week_ago, now).unwrap();
    let got: Vec<(String, i128)> =
        report.entries.iter().map(|e| (e.project.clone(), e.minutes)).collect();
    assert_eq!(got, vec![("beta".to_string(), 180), ("alpha".to_string(), 90)]);
    assert_eq!(report.total, 270);
}

#[test]
fn open_sessions_do_not_count() {
    let (week_ago, now) = week();
    let mut s = closed("alpha", "2024-03-02T10:00:00Z", "x");
    s.end_time = None;
    let report = weekly_report(&vec![s], week_ago, now).unwrap();
    assert!(report.entries.is_empty());
    assert_eq!(report.total, 0);
}

#[test]
fn report_needs_parsable_starts() {
    let (week_ago, now) = week();
    let history = vec![closed("alpha", "not a time", "2024-03-02T11:00:00Z")];
    assert!(weekly_report(&history, week_ago, now).is_none());
}

#[test]
fn report_text() {
    let (week_ago, now) = week();
    let history = vec![
        closed("alpha", "2024-03-02T10:00:00Z", "2024-03-02T11:05:00Z"),
        closed("beta", "2024-03-03T10:00:00Z", "2024-03-03T10:20:00Z"),
    ];
    let lines = report_lines(&weekly_report(&history, week_ago, now).unwrap());
    let expected = vec![
        bold("── Weekly Report ─────────────────────"),
        format!("  {:<20} {}", cyan("alpha"), "1h 5min"),
        format!("  {:<20} {}", cyan("beta"), "20min"),
        "─────────────────────────────────────".to_string(),
        format!("  {:<20} {}", bold("Total"), bold("1h 25min")),
    ];
    assert_eq!(lines, expected);
}

#[test]
fn empty_report_text() {
    let (week_ago, now) = week();
    let lines = report_lines(&weekly_report(&vec![], week_ago, now).unwrap());
    assert_eq!(lines, vec!["No sessions recorded in the last 7 days."]);
}

#[test]
fn totals_add_up() {
    let (week_ago, now) = week();
    let history = vec![
        closed("a", "2024-03-02T10:00:00Z", "2024-03-02T10:10:00Z"),
        closed("b", "2024-03-02T11:00:00Z", "2024-03-02T11:40:00Z"),
        closed("a", "2024-03-02T12:00:00Z", "2024-03-02T12:25:00Z"),
        closed("c", "2024-03-02T13:00:00Z", "2024-03-02T13:01:00Z"),
    ];
    let grouped = project_totals(&history, week_ago, now);
    let sum: i128 = grouped.iter().map(|e| e.minutes).sum();
    assert_eq!(sum, 76);
    let sorted = sort_totals(&grouped, false);
    let names: Vec<&str> = sorted.iter().map(|e| e.project.as_str()).collect();
    assert_eq!(names, vec!["b", "a", "c"]);
}

#[test]
fn sort_keeps_order_of_equal_totals() {
    let entries = vec![
        ProjectTotal { project: "x".to_string(), minutes: 5 },
        ProjectTotal { project: "y".to_string(), minutes: 9 },
        ProjectTotal { project: "z".to_string(), minutes: 5 },
    ];
    let sorted = sort_totals(&entries, false);
    let names: Vec<&str> = sorted.iter().map(|e| e.project.as_str()).collect();
    assert_eq!(names, vec!["y", "x", "z"]);
}

#[test]
fn dashboard_orders_by_unsigned_minutes() {
    let entries = vec![
        ProjectTotal { project: "neg".to_string(), minutes: -1 },
        ProjectTotal { project: "pos".to_string(), minutes: 10 },
    ];
    let signed: Vec<String> = sort_totals(&entries, false).into_iter().map(|e| e.project).collect();
    let unsigned: Vec<String> = sort_totals(&entries, true).into_iter().map(|e| e.project).collect();
    assert_eq!(signed, vec!["pos", "neg"]);
    assert_eq!(unsigned, vec!["neg", "pos"]);
    let values = panel_values(&sort_totals(&entries, true));
    assert_eq!(values, vec![u64::MAX, 10]);
}

#[test]
fn start_then_stop_records_one_session() {
    let mut t = Tracker { current: None, history: vec![] };
    let r = t.start("devlog".to_string(), "2024-03-07T10:00:00+00:00".to_string());
    assert!(matches!(r, StartOutcome::Started));
    let again = t.start("other".to_string(), "2024-03-07T10:05:00+00:00".to_string());
    assert!(matches!(again, StartOutcome::AlreadyActive));
    assert_eq!(t.current.as_ref().unwrap().project, "devlog");
    let stop = t.stop(vec![commit("abc", "Fix", "main")], "2024-03-07T11:00:00+00:00".to_string());
    assert!(matches!(stop, StopOutcome::Closed));
    assert!(t.current.is_none());
    assert_eq!(t.history.len(), 1);
    let s = &t.history[0];
    assert_eq!(s.project, "devlog");
    assert_eq!(s.start_time, "2024-03-07T10:00:00+00:00");
    assert_eq!(s.end_time.as_deref(), Some("2024-03-07T11:00:00+00:00"));
    assert_eq!(s.commits.len(), 1);
    let second = t.stop(vec![], "2024-03-07T12:00:00+00:00".to_string());
    assert!(matches!(second, StopOutcome::NoActive));
    assert_eq!(t.history.len(), 1);
}

#[test]
fn stop_of_closed_session_is_refused() {
    let mut t = Tracker {
        current: Some(closed("p", "2024-03-07T10:00:00Z", "2024-03-07T11:00:00Z")),
        history: vec![],
    };
    assert!(matches!(t.stop(vec![], "x".to_string()), StopOutcome::AlreadyClosed));
    assert!(t.current.is_some());
    assert!(t.history.is_empty());
    assert!(matches!(t.start("q".to_string(), "y".to_string()), StartOutcome::Started));
    assert_eq!(t.current.as_ref().unwrap().project, "q");
}

#[test]
fn start_messages() {
    assert_eq!(already_active_line("web"), "Session already active in 'web'. Use 'stop' first.");
    assert_eq!(
        started_lines("web", "main"),
        vec![
            format!("{} {} {}", green("●"), bold("Session started"), cyan("web")),
            format!("  {} {}", gray("branch:"), "main"),
        ]
    );
}

#[test]
fn stop_messages_with_and_without_commits() {
    let mut s = closed("web", "2024-03-07T10:00:00Z", "2024-03-07T11:00:00Z");
    let none = stopped_lines(&s, 61, "dev");
    assert_eq!(
        none,
        vec![
            format!("{} {} {}", yellow("■"), bold("Session closed"), cyan("web")),
            format!("  {} {}   {} {}", gray("time:"), "1h 1min", gray("branch:"), "dev"),
            format!("  {}", gray("no commits this session")),
        ]
    );
    s.commits = vec![commit("a1", "One", "feat"), commit("b2", "Two", "feat")];
    let some = stopped_lines(&s, 5, "dev");
    assert_eq!(some[1], format!("  {} {}   {} {}", gray("time:"), "5min", gray("branch:"), "feat"));
    assert_eq!(some[2], format!("  {} {}", gray("commits:"), 2));
    assert_eq!(some[3], format!("    {} {} {}", gray("a1"), "One", gray("(feat)")));
    assert_eq!(some[4], format!("    {} {} {}", gray("b2"), "Two", gray("(feat)")));
    assert_eq!(some.len(), 5);
}

#[test]
fn elapsed_since_start() {
    let now = at("2024-03-07T12:34:56Z");
    assert_eq!(minutes_since("2024-03-07T10:00:00Z", now), Some(154));
    assert_eq!(minutes_since("bad", now), None);
}

#[test]
fn status_text() {
    let now = at("2024-03-07T12:04:09Z");
    let s = closed("web", "2024-03-07T10:00:00Z", "x");
    let lines = status_lines(&s, now, "main", 3).unwrap();
    assert_eq!(
        lines,
        vec![
            format!("{} {} {}", green("●"), bold("Active:"), cyan("web")),
            format!(
                "  {} {}h {:02}min {:02}sec   {} {}   {} {}",
                gray("time:"),
                2,
                4,
                9,
                gray("branch:"),
                "main",
                gray("commits:"),
                3
            ),
        ]
    );
    let bad = closed("web", "nope", "x");
    assert!(status_lines(&bad, now, "main", 0).is_none());
}

#[test]
fn save_messages() {
    assert_eq!(
        saved_lines("main", 2, &Some("wip".to_string())),
        vec![
            format!("{} {}", green("✔"), bold("Context saved")),
            format!("  {} {}   {} {}", gray("branch:"), cyan("main"), gray("files:"), 2),
            format!("  {} {}", gray("note:"), "wip"),
        ]
    );
    assert_eq!(saved_lines("main", 0, &None).len(), 2);
}

#[test]
fn restore_shows_last_five_commands_newest_first() {
    let ctx = Context {
        saved_at: "2024-03-07T10:00:00Z".to_string(),
        project: Some("web".to_string()),
        branch: "main".to_string(),
        modified_files: vec!["M a.rs".to_string()],
        note: Some("half done".to_string()),
        recent_commands: (1..=7).map(|i| format!("cmd{}", i)).collect(),
    };
    let lines = restore_lines(&ctx, "2024-03-07 11:00");
    let mut expected = vec![
        bold("── Saved Context ─────────────────────"),
        format!("  {} {}", gray("saved:"), cyan("2024-03-07 11:00")),
        format!("  {} {}", gray("project:"), bold("web")),
        format!("  {} {}", gray("branch:"), cyan("main")),
        format!("  {} {}", gray("modified:"), 1),
        format!("    {} {}", gray("▸"), "M a.rs"),
        format!("  {} {}", gray("note:"), yellow("half done")),
        format!("  {}", gray("last commands:")),
    ];
    for i in [7, 6, 5, 4, 3] {
        expected.push(format!("    {} cmd{}", gray("$"), i));
    }
    expected.push(bold("──────────────────────────────────────"));
    assert_eq!(lines, expected);
}

#[test]
fn restore_of_bare_context() {
    let ctx = Context {
        saved_at: "2024-03-07T10:00:00Z".to_string(),
        project: None,
        branch: "main".to_string(),
        modified_files: vec![],
        note: None,
        recent_commands: vec![],
    };
    assert_eq!(restore_lines(&ctx, "t").len(), 4);
}

#[test]
fn saved_time_is_shown_locally() {
    let mut ctx = Context {
        saved_at: "2024-03-07T10:00:00Z".to_string(),
        project: None,
        branch: "main".to_string(),
        modified_files: vec![],
        note: None,
        recent_commands: vec![],
    };
    let expected = "2024-03-07T10:00:00Z"
        .parse::<chrono::DateTime<chrono::Utc>>()
        .unwrap()
        .with_timezone(&chrono::Local)
        .format("%Y-%m-%d %H:%M")
        .to_string();
    assert_eq!(saved_local_time(&ctx), Some(expected));
    ctx.saved_at = "later".to_string();
    assert_eq!(saved_local_time(&ctx), None);
}

#[test]
fn standup_for_given_days() {
    let now = at("2024-03-07T12:00:00Z");
    let mut y = closed("api", "2024-03-06T09:00:00Z", "2024-03-06T10:30:00Z");
    y.commits = vec![commit("a", "Add route", "main")];
    let t = closed("web", "2024-03-07T08:00:00Z", "2024-03-07T08:45:00Z");
    let old = closed("old", "2024-03-01T08:00:00Z", "2024-03-01T09:00:00Z");
    let history = vec![y, t, old];
    let days = vec![Some(100), Some(101), Some(95)];
    let lines = standup_lines_for(&history, &days, 101, Some(("cli", 7)), now);
    let expected = vec![
        bold("── Stand-up ──────────────────────────"),
        format!("{} ", cyan("Yesterday:")),
        format!("  {} {} — {}", gray("▸"), bold("api"), "1h 30min"),
        format!("      {} {}", gray("·"), "Add route"),
        format!("{} ", cyan("Today:    ")),
        format!("  {} {} — {}", gray("▸"), bold("web"), "45min"),
        format!("  {} {} {} {}", green("●"), bold("cli"), gray("(active)"), "7min"),
        format!("{} {}", cyan("Blockers: "), gray("none")),
        bold("──────────────────────────────────────"),
    ];
    assert_eq!(lines, expected);
}

#[test]
fn standup_with_nothing() {
    let now = at("2024-03-07T12:00:00Z");
    let lines = standup_lines_for(&vec![], &vec![], 101, None, now);
    assert_eq!(lines[1], format!("{} {}", cyan("Yesterday:"), gray("no sessions recorded")));
    assert_eq!(lines[2], format!("{} {}", cyan("Today:    "), gray("nothing started yet")));
    assert_eq!(lines.len(), 5);
}

#[test]
fn standup_needs_parsable_starts() {
    let now = at("2024-03-07T12:00:00Z");
    let history = vec![closed("x", "bad", "2024-03-06T10:30:00Z")];
    assert!(standup_lines(&history, None, 101, now).is_none());
    let ok = vec![closed("x", "2024-03-06T09:00:00Z", "2024-03-06T10:30:00Z")];
    let running = closed("y", "bad", "z");
    assert!(standup_lines(&ok, Some(&running), 101, now).is_none());
    assert!(standup_lines(&ok, None, 101, now).is_some());
}

#[test]
fn bars_fill_their_width() {
    assert_eq!(bar(0, 4), "    ");
    assert_eq!(bar(3, 4), "███ ");
    assert_eq!(bar(9, 4), "████");
    assert_eq!(bar(5, 14).chars().count(), 14);
}

#[test]
fn peak_or_one() {
    assert_eq!(peak(&vec![]), 1);
    assert_eq!(peak(&vec![0, 0]), 0);
    assert_eq!(peak(&vec![3, 9, 2]), 9);
}

#[test]
fn labels_cut_at_ten_bytes() {
    assert_eq!(week_label("short").as_deref(), Some("short"));
    assert_eq!(week_label("exactly10!").as_deref(), Some("exactly10!"));
    assert_eq!(week_label("a-very-long-project").as_deref(), Some("a-very-lon"));
    assert_eq!(week_label("ééééé").as_deref(), Some("ééééé"));
    assert_eq!(week_label("éééééé").as_deref(), Some("ééééé"));
    assert_eq!(week_label("aéééééé"), None);
}

#[test]
fn week_line_text() {
    let line = week_line("devlog", &bar(7, 14), 125).unwrap();
    assert_eq!(line, format!("  {:<10} {} {:2}h{:02}m", "devlog", bar(7, 14), 2, 5));
    let long = week_line("abcdefghijklmnop", "", 600).unwrap();
    assert_eq!(long, format!("  {:<10} {} {:2}h{:02}m", "abcdefghij", "", 10, 0));
}

#[test]
fn daily_panel() {
    let now = at("2024-03-07T12:00:00Z");
    let history = vec![
        closed("a", "2024-03-06T09:00:00Z", "2024-03-06T10:00:00Z"),
        closed("b", "2024-03-06T11:00:00Z", "2024-03-06T11:30:00Z"),
        closed("c", "2024-03-01T09:00:00Z", "2024-03-01T09:15:00Z"),
    ];
    let today = chrono::NaiveDate::from_ymd_opt(2024, 3, 7).unwrap();
    let d = |y, m, dd| chrono::NaiveDate::from_ymd_opt(y, m, dd).unwrap().num_days_from_ce() as i64;
    let days = vec![Some(d(2024, 3, 6)), Some(d(2024, 3, 6)), Some(d(2024, 3, 1))];
    let entries = daily_activity(&history, &days, today.num_days_from_ce() as i64, now);
    let got: Vec<(&str, u64)> = entries.iter().map(|(n, m)| (n.as_str(), *m)).collect();
    assert_eq!(
        got,
        vec![("Fri", 15), ("Sat", 0), ("Sun", 0), ("Mon", 0), ("Tue", 0), ("Wed", 90), ("Thu", 0)]
    );
    assert_eq!(day_line("Sat", 0, "ignored"), "  Sat ─");
    assert_eq!(day_line("Wed", 90, "███"), "  Wed ███  1h30m");
}

#[test]
fn recent_rows_newest_first() {
    let now = at("2024-03-07T12:00:00Z");
    let mut history: Vec<Session> = (0..10)
        .map(|i| closed(&format!("p{}", i), "2024-03-06T09:00:00Z", "2024-03-06T10:05:00Z"))
        .collect();
    history[9].commits = vec![commit("a", "m", "b")];
    let rows = recent_rows(&history, now);
    assert_eq!(rows.len(), 8);
    assert_eq!(rows[0].project, "p9");
    assert_eq!(rows[0].commits, "1");
    assert_eq!(rows[0].duration, "1h 05min");
    assert_eq!(rows[7].project, "p2");
    assert!(!rows[0].date.is_empty());
}

#[test]
fn active_clock_text() {
    let now = at("2024-03-07T12:00:05Z");
    assert_eq!(active_clock("2024-03-07T10:58:00Z", now), "1h 02min 05sec");
    assert_eq!(active_clock("garbage", now), "0h 00min 00sec");
}

#[test]
fn quit_keys() {
    assert!(quits(Some('q'), false));
    assert!(quits(Some('Q'), true));
    assert!(quits(Some('c'), true));
    assert!(!quits(Some('c'), false));
    assert!(!quits(Some('x'), true));
    assert!(!quits(None, true));
}

#[test]
fn weekly_totals_unsigned_for_dashboard() {
    let (week_ago, now) = week();
    let history = vec![
        closed("a", "2024-03-02T10:00:00Z", "2024-03-02T10:10:00Z"),
        closed("b", "2024-03-02T11:00:00Z", "2024-03-02T12:00:00Z"),
    ];
    let w = weekly_totals(&history, week_ago, now, true);
    assert_eq!(w[0].project, "b");
    assert_eq!(peak(&panel_values(&w)), 60);
}

fn local_of(text: &str, pattern: &str) -> String {
    text.parse::<chrono::DateTime<chrono::Utc>>()
        .unwrap()
        .with_timezone(&chrono::Local)
        .format(pattern)
        .to_string()
}

fn local_day_number(text: &str) -> i64 {
    text.parse::<chrono::DateTime<chrono::Utc>>()
        .unwrap()
        .with_timezone(&chrono::Local)
        .date_naive()
        .num_days_from_ce() as i64
}

#[test]
fn week_starts_seven_days_before() {
    let now = at("2024-03-08T00:00:00Z");
    let w = week_start(now).unwrap();
    assert_eq!((w.secs, w.nanos), (now.secs - 604800, 0));
    let far = Instant { secs: i64::MIN / 2, nanos: 0 };
    assert!(week_start(far).is_none());
}

#[test]
fn last_week_report_covers_seven_days() {
    let now = at("2024-03-08T00:00:00Z");
    let history = vec![
        closed("alpha", "2024-03-02T10:00:00Z", "2024-03-02T11:00:00Z"),
        closed("beta", "2024-02-29T10:00:00Z", "2024-02-29T13:00:00Z"),
        closed("gamma", "2024-03-01T00:00:01Z", "2024-03-01T00:10:01Z"),
    ];
    let report = last_week_report(&history, now).unwrap();
    let got: Vec<(String, i128)> =
        report.entries.iter().map(|e| (e.project.clone(), e.minutes)).collect();
    assert_eq!(got, vec![("alpha".to_string(), 60), ("gamma".to_string(), 10)]);
    assert_eq!(report.total, 70);
    let totals = last_week_totals(&history, now, true).unwrap();
    assert_eq!(totals.len(), 2);
    let bad = vec![closed("x", "bad", "2024-03-06T10:30:00Z")];
    assert!(last_week_report(&bad, now).is_none());
}

#[test]
fn dashboard_days_are_local_days() {
    let now = at("2024-03-07T12:00:00Z");
    let history = vec![
        closed("a", "2024-03-07T10:00:00Z", "2024-03-07T11:00:00Z"),
        closed("b", "garbage", "2024-03-07T11:00:00Z"),
        closed("c", "+262142-12-31T23:30:00Z", "2024-03-07T11:00:00Z"),
    ];
    let days = dashboard_days(&history, now);
    assert_eq!(days[0], Some(local_day_number("2024-03-07T10:00:00Z")));
    assert_eq!(days[1], Some(local_day_number("2024-03-07T12:00:00Z")));
    assert_eq!(days[2], None);
    let utc_day = 738952;
    assert!((days[0].unwrap() - utc_day).abs() <= 1);
}

#[test]
fn standup_survives_the_end_of_the_calendar() {
    let now = at("2024-03-07T12:00:00Z");
    let history = vec![
        closed("far", "+262142-12-31T23:30:00Z", "+262142-12-31T23:40:00Z"),
        closed("api", "2024-03-07T09:00:00Z", "2024-03-07T10:00:00Z"),
    ];
    let today = local_day_number("2024-03-07T12:00:00Z");
    let lines = standup_lines(&history, None, today, now).unwrap();
    assert!(lines.iter().all(|l| !l.contains("far")));
}

#[test]
fn recent_rows_show_local_start() {
    let now = at("2024-03-07T12:00:00Z");
    let history = vec![closed("p", "2024-03-06T09:00:00Z", "2024-03-06T10:05:00Z")];
    let rows = recent_rows(&history, now);
    assert_eq!(rows[0].date, local_of("2024-03-06T09:00:00Z", "%m-%d %H:%M"));
    assert_eq!(rows[0].date.len(), 11);
}
