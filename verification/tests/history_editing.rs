use devlog::clock::{instant_or_fallback, Instant};
use devlog::editing::{
    parse_clock, rename_project, session_position, set_duration, set_end, set_end_at_clock,
};
use devlog::history_log::{
    detail_lines, local_or_raw, log_lines, no_session_line, rename_line, session_dates,
    updated_line,
};
use devlog::model::{Commit, Session};
use devlog::report::session_minutes;
use devlog::style::{bold, cyan, gray, green};

fn at(text: &str) -> Instant {
    let nowhere = Instant { secs: i64::MIN, nanos: 0 };
    let t = instant_or_fallback(text, nowhere);
    assert_ne!(t.secs, i64::MIN, "a valid time");
    t
}

fn closed(project: &str, start: &str, end: &str) -> Session {
    Session {
        project: project.to_string(),
        start_time: start.to_string(),
        end_time: Some(end.to_string()),
        commits: vec![],
    }
}

#[test]
fn rename_moves_every_session_of_a_project() {
    let mut h = vec![
        closed("a", "2024-03-01T10:00:00Z", "2024-03-01T11:00:00Z"),
        closed("b", "2024-03-01T12:00:00Z", "2024-03-01T13:00:00Z"),
        closed("a", "2024-03-02T10:00:00Z", "2024-03-02T11:00:00Z"),
    ];
    let n = rename_project(&mut h, &"a".to_string(), &"c".to_string());
    assert_eq!(n, 2);
    let names: Vec<&str> = h.iter().map(|s| s.project.as_str()).collect();
    assert_eq!(names, vec!["c", "b", "c"]);
    assert_eq!(h[2].start_time, "2024-03-02T10:00:00Z");
    assert_eq!(rename_project(&mut h, &"zzz".to_string(), &"y".to_string()), 0);
    let back = rename_project(&mut h, &"c".to_string(), &"a".to_string());
    assert_eq!(back, 2);
    assert_eq!(h[0].project, "a");
}

#[test]
fn positions_count_from_one() {
    assert_eq!(session_position(3, None), Some(2));
    assert_eq!(session_position(0, None), None);
    assert_eq!(session_position(3, Some(1)), Some(0));
    assert_eq!(session_position(3, Some(3)), Some(2));
    assert_eq!(session_position(3, Some(0)), None);
    assert_eq!(session_position(3, Some(4)), None);
}

#[test]
fn duration_sets_the_end() {
    let mut s = closed("a", "2024-03-07T10:00:00+00:00", "2024-03-07T23:00:00+00:00");
    assert!(set_duration(&mut s, 90));
    assert_eq!(s.end_time.as_deref(), Some("2024-03-07T11:30:00+00:00"));
    let now = at("2024-03-08T00:00:00Z");
    assert_eq!(session_minutes(&s, now), 90);
    let mut bad = closed("a", "nope", "x");
    assert!(!set_duration(&mut bad, 5));
    assert_eq!(bad.end_time.as_deref(), Some("x"));
}

#[test]
fn end_is_written_in_rfc3339() {
    let mut s = closed("a", "2024-03-07T10:00:00Z", "x");
    let at = at("2024-03-07T18:30:00Z");
    assert!(set_end(&mut s, at));
    assert_eq!(s.end_time.as_deref(), Some("2024-03-07T18:30:00+00:00"));
}

#[test]
fn end_at_a_clock_time() {
    let mut s = closed("a", "2024-03-07T10:00:00Z", "x");
    let day = 738952; // 2024-03-07
    assert!(!set_end_at_clock(&mut s, day, "25:00"));
    assert!(!set_end_at_clock(&mut s, day, "soon"));
    assert_eq!(s.end_time.as_deref(), Some("x"));
    assert!(set_end_at_clock(&mut s, day, "18:30"));
    let end = s.end_time.clone().unwrap();
    let parsed: chrono::DateTime<chrono::FixedOffset> =
        chrono::DateTime::parse_from_rfc3339(&end).expect("rfc3339");
    let local = parsed.with_timezone(&chrono::Local);
    assert_eq!(local.format("%Y-%m-%d %H:%M").to_string(), "2024-03-07 18:30");
}

#[test]
fn clock_times() {
    assert_eq!(parse_clock("18:30"), Some((18, 30)));
    assert_eq!(parse_clock("9:05"), Some((9, 5)));
    assert_eq!(parse_clock("00:00"), Some((0, 0)));
    assert_eq!(parse_clock("24:00"), None);
    assert_eq!(parse_clock("12:60"), None);
    assert_eq!(parse_clock("18:3"), None);
    assert_eq!(parse_clock("ab:cd"), None);
    assert_eq!(parse_clock(""), None);
}

#[test]
fn log_groups_by_date() {
    let now = at("2024-03-08T00:00:00Z");
    let mut h = vec![
        closed("api", "2024-03-06T09:00:00Z", "2024-03-06T10:30:00Z"),
        closed("web", "2024-03-06T11:00:00Z", "2024-03-06T11:20:00Z"),
        closed("api", "2024-03-07T09:00:00Z", "2024-03-07T09:05:00Z"),
    ];
    h[1].commits = vec![Commit { hash: "a".into(), message: "m".into(), branch: "b".into() }];
    let dates = vec!["2024-03-06".to_string(), "2024-03-06".to_string(), "2024-03-07".to_string()];
    let times = vec!["09:00".to_string(), "11:00".to_string(), "09:00".to_string()];
    let lines = log_lines(&h, &dates, &times, now);
    assert_eq!(
        lines,
        vec![
            bold("2024-03-06"),
            format!("  {:<5} {}  {:<20} {:>9}  {} commits", "#1", "09:00", "api", "1h 30min", 0),
            format!("  {:<5} {}  {:<20} {:>9}  {} commits", "#2", "11:00", "web", "20min", 1),
            bold("2024-03-07"),
            format!("  {:<5} {}  {:<20} {:>9}  {} commits", "#3", "09:00", "api", "5min", 0),
        ]
    );
    assert_eq!(log_lines(&vec![], &vec![], &vec![], now), vec!["No sessions recorded yet."]);
    let (d, t) = session_dates(&h, now);
    assert_eq!((d.len(), t.len()), (3, 3));
    for (i, s) in h.iter().enumerate() {
        let local = s.start_time.parse::<chrono::DateTime<chrono::Utc>>().unwrap()
            .with_timezone(&chrono::Local);
        assert_eq!(d[i], local.format("%Y-%m-%d").to_string());
        assert_eq!(t[i], local.format("%H:%M").to_string());
        assert_eq!((d[i].len(), t[i].len()), (10, 5));
    }
}

#[test]
fn session_details() {
    let now = at("2024-03-08T00:00:00Z");
    let s = closed("api", "2024-03-06T09:00:00Z", "2024-03-06T10:30:00Z");
    let lines = detail_lines(4, &s, &"start".to_string(), &Some("end".to_string()), now);
    assert_eq!(
        lines,
        vec![
            bold("── Session #4 ──────────────────────"),
            format!("  {} {}", gray("project:"), cyan("api")),
            format!("  {} {}", gray("start:"), "start"),
            format!("  {} {}", gray("end:"), "end"),
            format!("  {} {}", gray("duration:"), "1h 30min"),
            format!("  {} {}", gray("commits:"), 0),
        ]
    );
    let open = detail_lines(1, &s, &"s".to_string(), &None, now);
    assert_eq!(open[3], format!("  {} —", gray("end:")));
}

#[test]
fn unreadable_times_are_shown_as_written() {
    assert_eq!(local_or_raw(&"someday".to_string(), "%H:%M"), "someday");
    assert_eq!(local_or_raw(&"2024-03-06T09:00:00Z".to_string(), "%H:%M").len(), 5);
    let local = "2024-03-06T09:00:00Z".parse::<chrono::DateTime<chrono::Utc>>().unwrap()
        .with_timezone(&chrono::Local);
    assert_eq!(
        local_or_raw(&"2024-03-06T09:00:00Z".to_string(), "%Y-%m-%d %H:%M"),
        local.format("%Y-%m-%d %H:%M").to_string()
    );
}

#[test]
fn editing_messages() {
    assert_eq!(rename_line("a", "b", 0), "No sessions found for project 'a'.");
    assert_eq!(
        rename_line("a", "b", 2),
        format!("{} Renamed {} → {} in 2 session(s)", green("✔"), cyan("a"), cyan("b"))
    );
    assert_eq!(no_session_line(7), "No session #7.");
    assert_eq!(updated_line(3), format!("{} {}", green("✔"), bold("Session #3 updated")));
}
