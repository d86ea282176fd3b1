use chrono::{DateTime, Datelike, NaiveDate, Utc};
use devlog::clock::{
    hours_between, instant_or_fallback, minutes_between, seconds_between, weekday_index, Instant,
};
use devlog::git::{
    branch_from_output, commits_from_log, modified_from_output, parse_history,
    parse_log, parse_status, recent_commands,
};
use devlog::style::{bold, cyan, fmt_duration, fmt_hours_minutes, gray, green, yellow};
use devlog::text::nat_text;

fn at(text: &str) -> Instant {
    let nowhere = Instant { secs: i64::MIN, nanos: 0 };
    let t = instant_or_fallback(text, nowhere);
    assert_ne!(t.secs, i64::MIN, "a valid time");
    t
}

#[test]
fn duration_below_an_hour() {
    assert_eq!(fmt_duration(0), "0min");
    assert_eq!(fmt_duration(45), "45min");
    assert_eq!(fmt_duration(59), "59min");
}

#[test]
fn duration_of_hours() {
    assert_eq!(fmt_duration(60), "1h 0min");
    assert_eq!(fmt_duration(135), "2h 15min");
    assert_eq!(fmt_duration(6001), "100h 1min");
}

#[test]
fn duration_negative() {
    assert_eq!(fmt_duration(-5), "-5min");
    assert_eq!(fmt_duration(-125), "-125min");
}

#[test]
fn hours_minutes_zero_padded() {
    assert_eq!(fmt_hours_minutes(65), "1h 05min");
    assert_eq!(fmt_hours_minutes(600), "10h 00min");
    assert_eq!(fmt_hours_minutes(-5), "0h -5min");
    assert_eq!(fmt_hours_minutes(-130), "-2h -10min");
}

#[test]
fn colours_wrap_text() {
    assert_eq!(cyan("x"), "\x1b[36mx\x1b[0m");
    assert_eq!(bold("Total"), "\x1b[1mTotal\x1b[0m");
    assert_eq!(green("●"), "\x1b[32m●\x1b[0m");
    assert_eq!(gray(""), "\x1b[90m\x1b[0m");
    assert_eq!(yellow("note"), "\x1b[33mnote\x1b[0m");
}

#[test]
fn decimal_text() {
    assert_eq!(nat_text(0), "0");
    assert_eq!(nat_text(7), "7");
    assert_eq!(nat_text(1234567890), "1234567890");
    assert_eq!(nat_text(u64::MAX), u64::MAX.to_string());
}

#[test]
fn parses_rfc3339() {
    let t = at("2024-01-01T00:00:00Z");
    assert_eq!(t.secs, 1704067200);
    assert_eq!(t.nanos, 0);
    let u = at("2024-01-01T01:00:00.5+01:00");
    assert_eq!(u.secs, 1704067200);
    assert_eq!(u.nanos, 500_000_000);
}

#[test]
fn parses_relaxed_forms() {
    assert_eq!(at("2012-12-12 12:12:12Z").secs, at("2012-12-12T12:12:12Z").secs);
    assert_eq!(at("2012-12-12 12:12:12+0000").secs, at("2012-12-12T12:12:12Z").secs);
}

#[test]
fn refuses_bad_times() {
    let fallback = Instant { secs: 42, nanos: 7 };
    for text in ["yesterday", "", "2024-13-01T00:00:00Z"] {
        let t = instant_or_fallback(text, fallback);
        assert_eq!((t.secs, t.nanos), (42, 7));
    }
}

#[test]
fn elapsed_matches_chrono() {
    let texts = [
        "2024-03-01T10:00:00Z",
        "2024-03-01T10:00:00.250Z",
        "2024-03-01T10:59:59.999Z",
        "2024-03-01T11:30:00.5Z",
        "2023-12-31T23:59:59Z",
        "1969-12-31T23:59:59.75Z",
        "2024-03-02T09:00:00Z",
        "2016-12-31T23:59:60.5Z",
        "2017-01-01T00:00:00.25Z",
    ];
    for a in texts.iter() {
        for b in texts.iter() {
            let da: DateTime<Utc> = a.parse().unwrap();
            let db: DateTime<Utc> = b.parse().unwrap();
            let d = db - da;
            let (ia, ib) = (at(a), at(b));
            assert_eq!(seconds_between(ia, ib), d.num_seconds() as i128, "{} -> {}", a, b);
            assert_eq!(minutes_between(ia, ib), d.num_minutes(), "{} -> {}", a, b);
            assert_eq!(hours_between(ia, ib), d.num_hours(), "{} -> {}", a, b);
        }
    }
}

#[test]
fn elapsed_exact_values() {
    let a = at("2024-03-01T10:00:00Z");
    let b = at("2024-03-01T11:30:59Z");
    assert_eq!(minutes_between(a, b), 90);
    assert_eq!(minutes_between(b, a), -90);
    assert_eq!(hours_between(a, b), 1);
    assert_eq!(seconds_between(a, b), 5459);
}

#[test]
fn weekday_matches_chrono() {
    for (y, m, d) in [(2024, 1, 1), (2024, 2, 29), (1970, 1, 1), (2000, 12, 31), (1, 1, 1)] {
        let date = NaiveDate::from_ymd_opt(y, m, d).unwrap();
        let day = date.num_days_from_ce() as i64;
        assert_eq!(
            weekday_index(day),
            date.weekday().num_days_from_monday() as usize,
            "{}",
            date
        );
    }
    assert_eq!(weekday_index(1), 0);
}

#[test]
fn log_lines_become_commits() {
    let commits = parse_log("abc123 Fix the parser\n\ndef456 Add tests\r\nfff\n", "main");
    assert_eq!(commits.len(), 3);
    assert_eq!(commits[0].hash, "abc123");
    assert_eq!(commits[0].message, "Fix the parser");
    assert_eq!(commits[0].branch, "main");
    assert_eq!(commits[1].hash, "def456");
    assert_eq!(commits[1].message, "Add tests");
    assert_eq!(commits[2].hash, "fff");
    assert_eq!(commits[2].message, "");
}

#[test]
fn log_message_keeps_later_spaces() {
    let commits = parse_log("a1  two  spaces ", "dev");
    assert_eq!(commits.len(), 1);
    assert_eq!(commits[0].hash, "a1");
    assert_eq!(commits[0].message, " two  spaces ");
}

#[test]
fn failed_log_gives_no_commits() {
    assert!(commits_from_log(None, "main").is_empty());
    let c = commits_from_log(Some(b"0a1b2c3 Initial commit\n"), "main");
    assert_eq!(c.len(), 1);
    assert_eq!(c[0].message, "Initial commit");
}

#[test]
fn branch_is_trimmed() {
    assert_eq!(branch_from_output(Some(b"  feature/x \n")), "feature/x");
    assert_eq!(branch_from_output(Some(b"main\r\n")), "main");
    assert_eq!(branch_from_output(None), "unknown");
    assert_eq!(branch_from_output(Some(b"")), "");
}

#[test]
fn lossy_decoding_replaces_bad_bytes() {
    assert_eq!(branch_from_output(Some(b"ok")), "ok");
    assert_eq!(branch_from_output(Some(&[0x66, 0xff, 0x67])), "f\u{fffd}g");
    assert_eq!(branch_from_output(Some(&[0x6d, 0xc3, 0x28])), "m\u{fffd}(");
}

#[test]
fn status_lines_are_trimmed_files() {
    let files = parse_status(" M src/main.rs\n?? notes.txt\n\n   \nA  b.rs");
    assert_eq!(files, vec!["M src/main.rs", "?? notes.txt", "", "A  b.rs"]);
    assert_eq!(modified_from_output(None), Vec::<String>::new());
    assert_eq!(modified_from_output(Some(b" D gone.rs\n")), vec!["D gone.rs"]);
}

#[test]
fn history_commands_skip_comments_and_blank_lines() {
    let src = "ls -la\n#1700000000\n\ncargo build\n: 1700000000:0;git status\n: 1700000001:0\n";
    let cmds = parse_history(src);
    assert_eq!(cmds, vec!["ls -la", "cargo build", "git status", ": 1700000001:0"]);
}

#[test]
fn zsh_entries_keep_text_after_first_semicolon() {
    let cmds = parse_history(": 1:0;echo a; echo b\n:no-space;x\n");
    assert_eq!(cmds, vec!["echo a; echo b", ":no-space;x"]);
}

#[test]
fn recent_commands_are_the_last_n() {
    let src = "a\nb\nc\nd\n";
    assert_eq!(recent_commands(src, 2), vec!["c", "d"]);
    assert_eq!(recent_commands(src, 10), vec!["a", "b", "c", "d"]);
    assert_eq!(recent_commands(src, 0), Vec::<String>::new());
    assert_eq!(recent_commands("", 3), Vec::<String>::new());
}
