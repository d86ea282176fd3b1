//! Terminal colours and the way durations are written.
use vstd::prelude::*;
use crate::text::{dec_int, dec_zero2, push_int, push_str, push_zero2, tdiv, trem};

verus! {

/// `s` in cyan.
pub open spec fn cyan_text(s: Seq<char>) -> Seq<char> {
    "\x1b[36m"@ + s + "\x1b[0m"@
}

/// `s` in bold.
pub open spec fn bold_text(s: Seq<char>) -> Seq<char> {
    "\x1b[1m"@ + s + "\x1b[0m"@
}

/// `s` in green.
pub open spec fn green_text(s: Seq<char>) -> Seq<char> {
    "\x1b[32m"@ + s + "\x1b[0m"@
}

/// `s` in gray.
pub open spec fn gray_text(s: Seq<char>) -> Seq<char> {
    "\x1b[90m"@ + s + "\x1b[0m"@
}

/// `s` in yellow.
pub open spec fn yellow_text(s: Seq<char>) -> Seq<char> {
    "\x1b[33m"@ + s + "\x1b[0m"@
}

/// A number of minutes as `42min` below an hour, else as `1h 5min`.
pub open spec fn duration_text(mins: int) -> Seq<char> {
    if mins < 60 {
        dec_int(mins) + "min"@
    } else {
        dec_int(mins / 60) + "h "@ + dec_int(mins % 60) + "min"@
    }
}

/// Minutes as hours and zero-padded minutes: `1h 05min` (signs kept as Rust's `/`, `%`).
pub open spec fn hours_minutes_text(mins: int) -> Seq<char> {
    dec_int(tdiv(mins, 60)) + "h "@ + dec_zero2(trem(mins, 60)) + "min"@
}

/// Wraps `s` between two escape sequences.
fn wrap(open: &str, s: &str) -> (r: String)
    ensures
        r@ == open@ + s@ + "\x1b[0m"@,
{
    let mut r = String::new();
    push_str(&mut r, open);
    push_str(&mut r, s);
    push_str(&mut r, "\x1b[0m");
    assert(r@ =~= open@ + s@ + "\x1b[0m"@);
    r
}

/// `s` in cyan.
pub fn cyan(s: &str) -> (r: String)
    ensures
        r@ == cyan_text(s@),
{
    wrap("\x1b[36m", s)
}

/// `s` in bold.
pub fn bold(s: &str) -> (r: String)
    ensures
        r@ == bold_text(s@),
{
    wrap("\x1b[1m", s)
}

/// `s` in green.
pub fn green(s: &str) -> (r: String)
    ensures
        r@ == green_text(s@),
{
    wrap("\x1b[32m", s)
}

/// `s` in gray.
pub fn gray(s: &str) -> (r: String)
    ensures
        r@ == gray_text(s@),
{
    wrap("\x1b[90m", s)
}

/// `s` in yellow.
pub fn yellow(s: &str) -> (r: String)
    ensures
        r@ == yellow_text(s@),
{
    wrap("\x1b[33m", s)
}

/// A number of minutes as `42min` below an hour, else as `1h 5min`.
pub fn fmt_duration(mins: i64) -> (r: String)
    ensures
        r@ == duration_text(mins as int),
{
    let mut r = String::new();
    if mins < 60 {
        push_int(&mut r, mins as i128);
        push_str(&mut r, "min");
    } else {
        push_int(&mut r, (mins / 60) as i128);
        push_str(&mut r, "h ");
        push_int(&mut r, (mins % 60) as i128);
        push_str(&mut r, "min");
    }
    assert(r@ =~= duration_text(mins as int));
    r
}

/// Minutes as hours and zero-padded minutes, `1h 05min`.
pub fn fmt_hours_minutes(mins: i64) -> (r: String)
    ensures
        r@ == hours_minutes_text(mins as int),
{
    let mut r = String::new();
    push_int(&mut r, (mins / 60) as i128);
    push_str(&mut r, "h ");
    push_zero2(&mut r, (mins % 60) as i128);
    push_str(&mut r, "min");
    assert(r@ =~= hours_minutes_text(mins as int));
    r
}

} // verus!
