//! Saved work contexts: what `save` reports and what `restore` shows.
use vstd::prelude::*;
use crate::clock::{date_time_shape, four_digit_year, local_text, parse_utc, utc_reading};
use crate::model::{Context, opt_view};
use crate::style::{bold, bold_text, cyan, cyan_text, gray, gray_text, green, green_text, yellow, yellow_text};
use crate::text::{dec_nat, push_nat, push_str, views};

verus! {

/// A saved context as text.
pub struct ContextView {
    pub saved_at: Seq<char>,
    pub project: Option<Seq<char>>,
    pub branch: Seq<char>,
    pub modified_files: Seq<Seq<char>>,
    pub note: Option<Seq<char>>,
    pub recent_commands: Seq<Seq<char>>,
}

impl View for Context {
    type V = ContextView;

    open spec fn view(&self) -> ContextView {
        ContextView {
            saved_at: self.saved_at@,
            project: opt_view(self.project),
            branch: self.branch@,
            modified_files: views(self.modified_files@),
            note: opt_view(self.note),
            recent_commands: views(self.recent_commands@),
        }
    }
}

/// The lines printed when a context is saved.
pub open spec fn saved_text(branch: Seq<char>, files: nat, note: Option<Seq<char>>) -> Seq<
    Seq<char>,
> {
    seq![
        green_text("✔"@) + " "@ + bold_text("Context saved"@),
        "  "@ + gray_text("branch:"@) + " "@ + cyan_text(branch) + "   "@ + gray_text("files:"@)
            + " "@ + dec_nat(files),
    ] + match note {
        Some(n) => seq!["  "@ + gray_text("note:"@) + " "@ + n],
        None => seq![],
    }
}

/// A modified file as `restore` lists it.
pub open spec fn file_line_text(f: Seq<char>) -> Seq<char> {
    "    "@ + gray_text("▸"@) + " "@ + f
}

/// A command as `restore` lists it.
pub open spec fn command_line_text(c: Seq<char>) -> Seq<char> {
    "    "@ + gray_text("$"@) + " "@ + c
}

/// The commands `restore` lists: the last five, newest first.
pub open spec fn shown_commands(cmds: Seq<Seq<char>>) -> Seq<Seq<char>> {
    let rev = cmds.reverse();
    if rev.len() <= 5 {
        rev
    } else {
        rev.take(5)
    }
}

/// The lines that `restore` prints for a context saved at the local time `saved`.
pub open spec fn restore_text(c: ContextView, saved: Seq<char>) -> Seq<Seq<char>> {
    seq![
        bold_text("── Saved Context ─────────────────────"@),
        "  "@ + gray_text("saved:"@) + " "@ + cyan_text(saved),
    ] + match c.project {
        Some(p) => seq!["  "@ + gray_text("project:"@) + " "@ + bold_text(p)],
        None => seq![],
    } + seq!["  "@ + gray_text("branch:"@) + " "@ + cyan_text(c.branch)] + if c.modified_files.len()
        == 0 {
        seq![]
    } else {
        seq!["  "@ + gray_text("modified:"@) + " "@ + dec_nat(c.modified_files.len())]
            + c.modified_files.map_values(|f: Seq<char>| file_line_text(f))
    } + match c.note {
        Some(n) => seq!["  "@ + gray_text("note:"@) + " "@ + yellow_text(n)],
        None => seq![],
    } + if c.recent_commands.len() == 0 {
        seq![]
    } else {
        seq!["  "@ + gray_text("last commands:"@)] + shown_commands(c.recent_commands).map_values(
            |x: Seq<char>| command_line_text(x),
        )
    } + seq![bold_text("──────────────────────────────────────"@)]
}

/// `restore` lists every modified file of the context, in order, one line each,
/// right after the line that gives their number (which follows the header, the saved
/// time, the project if there is one, and the branch).
pub proof fn law_restore_lists_every_file(c: ContextView, saved: Seq<char>)
    requires
        c.modified_files.len() > 0,
    ensures
        ({
            let l = restore_text(c, saved);
            let b: int = if c.project is Some {
                4
            } else {
                3
            };
            &&& l[b] == "  "@ + gray_text("modified:"@) + " "@ + dec_nat(c.modified_files.len())
            &&& forall|j: int|
                0 <= j < c.modified_files.len() ==> b + 1 + j < l.len() && #[trigger] l[b + 1 + j]
                    == file_line_text(c.modified_files[j])
        }),
{
    let l = restore_text(c, saved);
    let head = seq![
        bold_text("── Saved Context ─────────────────────"@),
        "  "@ + gray_text("saved:"@) + " "@ + cyan_text(saved),
    ] + match c.project {
        Some(p) => seq!["  "@ + gray_text("project:"@) + " "@ + bold_text(p)],
        None => seq![],
    } + seq!["  "@ + gray_text("branch:"@) + " "@ + cyan_text(c.branch)];
    let files = seq!["  "@ + gray_text("modified:"@) + " "@ + dec_nat(c.modified_files.len())]
        + c.modified_files.map_values(|f: Seq<char>| file_line_text(f));
    let tail = match c.note {
        Some(n) => seq!["  "@ + gray_text("note:"@) + " "@ + yellow_text(n)],
        None => seq![],
    } + if c.recent_commands.len() == 0 {
        seq![]
    } else {
        seq!["  "@ + gray_text("last commands:"@)] + shown_commands(c.recent_commands).map_values(
            |x: Seq<char>| command_line_text(x),
        )
    } + seq![bold_text("──────────────────────────────────────"@)];
    assert(l == head + files + tail);
    let b: int = if c.project is Some {
        4
    } else {
        3
    };
    assert(head.len() == b);
    assert(l[b] == files[0]);
    assert forall|j: int| 0 <= j < c.modified_files.len() implies b + 1 + j < l.len() && #[trigger] l[b
        + 1 + j] == file_line_text(c.modified_files[j]) by {
        assert(l[b + 1 + j] == files[1 + j]);
    }
}

/// The lines printed when a context is saved with `files` modified files.
pub fn saved_lines(branch: &str, files: usize, note: &Option<String>) -> (r: Vec<String>)
    ensures
        views(r@) == saved_text(branch@, files as nat, opt_view(*note)),
{
    let mut a = String::new();
    push_str(&mut a, green("✔").as_str());
    push_str(&mut a, " ");
    push_str(&mut a, bold("Context saved").as_str());
    let mut b = String::new();
    push_str(&mut b, "  ");
    push_str(&mut b, gray("branch:").as_str());
    push_str(&mut b, " ");
    push_str(&mut b, cyan(branch).as_str());
    push_str(&mut b, "   ");
    push_str(&mut b, gray("files:").as_str());
    push_str(&mut b, " ");
    push_nat(&mut b, files as u64);
    let mut r: Vec<String> = Vec::new();
    r.push(a);
    r.push(b);
    if let Some(n) = note {
        let mut c = String::new();
        push_str(&mut c, "  ");
        push_str(&mut c, gray("note:").as_str());
        push_str(&mut c, " ");
        push_str(&mut c, n.as_str());
        r.push(c);
    }
    assert(views(r@) =~= saved_text(branch@, files as nat, opt_view(*note)));
    r
}

/// The local time at which a context was saved, as `restore` shows it
/// (`YYYY-MM-DD HH:MM` for the years 0 to 9999; which local time depends on the
/// machine's time zone), or `None` when its time does not parse (`restore` then
/// stops).
pub fn saved_local_time(ctx: &Context) -> (r: Option<String>)
    ensures
        r is Some <==> utc_reading(ctx.saved_at@) is Some,
        r matches Some(t) ==> (four_digit_year((utc_reading(ctx.saved_at@)->0).0) ==> date_time_shape(
            t@,
        )),
{
    match parse_utc(ctx.saved_at.as_str()) {
        Some(t) => local_text(t, "%Y-%m-%d %H:%M"),
        None => None,
    }
}

/// Appends `prefix` + `gray(label)` + ` ` + `rest`.
fn labelled(prefix: &str, label: &str, rest: &str) -> (r: String)
    ensures
        r@ == prefix@ + gray_text(label@) + " "@ + rest@,
{
    let mut r = String::new();
    push_str(&mut r, prefix);
    push_str(&mut r, gray(label).as_str());
    push_str(&mut r, " ");
    push_str(&mut r, rest);
    assert(r@ =~= prefix@ + gray_text(label@) + " "@ + rest@);
    r
}

/// The lines that `restore` prints for `ctx`, saved at the local time `saved`.
#[verifier::spinoff_prover]
#[verifier::rlimit(40)]
pub fn restore_lines(ctx: &Context, saved: &str) -> (r: Vec<String>)
    ensures
        views(r@) == restore_text(ctx@, saved@),
{
    let ghost c = ctx@;
    let mut r: Vec<String> = Vec::new();
    r.push(bold("── Saved Context ─────────────────────"));
    r.push(labelled("  ", "saved:", cyan(saved).as_str()));
    let ghost part1 = views(r@);
    if let Some(p) = &ctx.project {
        r.push(labelled("  ", "project:", bold(p.as_str()).as_str()));
    }
    r.push(labelled("  ", "branch:", cyan(ctx.branch.as_str()).as_str()));
    let ghost part2 = views(r@);
    assert(part2 =~= part1 + match c.project {
        Some(p) => seq!["  "@ + gray_text("project:"@) + " "@ + bold_text(p)],
        None => seq![],
    } + seq!["  "@ + gray_text("branch:"@) + " "@ + cyan_text(c.branch)]);
    if ctx.modified_files.len() > 0 {
        let mut m = String::new();
        push_nat(&mut m, ctx.modified_files.len() as u64);
        r.push(labelled("  ", "modified:", m.as_str()));
        let ghost top = views(r@);
        for k in 0..ctx.modified_files.len()
            invariant
                c == ctx@,
                views(r@) == top + c.modified_files.take(k as int).map_values(
                    |f: Seq<char>| file_line_text(f),
                ),
        {
            let ghost before = views(r@);
            let line = labelled("    ", "▸", ctx.modified_files[k].as_str());
            r.push(line);
            assert(c.modified_files[k as int] == ctx.modified_files@[k as int]@);
            assert(c.modified_files.take(k + 1).map_values(|f: Seq<char>| file_line_text(f))
                =~= c.modified_files.take(k as int).map_values(|f: Seq<char>| file_line_text(f)).push(
                file_line_text(c.modified_files[k as int]),
            ));
            assert(views(r@) =~= before.push(line@));
        }
        assert(c.modified_files.take(ctx.modified_files.len() as int) =~= c.modified_files);
    }
    let ghost part3 = views(r@);
    assert(part3 =~= part2 + if c.modified_files.len() == 0 {
        seq![]
    } else {
        seq!["  "@ + gray_text("modified:"@) + " "@ + dec_nat(c.modified_files.len())]
            + c.modified_files.map_values(|f: Seq<char>| file_line_text(f))
    });
    if let Some(n) = &ctx.note {
        r.push(labelled("  ", "note:", yellow(n.as_str()).as_str()));
    }
    let ghost part4 = views(r@);
    assert(part4 =~= part3 + match c.note {
        Some(n) => seq!["  "@ + gray_text("note:"@) + " "@ + yellow_text(n)],
        None => seq![],
    });
    let n = ctx.recent_commands.len();
    if n > 0 {
        let mut head = String::new();
        push_str(&mut head, "  ");
        push_str(&mut head, gray("last commands:").as_str());
        r.push(head);
        let ghost top = views(r@);
        let ghost shown = shown_commands(c.recent_commands);
        let count = if n < 5 {
            n
        } else {
            5
        };
        assert(shown.len() == count);
        for k in 0..count
            invariant
                c == ctx@,
                n == ctx.recent_commands@.len(),
                count <= n,
                shown == shown_commands(c.recent_commands),
                shown.len() == count,
                views(r@) == top + shown.take(k as int).map_values(
                    |x: Seq<char>| command_line_text(x),
                ),
        {
            let ghost before = views(r@);
            let line = labelled("    ", "$", ctx.recent_commands[n - 1 - k].as_str());
            r.push(line);
            assert(shown[k as int] == c.recent_commands[n - 1 - k]);
            assert(c.recent_commands[n - 1 - k] == ctx.recent_commands@[n - 1 - k]@);
            assert(shown.take(k + 1).map_values(|x: Seq<char>| command_line_text(x))
                =~= shown.take(k as int).map_values(|x: Seq<char>| command_line_text(x)).push(
                command_line_text(shown[k as int]),
            ));
            assert(views(r@) =~= before.push(line@));
        }
        assert(shown.take(count as int) =~= shown);
    }
    let ghost part5 = views(r@);
    assert(part5 =~= part4 + if c.recent_commands.len() == 0 {
        seq![]
    } else {
        seq!["  "@ + gray_text("last commands:"@)] + shown_commands(c.recent_commands).map_values(
            |x: Seq<char>| command_line_text(x),
        )
    });
    r.push(bold("──────────────────────────────────────"));
    assert(views(r@) =~= part5 + seq![bold_text("──────────────────────────────────────"@)]);
    assert(part1 =~= seq![
        bold_text("── Saved Context ─────────────────────"@),
        "  "@ + gray_text("saved:"@) + " "@ + cyan_text(saved@),
    ]);
    r
}

} // verus!
