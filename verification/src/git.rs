//! Reading what `git` and the shell history report: the current branch, the
//! commits of `git log --oneline`, the files of `git status --porcelain`, and
//! the most recent shell commands.
use vstd::prelude::*;
use vstd::utf8::{decode_utf8, valid_utf8};
use crate::model::{Commit, CommitView};
use crate::text::{
    after_first, before_first, chars_of, first_index, lemma_first_index_props, find_char, line_ranges, lines_of, string_of_range, trim,
    trim_range, views,
};

verus! {

/// What `String::from_utf8_lossy` makes of `bytes`.
pub uninterp spec fn lossy_utf8(bytes: Seq<u8>) -> Seq<char>;

/// Decodes bytes as UTF-8, replacing what is not (std `String::from_utf8_lossy`).
/// The contract claims that the result is `lossy_utf8` of the bytes, and, as the
/// documentation says, that valid UTF-8 comes back unchanged.
#[verifier::external_body]
pub(crate) fn decode_lossy(bytes: &[u8]) -> (s: String)
    ensures
        s@ == lossy_utf8(bytes@),
        valid_utf8(bytes@) ==> s@ == decode_utf8(bytes@),
{
    String::from_utf8_lossy(bytes).into_owned()
}

/// A non-empty line.
pub open spec fn is_filled(l: Seq<char>) -> bool {
    l.len() > 0
}

/// The non-empty lines of `s`.
pub open spec fn filled_lines(s: Seq<char>) -> Seq<Seq<char>> {
    lines_of(s).filter(|l: Seq<char>| is_filled(l))
}

/// The commit that a line of `git log --oneline` names: the hash before the
/// first space, the message after it (empty without a space).
pub open spec fn commit_of_line(line: Seq<char>, branch: Seq<char>) -> CommitView {
    CommitView {
        hash: before_first(line, ' '),
        message: match after_first(line, ' ') {
            Some(m) => m,
            None => seq![],
        },
        branch,
    }
}

/// The commits of the output of `git log --oneline`, one per non-empty line.
pub open spec fn log_commits(out: Seq<char>, branch: Seq<char>) -> Seq<CommitView> {
    filled_lines(out).map_values(|l: Seq<char>| commit_of_line(l, branch))
}

/// The files of the output of `git status --porcelain`: each non-empty line, trimmed.
pub open spec fn status_files(out: Seq<char>) -> Seq<Seq<char>> {
    filled_lines(out).map_values(|l: Seq<char>| trim(l))
}

/// A history line that holds a command: not empty and not a `#` comment.
pub open spec fn is_command_line(l: Seq<char>) -> bool {
    l.len() > 0 && l[0] != '#'
}

/// The command of a history line: for a zsh extended entry (`: <time>:<n>;<cmd>`)
/// what follows the first `;`, else the line itself.
pub open spec fn command_of_line(l: Seq<char>) -> Seq<char> {
    if l.len() >= 2 && l[0] == ':' && l[1] == ' ' {
        match after_first(l, ';') {
            Some(c) => c,
            None => l,
        }
    } else {
        l
    }
}

/// All commands of a shell history, oldest first.
pub open spec fn history_commands(source: Seq<char>) -> Seq<Seq<char>> {
    lines_of(source).filter(|l: Seq<char>| is_command_line(l)).map_values(
        |l: Seq<char>| command_of_line(l),
    )
}

/// The last `n` commands of a shell history (all of them when there are fewer).
pub open spec fn last_commands(source: Seq<char>, n: nat) -> Seq<Seq<char>> {
    let all = history_commands(source);
    if all.len() <= n {
        all
    } else {
        all.skip(all.len() - n)
    }
}

/// The branch that `git rev-parse --abbrev-ref HEAD` printed, trimmed, or `unknown`
/// when the command could not run.
pub open spec fn branch_text(stdout: Option<Seq<u8>>) -> Seq<char> {
    match stdout {
        Some(b) => trim(lossy_utf8(b)),
        None => "unknown"@,
    }
}

/// The filtered list grows by the next element when it passes.
pub proof fn lemma_filter_step(s: Seq<Seq<char>>, k: int, p: spec_fn(Seq<char>) -> bool)
    requires
        0 <= k < s.len(),
    ensures
        s.take(k + 1).filter(p) == if p(s[k]) {
            s.take(k).filter(p).push(s[k])
        } else {
            s.take(k).filter(p)
        },
{
    reveal(Seq::filter);
    assert(s.take(k + 1).drop_last() =~= s.take(k));
}

/// The commits listed in the output of `git log --oneline`, each on `branch`.
pub fn parse_log(out: &str, branch: &str) -> (r: Vec<Commit>)
    ensures
        r@.map_values(|c: Commit| c@) == log_commits(out@, branch@),
{
    let v = chars_of(out);
    let ranges = line_ranges(&v);
    let ghost ls = lines_of(v@);
    let ghost p = |l: Seq<char>| is_filled(l);
    let ghost f = |l: Seq<char>| commit_of_line(l, branch@);
    let mut r: Vec<Commit> = Vec::new();
    assert(ls.take(0) =~= Seq::<Seq<char>>::empty());
    for k in 0..ranges.len()
        invariant
            ls == lines_of(v@),
            v@ == out@,
            ranges@.len() == ls.len(),
            forall|j: int|
                #![trigger ranges@[j]]
                0 <= j < ranges@.len() ==> ranges@[j].0 <= ranges@[j].1 <= v@.len()
                    && v@.subrange(ranges@[j].0 as int, ranges@[j].1 as int) == ls[j],
            r@.map_values(|c: Commit| c@) == ls.take(k as int).filter(p).map_values(f),
            p == (|l: Seq<char>| is_filled(l)),
            f == (|l: Seq<char>| commit_of_line(l, branch@)),
    {
        let ghost before = r@.map_values(|c: Commit| c@);
        proof {
            lemma_filter_step(ls, k as int, p);
        }
        let (a, b) = ranges[k];
        assert(v@.subrange(a as int, b as int) == ls[k as int]);
        if a < b {
            let sp = find_char(&v, a, b, ' ');
            let hash = string_of_range(&v, a, sp);
            let message = if sp < b {
                string_of_range(&v, sp + 1, b)
            } else {
                String::new()
            };
            let ghost line = ls[k as int];
            assert(hash@ =~= before_first(line, ' '));
            if sp < b {
                assert(message@ =~= line.skip(sp - a + 1));
            } else {
                assert(message@ =~= Seq::<char>::empty());
            }
            r.push(Commit { hash, message, branch: String::from_str(branch) });
            assert(r@.map_values(|c: Commit| c@) =~= before.push(f(line)));
        } else {
            assert(r@.map_values(|c: Commit| c@) =~= before);
        }
    }
    assert(ls.take(ranges.len() as int) =~= ls);
    r
}

/// The commits listed by `git log --oneline`, given its standard output when the
/// command succeeded, each on `branch`; none when it failed.
pub fn commits_from_log(stdout: Option<&[u8]>, branch: &str) -> (r: Vec<Commit>)
    ensures
        r@.map_values(|c: Commit| c@) == match stdout {
            Some(b) => log_commits(lossy_utf8(b@), branch@),
            None => seq![],
        },
{
    match stdout {
        Some(b) => {
            let text = decode_lossy(b);
            parse_log(text.as_str(), branch)
        },
        None => {
            let r: Vec<Commit> = Vec::new();
            assert(r@.map_values(|c: Commit| c@) =~= Seq::<CommitView>::empty());
            r
        },
    }
}

/// The current branch from the standard output of `git rev-parse --abbrev-ref HEAD`,
/// trimmed, or `unknown` when the command could not run.
pub fn branch_from_output(stdout: Option<&[u8]>) -> (r: String)
    ensures
        r@ == branch_text(
            match stdout {
                Some(b) => Some(b@),
                None => None,
            },
        ),
{
    match stdout {
        Some(b) => {
            let text = decode_lossy(b);
            let v = chars_of(text.as_str());
            let (lo, hi) = trim_range(&v, 0, v.len());
            assert(v@.subrange(0, v@.len() as int) =~= v@);
            string_of_range(&v, lo, hi)
        },
        None => String::from_str("unknown"),
    }
}

/// The files listed in the output of `git status --porcelain`: each non-empty
/// line, trimmed.
pub fn parse_status(out: &str) -> (r: Vec<String>)
    ensures
        views(r@) == status_files(out@),
{
    let v = chars_of(out);
    let ranges = line_ranges(&v);
    let ghost ls = lines_of(v@);
    let ghost p = |l: Seq<char>| is_filled(l);
    let ghost f = |l: Seq<char>| trim(l);
    let mut r: Vec<String> = Vec::new();
    assert(ls.take(0) =~= Seq::<Seq<char>>::empty());
    for k in 0..ranges.len()
        invariant
            ls == lines_of(v@),
            v@ == out@,
            ranges@.len() == ls.len(),
            forall|j: int|
                #![trigger ranges@[j]]
                0 <= j < ranges@.len() ==> ranges@[j].0 <= ranges@[j].1 <= v@.len()
                    && v@.subrange(ranges@[j].0 as int, ranges@[j].1 as int) == ls[j],
            views(r@) == ls.take(k as int).filter(p).map_values(f),
            p == (|l: Seq<char>| is_filled(l)),
            f == (|l: Seq<char>| trim(l)),
    {
        let ghost before = views(r@);
        proof {
            lemma_filter_step(ls, k as int, p);
        }
        let (a, b) = ranges[k];
        assert(v@.subrange(a as int, b as int) == ls[k as int]);
        if a < b {
            let (lo, hi) = trim_range(&v, a, b);
            let s = string_of_range(&v, lo, hi);
            r.push(s);
            assert(views(r@) =~= before.push(f(ls[k as int])));
        } else {
            assert(views(r@) =~= before);
        }
    }
    assert(ls.take(ranges.len() as int) =~= ls);
    r
}

/// The modified files, given the standard output of `git status --porcelain` when
/// the command could run; none when it could not.
pub fn modified_from_output(stdout: Option<&[u8]>) -> (r: Vec<String>)
    ensures
        views(r@) == match stdout {
            Some(b) => status_files(lossy_utf8(b@)),
            None => seq![],
        },
{
    match stdout {
        Some(b) => {
            let text = decode_lossy(b);
            parse_status(text.as_str())
        },
        None => {
            let r: Vec<String> = Vec::new();
            assert(views(r@) =~= Seq::<Seq<char>>::empty());
            r
        },
    }
}

/// The commands of a shell history, oldest first.
pub fn parse_history(source: &str) -> (r: Vec<String>)
    ensures
        views(r@) == history_commands(source@),
{
    let v = chars_of(source);
    let ranges = line_ranges(&v);
    let ghost ls = lines_of(v@);
    let ghost p = |l: Seq<char>| is_command_line(l);
    let ghost f = |l: Seq<char>| command_of_line(l);
    let mut r: Vec<String> = Vec::new();
    assert(ls.take(0) =~= Seq::<Seq<char>>::empty());
    for k in 0..ranges.len()
        invariant
            ls == lines_of(v@),
            v@ == source@,
            ranges@.len() == ls.len(),
            forall|j: int|
                #![trigger ranges@[j]]
                0 <= j < ranges@.len() ==> ranges@[j].0 <= ranges@[j].1 <= v@.len()
                    && v@.subrange(ranges@[j].0 as int, ranges@[j].1 as int) == ls[j],
            views(r@) == ls.take(k as int).filter(p).map_values(f),
            p == (|l: Seq<char>| is_command_line(l)),
            f == (|l: Seq<char>| command_of_line(l)),
    {
        let ghost before = views(r@);
        proof {
            lemma_filter_step(ls, k as int, p);
        }
        let (a, b) = ranges[k];
        let ghost line = ls[k as int];
        assert(v@.subrange(a as int, b as int) == line);
        if a < b && v[a] != '#' {
            let s = if b - a >= 2 && v[a] == ':' && v[a + 1] == ' ' {
                let semi = find_char(&v, a, b, ';');
                if semi < b {
                    let t = string_of_range(&v, semi + 1, b);
                    assert(t@ =~= line.skip(semi - a + 1));
                    t
                } else {
                    string_of_range(&v, a, b)
                }
            } else {
                string_of_range(&v, a, b)
            };
            r.push(s);
            assert(views(r@) =~= before.push(f(line)));
        } else {
            assert(views(r@) =~= before);
        }
    }
    assert(ls.take(ranges.len() as int) =~= ls);
    r
}

/// The last `n` commands of a shell history, oldest first.
pub fn recent_commands(source: &str, n: usize) -> (r: Vec<String>)
    ensures
        views(r@) == last_commands(source@, n as nat),
        r@.len() <= n,
{
    let all = parse_history(source);
    let start = all.len().saturating_sub(n);
    let mut r: Vec<String> = Vec::new();
    let mut i = start;
    while i < all.len()
        invariant
            start <= i <= all@.len(),
            start == if all@.len() >= n {
                all@.len() - n
            } else {
                0
            },
            views(r@) == views(all@).subrange(start as int, i as int),
        decreases all.len() - i,
    {
        let ghost before = views(r@);
        let c = all[i].clone();
        r.push(c);
        assert(views(r@) =~= before.push(views(all@)[i as int]));
        i += 1;
        assert(views(r@) =~= views(all@).subrange(start as int, i as int));
    }
    assert(views(all@).subrange(start as int, all@.len() as int) =~= last_commands(
        source@,
        n as nat,
    ));
    r
}

/// A `git log --oneline` line holding a space is its commit's hash, that space,
/// and its message; the hash holds no space.
pub proof fn law_log_line_rebuilt(line: Seq<char>, branch: Seq<char>)
    requires
        line.contains(' '),
    ensures
        commit_of_line(line, branch).hash + seq![' '] + commit_of_line(line, branch).message
            == line,
        !commit_of_line(line, branch).hash.contains(' '),
{
    lemma_first_index_props(line, ' ');
    let i = first_index(line, ' ');
    let w = choose|w: int| 0 <= w < line.len() && line[w] == ' ';
    assert(i <= w);
    let c = commit_of_line(line, branch);
    assert(c.hash + seq![' '] + c.message =~= line);
}

} // verus!
