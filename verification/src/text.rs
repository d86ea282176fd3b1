//! Character-level text handling: line splitting, trimming, splitting at a
//! separator, decimal rendering and padding, each stated over `Seq<char>`.
use vstd::prelude::*;

verus! {

// ── Specifications ───────────────────────────────────────────────────────────

/// `n` copies of `c`.
pub open spec fn repeat(c: char, n: nat) -> Seq<char> {
    Seq::new(n, |i: int| c)
}

/// `s` followed by spaces up to `width` characters (`{:<width}`).
pub open spec fn pad_right(s: Seq<char>, width: nat) -> Seq<char> {
    if s.len() >= width {
        s
    } else {
        s + repeat(' ', (width - s.len()) as nat)
    }
}

/// Spaces up to `width` characters followed by `s` (`{:>width}`, the default for numbers).
pub open spec fn pad_left(s: Seq<char>, width: nat) -> Seq<char> {
    if s.len() >= width {
        s
    } else {
        repeat(' ', (width - s.len()) as nat) + s
    }
}

/// The decimal digit character for `d < 10`.
pub open spec fn digit(d: nat) -> char {
    ((48 + d) as u32) as char
}

/// The decimal representation of a natural number, without leading zeros.
pub open spec fn dec_nat(n: nat) -> Seq<char>
    decreases n,
{
    if n < 10 {
        seq![digit(n)]
    } else {
        dec_nat(n / 10).push(digit(n % 10))
    }
}

/// The decimal representation of an integer, with a leading `-` when negative (`{}`).
pub open spec fn dec_int(i: int) -> Seq<char> {
    if i < 0 {
        seq!['-'] + dec_nat((-i) as nat)
    } else {
        dec_nat(i as nat)
    }
}

/// An integer zero-padded to two characters, the sign counted (`{:02}`).
pub open spec fn dec_zero2(i: int) -> Seq<char> {
    if 0 <= i < 10 {
        seq!['0'] + dec_nat(i as nat)
    } else {
        dec_int(i)
    }
}

/// Integer division rounding toward zero, as Rust's `/` on integers does.
pub open spec fn tdiv(a: int, b: int) -> int
    recommends
        b > 0,
{
    if a >= 0 {
        a / b
    } else {
        -((-a) / b)
    }
}

/// Remainder of `tdiv`, with the sign of `a`, as Rust's `%` on integers.
pub open spec fn trem(a: int, b: int) -> int
    recommends
        b > 0,
{
    a - b * tdiv(a, b)
}

/// Unicode `White_Space`, the property behind `char::is_whitespace`.
pub open spec fn is_space(c: char) -> bool {
    let u = c as u32;
    ||| 0x9 <= u <= 0xd
    ||| u == 0x20
    ||| u == 0x85
    ||| u == 0xa0
    ||| u == 0x1680
    ||| 0x2000 <= u <= 0x200a
    ||| u == 0x2028
    ||| u == 0x2029
    ||| u == 0x202f
    ||| u == 0x205f
    ||| u == 0x3000
}

/// `s` without its leading whitespace.
pub open spec fn trim_start(s: Seq<char>) -> Seq<char>
    decreases s.len(),
{
    if s.len() > 0 && is_space(s[0]) {
        trim_start(s.drop_first())
    } else {
        s
    }
}

/// `s` without its trailing whitespace.
pub open spec fn trim_end(s: Seq<char>) -> Seq<char>
    decreases s.len(),
{
    if s.len() > 0 && is_space(s.last()) {
        trim_end(s.drop_last())
    } else {
        s
    }
}

/// `s` without leading and trailing whitespace (`str::trim`).
pub open spec fn trim(s: Seq<char>) -> Seq<char> {
    trim_end(trim_start(s))
}

/// `line` without one trailing carriage return.
pub open spec fn strip_cr(line: Seq<char>) -> Seq<char> {
    if line.len() > 0 && line.last() == '\r' {
        line.drop_last()
    } else {
        line
    }
}

/// Reading `s` from the left: the lines completed so far, and the line in progress.
pub open spec fn line_scan(s: Seq<char>) -> (Seq<Seq<char>>, Seq<char>)
    decreases s.len(),
{
    if s.len() == 0 {
        (seq![], seq![])
    } else {
        let (done, cur) = line_scan(s.drop_last());
        if s.last() == '\n' {
            (done.push(strip_cr(cur)), seq![])
        } else {
            (done, cur.push(s.last()))
        }
    }
}

/// The lines of `s` as `str::lines` yields them: split at `\n`, a `\r` right before
/// the `\n` dropped, and no empty line after a final `\n`.
pub open spec fn lines_of(s: Seq<char>) -> Seq<Seq<char>> {
    let (done, cur) = line_scan(s);
    if cur.len() > 0 {
        done.push(cur)
    } else {
        done
    }
}

/// Index of the first `c` in `s`, or `s.len()` when there is none.
pub open spec fn first_index(s: Seq<char>, c: char) -> int
    decreases s.len(),
{
    if s.len() == 0 {
        0
    } else if s[0] == c {
        0
    } else {
        1 + first_index(s.drop_first(), c)
    }
}

/// The first piece of `s.splitn(2, c)`: everything before the first `c`.
pub open spec fn before_first(s: Seq<char>, c: char) -> Seq<char> {
    s.take(first_index(s, c))
}

/// The second piece of `s.splitn(2, c)`: everything after the first `c`, if there is one.
pub open spec fn after_first(s: Seq<char>, c: char) -> Option<Seq<char>> {
    if first_index(s, c) < s.len() {
        Some(s.skip(first_index(s, c) + 1))
    } else {
        None
    }
}

/// The characters of a sequence of strings.
pub open spec fn views(v: Seq<String>) -> Seq<Seq<char>> {
    v.map_values(|s: String| s@)
}

// ── Lemmas ───────────────────────────────────────────────────────────────────

/// `first_index` is the position of the first occurrence.
pub proof fn lemma_first_index(s: Seq<char>, c: char, i: int)
    requires
        0 <= i <= s.len(),
        forall|k: int| 0 <= k < i ==> s[k] != c,
        i < s.len() ==> s[i] == c,
    ensures
        first_index(s, c) == i,
    decreases s.len(),
{
    if s.len() > 0 && s[0] != c {
        lemma_first_index(s.drop_first(), c, i - 1);
    }
}

/// What `first_index` returns: a position no later than the end, with no `c`
/// before it, and `c` at it unless it is the end.
pub proof fn lemma_first_index_props(s: Seq<char>, c: char)
    ensures
        0 <= first_index(s, c) <= s.len(),
        forall|k: int| 0 <= k < first_index(s, c) ==> s[k] != c,
        first_index(s, c) < s.len() ==> s[first_index(s, c)] == c,
    decreases s.len(),
{
    if s.len() > 0 && s[0] != c {
        lemma_first_index_props(s.drop_first(), c);
        assert forall|k: int| 0 <= k < first_index(s, c) implies s[k] != c by {
            if k > 0 {
                assert(s[k] == s.drop_first()[k - 1]);
            }
        }
    }
}

/// A decimal rendering is never empty.
pub proof fn lemma_dec_nat_len(n: nat)
    ensures
        dec_nat(n).len() >= 1,
    decreases n,
{
    if n >= 10 {
        lemma_dec_nat_len(n / 10);
    }
}

/// Trimming one leading character more.
proof fn lemma_trim_start_step(s: Seq<char>, i: int)
    requires
        0 <= i < s.len(),
        is_space(s[i]),
    ensures
        trim_start(s.skip(i)) == trim_start(s.skip(i + 1)),
{
    assert(s.skip(i).drop_first() =~= s.skip(i + 1));
}

/// Trimming one trailing character more.
proof fn lemma_trim_end_step(s: Seq<char>, j: int)
    requires
        0 < j <= s.len(),
        is_space(s[j - 1]),
    ensures
        trim_end(s.take(j)) == trim_end(s.take(j - 1)),
{
    assert(s.take(j).drop_last() =~= s.take(j - 1));
}

// ── Executable helpers ───────────────────────────────────────────────────────

/// Appends one character (std `String::push`).
#[verifier::external_body]
pub(crate) fn push_char(s: &mut String, c: char)
    ensures
        final(s)@ == old(s)@.push(c),
{
    s.push(c);
}

/// The characters of `s`, in order.
pub fn chars_of(s: &str) -> (r: Vec<char>)
    ensures
        r@ == s@,
{
    let mut r: Vec<char> = Vec::new();
    for c in it: s.chars()
        invariant
            r@ == it.seq().take(it.index() as int),
    {
        r.push(c);
    }
    r
}

/// The characters `v[lo..hi]` as a `String`.
pub fn string_of_range(v: &Vec<char>, lo: usize, hi: usize) -> (s: String)
    requires
        lo <= hi <= v.len(),
    ensures
        s@ == v@.subrange(lo as int, hi as int),
{
    let mut s = String::new();
    let mut i = lo;
    while i < hi
        invariant
            lo <= i <= hi <= v.len(),
            s@ == v@.subrange(lo as int, i as int),
        decreases hi - i,
    {
        push_char(&mut s, v[i]);
        i += 1;
        assert(s@ =~= v@.subrange(lo as int, i as int));
    }
    s
}

/// Appends `t` to `s`.
pub(crate) fn push_str(s: &mut String, t: &str)
    ensures
        final(s)@ == old(s)@ + t@,
{
    s.append(t);
}

/// Appends `n` copies of `c`.
pub(crate) fn push_repeat(s: &mut String, c: char, n: usize)
    ensures
        final(s)@ == old(s)@ + repeat(c, n as nat),
{
    let ghost start = s@;
    let mut i: usize = 0;
    while i < n
        invariant
            i <= n,
            s@ == start + repeat(c, i as nat),
        decreases n - i,
    {
        push_char(s, c);
        i += 1;
        assert(s@ =~= start + repeat(c, i as nat));
    }
}

/// The decimal digit character of `d`.
fn digit_of(d: u64) -> (c: char)
    requires
        d < 10,
    ensures
        c == digit(d as nat),
{
    let b: u8 = 48 + d as u8;
    b as char
}

/// Appends the decimal representation of `n`.
pub(crate) fn push_nat(s: &mut String, n: u64)
    ensures
        final(s)@ == old(s)@ + dec_nat(n as nat),
    decreases n,
{
    let ghost start = s@;
    if n >= 10 {
        push_nat(s, n / 10);
    }
    push_char(s, digit_of(n % 10));
    assert(s@ =~= start + dec_nat(n as nat));
}

/// Appends the decimal representation of `n` (`{}`).
pub(crate) fn push_int(s: &mut String, n: i128)
    requires
        -0x1_0000_0000_0000_0000 < n < 0x1_0000_0000_0000_0000,
    ensures
        final(s)@ == old(s)@ + dec_int(n as int),
{
    let ghost start = s@;
    if n < 0 {
        push_char(s, '-');
        let m: u64 = (0 - n) as u64;
        push_nat(s, m);
        assert(s@ =~= start + dec_int(n as int));
    } else {
        push_nat(s, n as u64);
    }
}

/// Appends `n` zero-padded to two characters (`{:02}`).
pub(crate) fn push_zero2(s: &mut String, n: i128)
    requires
        -0x1_0000_0000_0000_0000 < n < 0x1_0000_0000_0000_0000,
    ensures
        final(s)@ == old(s)@ + dec_zero2(n as int),
{
    let ghost start = s@;
    if 0 <= n && n < 10 {
        push_char(s, '0');
        push_nat(s, n as u64);
        assert(s@ =~= start + dec_zero2(n as int));
    } else {
        push_int(s, n);
    }
}

/// The decimal representation of `n` as a `String`.
pub fn nat_text(n: u64) -> (s: String)
    ensures
        s@ == dec_nat(n as nat),
{
    let mut s = String::new();
    push_nat(&mut s, n);
    assert(s@ =~= dec_nat(n as nat));
    s
}

/// Appends `t` padded with spaces on the right to `width` characters (`{:<width}`).
pub(crate) fn push_padded_right(s: &mut String, t: &str, width: usize)
    ensures
        final(s)@ == old(s)@ + pad_right(t@, width as nat),
{
    let ghost start = s@;
    let len = t.unicode_len();
    push_str(s, t);
    if len < width {
        push_repeat(s, ' ', width - len);
    }
    assert(s@ =~= start + pad_right(t@, width as nat));
}

/// Appends `t` padded with spaces on the left to `width` characters (`{:>width}`).
pub(crate) fn push_padded_left(s: &mut String, t: &str, width: usize)
    ensures
        final(s)@ == old(s)@ + pad_left(t@, width as nat),
{
    let ghost start = s@;
    let len = t.unicode_len();
    if len < width {
        push_repeat(s, ' ', width - len);
    }
    push_str(s, t);
    assert(s@ =~= start + pad_left(t@, width as nat));
}

/// Whether `c` is Unicode whitespace (`char::is_whitespace`).
pub fn is_space_char(c: char) -> (b: bool)
    ensures
        b == is_space(c),
{
    let u = c as u32;
    (0x9 <= u && u <= 0xd) || u == 0x20 || u == 0x85 || u == 0xa0 || u == 0x1680 || (0x2000 <= u
        && u <= 0x200a) || u == 0x2028 || u == 0x2029 || u == 0x202f || u == 0x205f || u == 0x3000
}

/// The bounds of `v[lo..hi]` with whitespace trimmed from both ends.
pub fn trim_range(v: &Vec<char>, lo: usize, hi: usize) -> (r: (usize, usize))
    requires
        lo <= hi <= v.len(),
    ensures
        lo <= r.0 <= r.1 <= hi,
        v@.subrange(r.0 as int, r.1 as int) == trim(v@.subrange(lo as int, hi as int)),
{
    let ghost w = v@.subrange(lo as int, hi as int);
    assert(w.skip(0) =~= w);
    let mut a = lo;
    while a < hi && is_space_char(v[a])
        invariant
            lo <= a <= hi <= v.len(),
            w == v@.subrange(lo as int, hi as int),
            trim_start(w) == trim_start(w.skip(a - lo)),
        decreases hi - a,
    {
        proof {
            lemma_trim_start_step(w, a - lo);
        }
        a += 1;
    }
    let ghost t = w.skip(a - lo);
    assert(t =~= v@.subrange(a as int, hi as int));
    assert(trim_start(w) == t) by {
        if t.len() > 0 {
            assert(t[0] == v[a as int]);
        }
    }
    assert(t.take(t.len() as int) =~= t);
    let mut b = hi;
    while b > a && is_space_char(v[b - 1])
        invariant
            lo <= a <= b <= hi <= v.len(),
            t == v@.subrange(a as int, hi as int),
            trim_end(t) == trim_end(t.take(b - a)),
        decreases b - a,
    {
        proof {
            lemma_trim_end_step(t, b - a);
        }
        b -= 1;
    }
    let ghost u = t.take(b - a);
    assert(u =~= v@.subrange(a as int, b as int));
    assert(trim_end(u) == u) by {
        if u.len() > 0 {
            assert(u.last() == v[b - 1]);
        }
    }
    (a, b)
}

/// Position of the first `c` in `v[lo..hi]`, or `hi`.
pub fn find_char(v: &Vec<char>, lo: usize, hi: usize, c: char) -> (i: usize)
    requires
        lo <= hi <= v.len(),
    ensures
        lo <= i <= hi,
        i - lo == first_index(v@.subrange(lo as int, hi as int), c),
{
    let mut i = lo;
    while i < hi && v[i] != c
        invariant
            lo <= i <= hi <= v.len(),
            forall|k: int| lo <= k < i ==> v[k] != c,
        decreases hi - i,
    {
        i += 1;
    }
    proof {
        lemma_first_index(v@.subrange(lo as int, hi as int), c, i - lo);
    }
    i
}

/// The bounds of the lines of `v` (see `lines_of`).
pub fn line_ranges(v: &Vec<char>) -> (r: Vec<(usize, usize)>)
    ensures
        r@.len() == lines_of(v@).len(),
        forall|k: int|
            #![trigger r@[k]]
            0 <= k < r@.len() ==> r@[k].0 <= r@[k].1 <= v@.len() && v@.subrange(
                r@[k].0 as int,
                r@[k].1 as int,
            ) == lines_of(v@)[k],
{
    let mut r: Vec<(usize, usize)> = Vec::new();
    let mut start: usize = 0;
    let mut i: usize = 0;
    while i < v.len()
        invariant
            start <= i <= v.len(),
            line_scan(v@.take(i as int)).1 == v@.subrange(start as int, i as int),
            line_scan(v@.take(i as int)).0.len() == r@.len(),
            forall|k: int|
                #![trigger r@[k]]
                0 <= k < r@.len() ==> r@[k].0 <= r@[k].1 <= v@.len() && v@.subrange(
                    r@[k].0 as int,
                    r@[k].1 as int,
                ) == line_scan(v@.take(i as int)).0[k],
        decreases v.len() - i,
    {
        let ghost before = line_scan(v@.take(i as int));
        let ghost old_r = r@;
        assert(v@.take(i + 1).drop_last() =~= v@.take(i as int));
        let ghost after = line_scan(v@.take(i + 1));
        if v[i] == '\n' {
            let mut end = i;
            if end > start && v[end - 1] == '\r' {
                end -= 1;
            }
            assert(v@.subrange(start as int, end as int) =~= strip_cr(before.1));
            r.push((start, end));
            start = i + 1;
            assert(after.0 == before.0.push(strip_cr(before.1)));
        } else {
            assert(after.0 == before.0);
        }
        i += 1;
        assert(v@.subrange(start as int, i as int) =~= line_scan(v@.take(i as int)).1);
        assert forall|k: int| 0 <= k < r@.len() implies (#[trigger] r@[k]).0 <= r@[k].1 <= v@.len()
            && v@.subrange(r@[k].0 as int, r@[k].1 as int) == line_scan(
            v@.take(i as int),
        ).0[k] by {
            if k < old_r.len() {
                assert(r@[k] == old_r[k]);
                assert(after.0[k] == before.0[k]);
            }
        }
    }
    assert(v@.take(v.len() as int) =~= v@);
    let ghost fin = line_scan(v@);
    if start < v.len() {
        r.push((start, v.len()));
        assert(lines_of(v@) == fin.0.push(fin.1));
    } else {
        assert(lines_of(v@) == fin.0);
    }
    r
}

} // verus!
