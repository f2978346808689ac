//! Reading the output of `git diff`: the files a task changed
//! (`git diff --name-only`) and the lines it added (a unified diff).
//!
//! A unified diff is read line by line. `diff --git ...` opens a file's
//! section; before its first hunk, `+++ b/<path>` names the file on the new
//! side (`/dev/null` for a deleted file); `@@ -a,b +c,d @@` opens a hunk whose
//! new side starts at line `c`. Inside a hunk a line beginning with `+` is
//! added at the current line, a line beginning with a space is kept, and both
//! advance the current line (which stops at the largest `u32`); other lines
//! change nothing.

use crate::context::{lines, split_lines, views};
use crate::gates::{line_views, select, AddedLine};
use crate::naming::{
    digit_run, digits_value, is_ascii_digit, lemma_digit_run_at_least, lemma_digit_run_bound,
    lemma_digits_prefix_grows,
};
use crate::text::{chars_eq, chars_of, chars_starts_with, slice_chars, starts_with, string_from_chars, trim, trim_chars};
use vstd::prelude::*;

verus! {

// ---------------------------------------------------------------------------
// Changed files
// ---------------------------------------------------------------------------

/// The files a `git diff --name-only` output lists: its lines, trimmed,
/// without the empty ones.
pub open spec fn changed_files_of(output: Seq<char>) -> Seq<Seq<char>> {
    select(lines(output).map_values(|l: Seq<char>| trim(l)), |l: Seq<char>| l.len() > 0)
}

/// Reads the file list of `git diff --name-only`.
pub fn parse_changed_files(output: &str) -> (r: Vec<String>)
    ensures
        views(r@) == changed_files_of(output@),
{
    let ls = split_lines(&chars_of(output));
    let ghost tl = ls@.map_values(|l: Vec<char>| l@).map_values(|l: Seq<char>| trim(l));
    let ghost p = |l: Seq<char>| l.len() > 0;
    let mut r: Vec<String> = Vec::new();
    let mut i: usize = 0;
    while i < ls.len()
        invariant
            i <= ls@.len(),
            tl == ls@.map_values(|l: Vec<char>| l@).map_values(|l: Seq<char>| trim(l)),
            p == (|l: Seq<char>| l.len() > 0),
            views(r@) == select(tl.take(i as int), p),
        decreases ls@.len() - i,
    {
        assert(tl.take(i + 1).drop_last() =~= tl.take(i as int));
        assert(tl.take(i + 1).last() == trim(ls@[i as int]@));
        let t = trim_chars(&ls[i]);
        if t.len() > 0 {
            let ghost before = r@;
            r.push(string_from_chars(&t));
            assert(views(r@) =~= views(before).push(t@));
        }
        i = i + 1;
    }
    assert(tl.take(ls@.len() as int) =~= tl);
    r
}

// ---------------------------------------------------------------------------
// Added lines
// ---------------------------------------------------------------------------

/// The first index at or after `i` where `s` holds `c` (the length when none).
pub open spec fn find_char(s: Seq<char>, c: char, i: int) -> int
    decreases s.len() - i,
{
    if i < 0 || i >= s.len() {
        s.len() as int
    } else if s[i] == c {
        i
    } else {
        find_char(s, c, i + 1)
    }
}

/// The number written at `i` in `s`, when digits stand there and it fits in 32 bits.
pub open spec fn number_at(s: Seq<char>, i: int) -> Option<u32> {
    let n = digit_run(s, i);
    if n > 0 && digits_value(s.subrange(i, i + n)) <= u32::MAX {
        Some(digits_value(s.subrange(i, i + n)) as u32)
    } else {
        None
    }
}

/// Where the new side of a hunk starts: the number after the first `+` of an `@@` line.
pub open spec fn hunk_start(l: Seq<char>) -> Option<u32> {
    if starts_with(l, "@@"@) && find_char(l, '+', 0) < l.len() {
        number_at(l, find_char(l, '+', 0) + 1)
    } else {
        None
    }
}

/// The file a `+++ ` header names: `b/<path>` gives `<path>`, `/dev/null` none.
pub open spec fn new_path(p: Seq<char>) -> Option<Seq<char>> {
    if starts_with(p, "b/"@) {
        Some(p.skip(2))
    } else if p == "/dev/null"@ {
        None
    } else {
        Some(p)
    }
}

/// Where the reading of a diff stands: the current file, the current line
/// on its new side, and whether a hunk is open.
pub type DiffPos = (Option<Seq<char>>, u32, bool);

/// The next line number, which stops at the largest `u32`.
pub open spec fn advance(n: u32) -> u32 {
    if n < u32::MAX {
        (n + 1) as u32
    } else {
        n
    }
}

/// One line of a diff read at position `st`: the new position, and the
/// added line it is, if any.
pub open spec fn diff_step(st: DiffPos, l: Seq<char>) -> (DiffPos, Option<(Seq<char>, u32, Seq<char>)>) {
    let (file, next, in_hunk) = st;
    if starts_with(l, "diff --git "@) {
        ((None, 0, false), None)
    } else if starts_with(l, "@@"@) {
        match hunk_start(l) {
            Some(n) => ((file, n, true), None),
            None => ((file, next, false), None),
        }
    } else if in_hunk && l.len() > 0 && l[0] == '+' {
        (
            (file, advance(next), true),
            match file {
                Some(f) => Some((f, next, l.skip(1))),
                None => None,
            },
        )
    } else if in_hunk && l.len() > 0 && l[0] == ' ' {
        ((file, advance(next), true), None)
    } else if !in_hunk && starts_with(l, "+++ "@) {
        ((new_path(l.skip(4)), next, false), None)
    } else {
        (st, None)
    }
}

/// Reading lines `ls` from the start: the position reached and the added lines found.
pub open spec fn diff_scan(ls: Seq<Seq<char>>) -> (DiffPos, Seq<(Seq<char>, u32, Seq<char>)>)
    decreases ls.len(),
{
    if ls.len() == 0 {
        ((None, 0, false), Seq::empty())
    } else {
        let (st, found) = diff_scan(ls.drop_last());
        let (st2, hit) = diff_step(st, ls.last());
        (
            st2,
            match hit {
                Some(h) => found.push(h),
                None => found,
            },
        )
    }
}

/// The lines a unified diff adds: file, line number on the new side, text.
pub open spec fn added_lines_of(diff: Seq<char>) -> Seq<(Seq<char>, u32, Seq<char>)> {
    diff_scan(lines(diff)).1
}

/// An optional text as plain values.
pub open spec fn opt_chars(o: Option<Vec<char>>) -> Option<Seq<char>> {
    match o {
        Some(v) => Some(v@),
        None => None,
    }
}

fn find_char_exec(s: &Vec<char>, c: char, from: usize) -> (r: usize)
    requires
        from <= s@.len(),
    ensures
        r == find_char(s@, c, from as int),
{
    let mut i = from;
    while i < s.len() && s[i] != c
        invariant
            from <= i <= s@.len(),
            find_char(s@, c, from as int) == find_char(s@, c, i as int),
        decreases s@.len() - i,
    {
        i = i + 1;
    }
    i
}

fn number_at_exec(s: &Vec<char>, from: usize) -> (r: Option<u32>)
    requires
        from <= s@.len(),
    ensures
        r == number_at(s@, from as int),
{
    let len = s.len();
    proof {
        lemma_digit_run_bound(s@, from as int);
    }
    let ghost end = from + digit_run(s@, from as int);
    let mut j: usize = from;
    let mut value: u64 = 0;
    while j < len && '0' <= s[j] && s[j] <= '9'
        invariant
            from <= j <= len,
            len == s@.len(),
            end == from + digit_run(s@, from as int),
            j <= end <= len,
            forall|k: int| from <= k < end ==> is_ascii_digit(#[trigger] s@[k]),
            end < len ==> !is_ascii_digit(s@[end]),
            forall|k: int| from <= k < j ==> is_ascii_digit(#[trigger] s@[k]),
            value == digits_value(s@.subrange(from as int, j as int)),
            value <= u32::MAX,
        decreases len - j,
    {
        proof {
            lemma_digit_run_at_least(s@, from as int, j + 1);
        }
        let d = (s[j] as u32 - '0' as u32) as u64;
        let next = value * 10 + d;
        assert(s@.subrange(from as int, j + 1).drop_last() =~= s@.subrange(from as int, j as int));
        if next > u32::MAX as u64 {
            proof {
                lemma_digits_prefix_grows(s@, from as int, j + 1, end);
            }
            return None;
        }
        value = next;
        j = j + 1;
    }
    if j == from {
        return None;
    }
    Some(value as u32)
}

fn hunk_start_exec(l: &Vec<char>) -> (r: Option<u32>)
    ensures
        r == hunk_start(l@),
{
    if !chars_starts_with(l, &chars_of("@@")) {
        return None;
    }
    let p = find_char_exec(l, '+', 0);
    if p >= l.len() {
        return None;
    }
    number_at_exec(l, p + 1)
}

fn new_path_exec(p: &Vec<char>) -> (r: Option<Vec<char>>)
    ensures
        match r {
            Some(v) => new_path(p@) == Some(v@),
            None => new_path(p@) is None,
        },
{
    let b = chars_of("b/");
    if chars_starts_with(p, &b) {
        proof {
            reveal_strlit("b/");
        }
        return Some(slice_chars(p, 2, p.len()));
    }
    if chars_eq(p, &chars_of("/dev/null")) {
        return None;
    }
    Some(slice_chars(p, 0, p.len()))
}

/// Reads the lines a unified diff adds.
pub fn parse_added_lines(diff: &str) -> (r: Vec<AddedLine>)
    ensures
        line_views(r@) == added_lines_of(diff@),
{
    let ls = split_lines(&chars_of(diff));
    let ghost lv = ls@.map_values(|l: Vec<char>| l@);
    let mut file: Option<Vec<char>> = None;
    let mut next: u32 = 0;
    let mut in_hunk = false;
    let mut out: Vec<AddedLine> = Vec::new();
    let mut i: usize = 0;
    while i < ls.len()
        invariant
            i <= ls@.len(),
            lv == ls@.map_values(|l: Vec<char>| l@),
            lv == lines(diff@),
            diff_scan(lv.take(i as int)) == ((opt_chars(file), next, in_hunk), line_views(out@)),
        decreases ls@.len() - i,
    {
        let l = &ls[i];
        assert(lv.take(i + 1).drop_last() =~= lv.take(i as int));
        assert(lv.take(i + 1).last() == l@);
        let ghost before = out@;
        if chars_starts_with(l, &chars_of("diff --git ")) {
            file = None;
            next = 0;
            in_hunk = false;
        } else if chars_starts_with(l, &chars_of("@@")) {
            match hunk_start_exec(l) {
                Some(n) => {
                    next = n;
                    in_hunk = true;
                },
                None => {
                    in_hunk = false;
                },
            }
        } else if in_hunk && l.len() > 0 && l[0] == '+' {
            match &file {
                Some(f) => {
                    let added = AddedLine {
                        file: string_from_chars(f),
                        line: next,
                        content: string_from_chars(&slice_chars(l, 1, l.len())),
                    };
                    out.push(added);
                    assert(line_views(out@) =~= line_views(before).push((f@, next, l@.skip(1))));
                },
                None => {},
            }
            if next < u32::MAX {
                next = next + 1;
            }
        } else if in_hunk && l.len() > 0 && l[0] == ' ' {
            if next < u32::MAX {
                next = next + 1;
            }
        } else if !in_hunk && chars_starts_with(l, &chars_of("+++ ")) {
            proof {
                reveal_strlit("+++ ");
            }
            let rest = slice_chars(l, 4, l.len());
            assert(rest@ == l@.skip(4));
            file = new_path_exec(&rest);
        }
        i = i + 1;
    }
    assert(lv.take(ls@.len() as int) =~= lv);
    out
}

} // verus!
