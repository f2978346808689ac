//! The diff-based validation gates: scope (which files a task may change)
//! and stubs (placeholder code in the lines it adds), and how they open the
//! validation pipeline and guard a submission.
//!
//! Scope: a changed file passes when it lies under one of the task's
//! `affects` paths (the path itself, or inside it as a directory) or matches
//! one of its `affects_globs`, and matches none of its `must_not_touch`
//! entries (globs when they hold `*`, paths otherwise).
//!
//! Stubs: an added line is a stub when its file has one of the checked
//! extensions (every file when none are configured) and its text contains
//! one of the stub patterns.

use crate::context::views;
use crate::error::BurlError;
use crate::report::text_over;
use crate::scope::{path_matches_glob, path_matches_glob_heuristic};
use crate::task::TaskFrontmatter;
use crate::text::{
    chars_ends_with, chars_of, chars_starts_with, contains, decimal, ends_with, push_all, push_decimal, push_str,
    starts_with, str_contains, str_eq, string_from_chars, trim, trim_chars,
};
use crate::validation::{ValidationResult, ValidationStepResult, ValidationStepStatus};
use vstd::prelude::*;

verus! {

broadcast use vstd::string::group_string_axioms;

// ---------------------------------------------------------------------------
// Scope
// ---------------------------------------------------------------------------

/// Whether file `f` lies under path `a`: it is `a`, or inside `a` as a directory.
pub open spec fn path_under(f: Seq<char>, a: Seq<char>) -> bool {
    f == a || (a.len() > 0 && a.last() == '/' && starts_with(f, a)) || starts_with(f, a + "/"@)
}

/// Whether a `must_not_touch` entry covers `f`: as a glob when it holds `*`,
/// else as a path.
pub open spec fn entry_covers(entry: Seq<char>, f: Seq<char>) -> bool {
    if contains(entry, "*"@) {
        path_matches_glob(f, entry)
    } else {
        path_under(f, entry)
    }
}

/// Whether the task must not touch `f`.
pub open spec fn forbidden(fm: TaskFrontmatter, f: Seq<char>) -> bool {
    exists|k: int| 0 <= k < fm.must_not_touch@.len() && #[trigger] entry_covers(fm.must_not_touch@[k]@, f)
}

/// Whether the task's declared scope takes in `f`.
pub open spec fn allowed(fm: TaskFrontmatter, f: Seq<char>) -> bool {
    ||| exists|k: int| 0 <= k < fm.affects@.len() && #[trigger] path_under(f, fm.affects@[k]@)
    ||| exists|k: int| 0 <= k < fm.affects_globs@.len() && #[trigger] path_matches_glob(f, fm.affects_globs@[k]@)
}

/// Whether changing `f` breaks the task's scope.
pub open spec fn violates(fm: TaskFrontmatter, f: Seq<char>) -> bool {
    forbidden(fm, f) || !allowed(fm, f)
}

/// Whether every changed file keeps to the task's scope.
pub open spec fn scope_ok(fm: TaskFrontmatter, changed: Seq<Seq<char>>) -> bool {
    forall|i: int| 0 <= i < changed.len() ==> !violates(fm, #[trigger] changed[i])
}

/// The elements of `s` that satisfy `p`, in order.
pub open spec fn select<T>(s: Seq<T>, p: spec_fn(T) -> bool) -> Seq<T>
    decreases s.len(),
{
    if s.len() == 0 {
        Seq::empty()
    } else if p(s.last()) {
        select(s.drop_last(), p).push(s.last())
    } else {
        select(s.drop_last(), p)
    }
}

/// The outcome of the scope gate: the changed files the task must not
/// touch, and those outside its declared scope.
#[derive(Debug, Clone)]
pub struct ScopeResult {
    pub passed: bool,
    pub forbidden: Vec<String>,
    pub outside: Vec<String>,
}

/// A list of files, one per line.
pub open spec fn file_lines() -> spec_fn(Seq<char>) -> Seq<char> {
    |f: Seq<char>| "  - "@ + f + "\n"@
}

/// The message of a failed scope gate.
pub open spec fn scope_error_text(task_id: Seq<char>, forbidden: Seq<Seq<char>>, outside: Seq<Seq<char>>) -> Seq<char> {
    "scope violation in task "@ + task_id + ":\n"@ + (if forbidden.len() > 0 {
        "\nFiles matching must_not_touch:\n"@ + text_over(forbidden, file_lines())
    } else {
        Seq::empty()
    }) + (if outside.len() > 0 {
        "\nFiles outside affects/affects_globs:\n"@ + text_over(outside, file_lines())
    } else {
        Seq::empty()
    }) + "\nFix: revert these changes, or extend the task's affects/affects_globs."@
}

impl ScopeResult {
    /// The message of this outcome for task `task_id`.
    pub open spec fn text(&self, task_id: Seq<char>) -> Seq<char> {
        scope_error_text(task_id, views(self.forbidden@), views(self.outside@))
    }
}

fn path_under_exec(f: &str, a: &str) -> (r: bool)
    ensures
        r == path_under(f@, a@),
{
    let fc = chars_of(f);
    let ac = chars_of(a);
    if str_eq(f, a) {
        return true;
    }
    if ac.len() > 0 && ac[ac.len() - 1] == '/' && chars_starts_with(&fc, &ac) {
        return true;
    }
    let mut dir = chars_of(a);
    dir.push('/');
    proof {
        reveal_strlit("/");
    }
    assert(dir@ =~= a@ + "/"@);
    chars_starts_with(&fc, &dir)
}

fn entry_covers_exec(entry: &str, f: &str) -> (r: bool)
    ensures
        r == entry_covers(entry@, f@),
{
    if str_contains(entry, "*") {
        path_matches_glob_heuristic(f, entry)
    } else {
        path_under_exec(f, entry)
    }
}

fn forbidden_exec(fm: &TaskFrontmatter, f: &str) -> (r: bool)
    ensures
        r == forbidden(*fm, f@),
{
    let mut k: usize = 0;
    while k < fm.must_not_touch.len()
        invariant
            k <= fm.must_not_touch@.len(),
            forall|j: int| 0 <= j < k ==> !#[trigger] entry_covers(fm.must_not_touch@[j]@, f@),
        decreases fm.must_not_touch@.len() - k,
    {
        if entry_covers_exec(fm.must_not_touch[k].as_str(), f) {
            return true;
        }
        k = k + 1;
    }
    false
}

fn allowed_exec(fm: &TaskFrontmatter, f: &str) -> (r: bool)
    ensures
        r == allowed(*fm, f@),
{
    let mut k: usize = 0;
    while k < fm.affects.len()
        invariant
            k <= fm.affects@.len(),
            forall|j: int| 0 <= j < k ==> !#[trigger] path_under(f@, fm.affects@[j]@),
        decreases fm.affects@.len() - k,
    {
        if path_under_exec(f, fm.affects[k].as_str()) {
            return true;
        }
        k = k + 1;
    }
    let mut g: usize = 0;
    while g < fm.affects_globs.len()
        invariant
            g <= fm.affects_globs@.len(),
            forall|j: int| 0 <= j < fm.affects@.len() ==> !#[trigger] path_under(f@, fm.affects@[j]@),
            forall|j: int| 0 <= j < g ==> !#[trigger] path_matches_glob(f@, fm.affects_globs@[j]@),
        decreases fm.affects_globs@.len() - g,
    {
        if path_matches_glob_heuristic(f, fm.affects_globs[g].as_str()) {
            return true;
        }
        g = g + 1;
    }
    false
}

fn push_view(v: &mut Vec<String>, s: &str)
    ensures
        views(final(v)@) == views(old(v)@).push(s@),
        final(v)@.len() == old(v)@.len() + 1,
{
    let ghost before = v@;
    v.push(string_from_chars(&chars_of(s)));
    assert(views(v@) =~= views(before).push(s@));
}

/// An element that satisfies `p` is kept by `select`, and `select` keeps
/// something exactly when some element satisfies `p`.
pub proof fn lemma_select_contains<T>(s: Seq<T>, p: spec_fn(T) -> bool, i: int)
    requires
        0 <= i < s.len(),
        p(s[i]),
    ensures
        select(s, p).contains(s[i]),
        select(s, p).len() > 0,
    decreases s.len(),
{
    if i == s.len() - 1 {
        assert(s.last() == s[i]);
        assert(select(s, p)[select(s, p).len() - 1] == s[i]);
    } else {
        let d = s.drop_last();
        assert(d[i] == s[i]);
        lemma_select_contains(d, p, i);
        let k = choose|k: int| 0 <= k < select(d, p).len() && select(d, p)[k] == d[i];
        if p(s.last()) {
            assert(select(s, p)[k] == select(d, p)[k]);
        }
    }
}

/// A file that is a `must_not_touch` entry written as a path (no `*`), or
/// lies inside it as a directory, is forbidden to the task, whatever its
/// `affects` say.
pub proof fn lemma_must_not_touch_directory(fm: TaskFrontmatter, f: Seq<char>, k: int)
    requires
        0 <= k < fm.must_not_touch@.len(),
        !contains(fm.must_not_touch@[k]@, "*"@),
        f == fm.must_not_touch@[k]@ || starts_with(f, fm.must_not_touch@[k]@ + "/"@),
    ensures
        forbidden(fm, f),
        violates(fm, f),
{
    assert(entry_covers(fm.must_not_touch@[k]@, f));
}

/// A file that is an `affects` path, or lies inside one as a directory, is
/// within the task's declared scope.
pub proof fn lemma_affects_directory(fm: TaskFrontmatter, f: Seq<char>, k: int)
    requires
        0 <= k < fm.affects@.len(),
        f == fm.affects@[k]@ || starts_with(f, fm.affects@[k]@ + "/"@),
    ensures
        allowed(fm, f),
{
    assert(path_under(f, fm.affects@[k]@));
}

/// Checks the changed files of a task against its scope.
pub fn validate_scope(fm: &TaskFrontmatter, changed: &Vec<String>) -> (r: ScopeResult)
    ensures
        forall|k: int, i: int|
            #![trigger fm.affects@[k], changed@[i]]
            0 <= k < fm.affects@.len() && 0 <= i < changed@.len() && (changed@[i]@ == fm.affects@[k]@
                || starts_with(changed@[i]@, fm.affects@[k]@ + "/"@)) ==> !views(r.outside@).contains(
                changed@[i]@,
            ),
        forall|k: int, i: int|
            #![trigger fm.must_not_touch@[k], changed@[i]]
            0 <= k < fm.must_not_touch@.len() && 0 <= i < changed@.len() && !contains(
                fm.must_not_touch@[k]@,
                "*"@,
            ) && (changed@[i]@ == fm.must_not_touch@[k]@ || starts_with(
                changed@[i]@,
                fm.must_not_touch@[k]@ + "/"@,
            )) ==> !r.passed && views(r.forbidden@).contains(changed@[i]@),
        r.passed <==> scope_ok(*fm, views(changed@)),
        r.passed <==> r.forbidden@.len() == 0 && r.outside@.len() == 0,
        views(r.forbidden@) == select(views(changed@), |f: Seq<char>| forbidden(*fm, f)),
        views(r.outside@) == select(views(changed@), |f: Seq<char>| !forbidden(*fm, f) && !allowed(*fm, f)),
{
    let ghost cv = views(changed@);
    let ghost pf = |f: Seq<char>| forbidden(*fm, f);
    let ghost po = |f: Seq<char>| !forbidden(*fm, f) && !allowed(*fm, f);
    let mut forb: Vec<String> = Vec::new();
    let mut outs: Vec<String> = Vec::new();
    let mut ok = true;
    let mut i: usize = 0;
    while i < changed.len()
        invariant
            i <= changed@.len(),
            cv == views(changed@),
            pf == (|f: Seq<char>| forbidden(*fm, f)),
            po == (|f: Seq<char>| !forbidden(*fm, f) && !allowed(*fm, f)),
            views(forb@) == select(cv.take(i as int), pf),
            views(outs@) == select(cv.take(i as int), po),
            ok <==> scope_ok(*fm, cv.take(i as int)),
            ok ==> forb@.len() == 0 && outs@.len() == 0,
            !ok ==> forb@.len() > 0 || outs@.len() > 0,
        decreases changed@.len() - i,
    {
        let f = changed[i].as_str();
        assert(cv.take(i + 1).drop_last() =~= cv.take(i as int));
        assert(cv.take(i + 1).last() == f@);
        let is_forbidden = forbidden_exec(fm, f);
        let is_allowed = allowed_exec(fm, f);
        if is_forbidden {
            push_view(&mut forb, f);
            ok = false;
        } else if !is_allowed {
            push_view(&mut outs, f);
            ok = false;
        }
        proof {
            let t = cv.take(i + 1);
            if scope_ok(*fm, t) {
                assert(!violates(*fm, t[i as int]));
                assert forall|j: int| 0 <= j < i implies !violates(*fm, #[trigger] cv.take(i as int)[j]) by {
                    assert(t[j] == cv.take(i as int)[j]);
                }
            }
            if scope_ok(*fm, cv.take(i as int)) && !violates(*fm, f@) {
                assert forall|j: int| 0 <= j < t.len() implies !violates(*fm, #[trigger] t[j]) by {
                    if j < i {
                        assert(t[j] == cv.take(i as int)[j]);
                    }
                }
            }
            if !scope_ok(*fm, cv.take(i as int)) {
                let j = choose|j: int| 0 <= j < i && violates(*fm, #[trigger] cv.take(i as int)[j]);
                assert(t[j] == cv.take(i as int)[j]);
            }
            if violates(*fm, f@) {
                assert(violates(*fm, t[i as int]));
            }
        }
        i = i + 1;
    }
    assert(cv.take(changed@.len() as int) =~= cv);
    assert forall|k: int, i: int|
        #![trigger fm.must_not_touch@[k], changed@[i]]
        0 <= k < fm.must_not_touch@.len() && 0 <= i < changed@.len() && !contains(
            fm.must_not_touch@[k]@,
            "*"@,
        ) && (changed@[i]@ == fm.must_not_touch@[k]@ || starts_with(
            changed@[i]@,
            fm.must_not_touch@[k]@ + "/"@,
        )) implies !ok && views(forb@).contains(changed@[i]@) by {
        assert(cv[i] == changed@[i]@);
        lemma_must_not_touch_directory(*fm, cv[i], k);
        lemma_select_contains(cv, pf, i);
    }
    proof {
        crate::doctor::lemma_select_members(cv, po);
    }
    assert forall|k: int, i: int|
        #![trigger fm.affects@[k], changed@[i]]
        0 <= k < fm.affects@.len() && 0 <= i < changed@.len() && (changed@[i]@ == fm.affects@[k]@
            || starts_with(changed@[i]@, fm.affects@[k]@ + "/"@)) implies !views(outs@).contains(
            changed@[i]@,
        ) by {
        assert(cv[i] == changed@[i]@);
        lemma_affects_directory(*fm, cv[i], k);
        if views(outs@).contains(changed@[i]@) {
            let j = choose|j: int| 0 <= j < select(cv, po).len() && select(cv, po)[j] == changed@[i]@;
            assert(po(select(cv, po)[j]));
        }
    }
    ScopeResult { passed: ok, forbidden: forb, outside: outs }
}

fn push_file_lines(out: &mut Vec<char>, files: &Vec<String>)
    ensures
        final(out)@ == old(out)@ + text_over(views(files@), file_lines()),
{
    let ghost start = out@;
    let ghost fv = views(files@);
    let mut i: usize = 0;
    while i < files.len()
        invariant
            i <= files@.len(),
            fv == views(files@),
            out@ == start + text_over(fv.take(i as int), file_lines()),
        decreases files@.len() - i,
    {
        assert(fv.take(i + 1).drop_last() =~= fv.take(i as int));
        assert(fv.take(i + 1).last() == files@[i as int]@);
        let ghost before = out@;
        push_str(out, "  - ");
        push_str(out, files[i].as_str());
        push_str(out, "\n");
        assert(out@ =~= before + file_lines()(files@[i as int]@));
        i = i + 1;
    }
    assert(fv.take(files@.len() as int) =~= fv);
}

/// The message of a scope outcome.
pub fn scope_error(result: &ScopeResult, task_id: &str) -> (r: String)
    ensures
        r@ == result.text(task_id@),
{
    let mut out = chars_of("scope violation in task ");
    push_str(&mut out, task_id);
    push_str(&mut out, ":\n");
    let ghost s0 = out@;
    if result.forbidden.len() > 0 {
        push_str(&mut out, "\nFiles matching must_not_touch:\n");
        push_file_lines(&mut out, &result.forbidden);
    }
    let ghost s1 = out@;
    let ghost a = if result.forbidden@.len() > 0 {
        "\nFiles matching must_not_touch:\n"@ + text_over(views(result.forbidden@), file_lines())
    } else {
        Seq::<char>::empty()
    };
    assert(s1 =~= s0 + a);
    if result.outside.len() > 0 {
        push_str(&mut out, "\nFiles outside affects/affects_globs:\n");
        push_file_lines(&mut out, &result.outside);
    }
    let ghost b = if result.outside@.len() > 0 {
        "\nFiles outside affects/affects_globs:\n"@ + text_over(views(result.outside@), file_lines())
    } else {
        Seq::<char>::empty()
    };
    assert(out@ =~= s1 + b);
    push_str(&mut out, "\nFix: revert these changes, or extend the task's affects/affects_globs.");
    assert(out@ =~= result.text(task_id@));
    string_from_chars(&out)
}

// ---------------------------------------------------------------------------
// Stubs
// ---------------------------------------------------------------------------

/// A line a task's diff adds.
#[derive(Debug, Clone)]
pub struct AddedLine {
    /// The file it is added to.
    pub file: String,
    /// Its line number in the new file.
    pub line: u32,
    /// Its text.
    pub content: String,
}

/// A checked extension: `rs` or `.rs` both check files ending in `.rs`.
pub open spec fn has_extension(file: Seq<char>, ext: Seq<char>) -> bool {
    if ext.len() > 0 && ext[0] == '.' {
        ends_with(file, ext)
    } else {
        ends_with(file, "."@ + ext)
    }
}

/// Whether lines added to `file` are checked for stubs.
pub open spec fn checked_file(extensions: Seq<String>, file: Seq<char>) -> bool {
    extensions.len() == 0 || exists|k: int| 0 <= k < extensions.len() && #[trigger] has_extension(file, extensions[k]@)
}

/// Whether a text contains stub pattern `p` (an empty pattern matches nothing).
pub open spec fn holds_pattern(content: Seq<char>, p: Seq<char>) -> bool {
    p.len() > 0 && contains(content, p)
}

/// Whether an added line is a stub.
pub open spec fn stub_hit(patterns: Seq<String>, extensions: Seq<String>, a: AddedLine) -> bool {
    checked_file(extensions, a.file@) && exists|k: int|
        0 <= k < patterns.len() && #[trigger] holds_pattern(a.content@, patterns[k]@)
}

/// An added line as plain values.
pub open spec fn line_view(a: AddedLine) -> (Seq<char>, u32, Seq<char>) {
    (a.file@, a.line, a.content@)
}

/// Plain values of some added lines.
pub open spec fn line_views(s: Seq<AddedLine>) -> Seq<(Seq<char>, u32, Seq<char>)> {
    Seq::new(s.len(), |k: int| line_view(s[k]))
}

/// The outcome of the stub gate: the stub lines found, in order.
#[derive(Debug, Clone)]
pub struct StubResult {
    pub passed: bool,
    pub hits: Vec<AddedLine>,
}

/// A found stub, one per line.
pub open spec fn hit_lines() -> spec_fn((Seq<char>, u32, Seq<char>)) -> Seq<char> {
    |h: (Seq<char>, u32, Seq<char>)| "  - "@ + h.0 + ":"@ + decimal(h.1 as nat) + ": "@ + trim(h.2) + "\n"@
}

/// The message of a failed stub gate.
pub open spec fn stub_error_text(hits: Seq<(Seq<char>, u32, Seq<char>)>) -> Seq<char> {
    "stub patterns found in added lines:\n"@ + text_over(hits, hit_lines())
        + "\nFix: replace placeholder code with a real implementation before submitting."@
}

fn checked_file_exec(extensions: &Vec<String>, file: &str) -> (r: bool)
    ensures
        r == checked_file(extensions@, file@),
{
    if extensions.len() == 0 {
        return true;
    }
    let fc = chars_of(file);
    let mut k: usize = 0;
    while k < extensions.len()
        invariant
            k <= extensions@.len(),
            fc@ == file@,
            forall|j: int| 0 <= j < k ==> !#[trigger] has_extension(file@, extensions@[j]@),
        decreases extensions@.len() - k,
    {
        let e = chars_of(extensions[k].as_str());
        let suffix = if e.len() > 0 && e[0] == '.' {
            e
        } else {
            let mut d = chars_of(".");
            push_all(&mut d, &e);
            d
        };
        assert(suffix@ == if e@.len() > 0 && e@[0] == '.' { e@ } else { "."@ + e@ });
        if chars_ends_with(&fc, &suffix) {
            assert(has_extension(file@, extensions@[k as int]@));
            return true;
        }
        k = k + 1;
    }
    false
}

fn has_stub_pattern(patterns: &Vec<String>, content: &str) -> (r: bool)
    ensures
        r == exists|k: int| 0 <= k < patterns@.len() && #[trigger] holds_pattern(content@, patterns@[k]@),
{
    let mut k: usize = 0;
    while k < patterns.len()
        invariant
            k <= patterns@.len(),
            forall|j: int| 0 <= j < k ==> !#[trigger] holds_pattern(content@, patterns@[j]@),
        decreases patterns@.len() - k,
    {
        let p = patterns[k].as_str();
        if chars_of(p).len() > 0 && str_contains(content, p) {
            assert(holds_pattern(content@, patterns@[k as int]@));
            return true;
        }
        k = k + 1;
    }
    false
}

/// Checks the added lines of a task for stub patterns.
pub fn validate_stubs(patterns: &Vec<String>, extensions: &Vec<String>, added: &Vec<AddedLine>) -> (r: StubResult)
    ensures
        r.passed <==> !exists|i: int| 0 <= i < added@.len() && #[trigger] stub_hit(patterns@, extensions@, added@[i]),
        r.passed <==> r.hits@.len() == 0,
        line_views(r.hits@) == line_views(select(added@, |a: AddedLine| stub_hit(patterns@, extensions@, a))),
{
    let ghost p = |a: AddedLine| stub_hit(patterns@, extensions@, a);
    let mut hits: Vec<AddedLine> = Vec::new();
    let mut i: usize = 0;
    while i < added.len()
        invariant
            i <= added@.len(),
            p == (|a: AddedLine| stub_hit(patterns@, extensions@, a)),
            line_views(hits@) == line_views(select(added@.take(i as int), p)),
            (hits@.len() == 0) <==> !exists|j: int| 0 <= j < i && #[trigger] stub_hit(patterns@, extensions@, added@[j]),
        decreases added@.len() - i,
    {
        assert(added@.take(i + 1).drop_last() =~= added@.take(i as int));
        assert(added@.take(i + 1).last() == added@[i as int]);
        let a = &added[i];
        if checked_file_exec(extensions, a.file.as_str()) && has_stub_pattern(patterns, a.content.as_str()) {
            let ghost before = hits@;
            let copy = AddedLine {
                file: string_from_chars(&chars_of(a.file.as_str())),
                line: a.line,
                content: string_from_chars(&chars_of(a.content.as_str())),
            };
            assert(line_view(copy) == line_view(added@[i as int]));
            hits.push(copy);
            assert(stub_hit(patterns@, extensions@, added@[i as int]));
            assert(select(added@.take(i + 1), p) == select(added@.take(i as int), p).push(added@[i as int]));
            assert(line_views(hits@) =~= line_views(before).push(line_view(added@[i as int])));
            assert(line_views(select(added@.take(i as int), p).push(added@[i as int])) =~= line_views(
                select(added@.take(i as int), p),
            ).push(line_view(added@[i as int])));
        } else {
            assert(!stub_hit(patterns@, extensions@, added@[i as int]));
            assert(select(added@.take(i + 1), p) == select(added@.take(i as int), p));
        }
        i = i + 1;
    }
    assert(added@.take(added@.len() as int) =~= added@);
    StubResult { passed: hits.len() == 0, hits }
}

/// The message of a stub outcome.
pub fn stub_error(result: &StubResult) -> (r: String)
    ensures
        r@ == stub_error_text(line_views(result.hits@)),
{
    let mut out = chars_of("stub patterns found in added lines:\n");
    let ghost head = out@;
    let ghost hv = line_views(result.hits@);
    let mut i: usize = 0;
    while i < result.hits.len()
        invariant
            i <= result.hits@.len(),
            hv == line_views(result.hits@),
            out@ == head + text_over(hv.take(i as int), hit_lines()),
        decreases result.hits@.len() - i,
    {
        assert(hv.take(i + 1).drop_last() =~= hv.take(i as int));
        assert(hv.take(i + 1).last() == line_view(result.hits@[i as int]));
        let h = &result.hits[i];
        let ghost before = out@;
        push_str(&mut out, "  - ");
        push_str(&mut out, h.file.as_str());
        push_str(&mut out, ":");
        push_decimal(&mut out, h.line as u64);
        push_str(&mut out, ": ");
        let c = chars_of(h.content.as_str());
        let t = trim_chars(&c);
        push_all(&mut out, &t);
        push_str(&mut out, "\n");
        assert(out@ =~= before + hit_lines()(line_view(*h)));
        i = i + 1;
    }
    assert(hv.take(result.hits@.len() as int) =~= hv);
    push_str(&mut out, "\nFix: replace placeholder code with a real implementation before submitting.");
    string_from_chars(&out)
}

// ---------------------------------------------------------------------------
// The gates in the pipeline and at submission
// ---------------------------------------------------------------------------

/// Whether a gate's step is as its outcome says: passed, or failed with `text`.
pub open spec fn gate_step(step: ValidationStepResult, name: Seq<char>, passed: bool, text: Seq<char>) -> bool {
    &&& step.name@ == name
    &&& passed ==> step.status == ValidationStepStatus::Pass && step.message is None
    &&& !passed ==> (step.status == ValidationStepStatus::Fail && (step.message matches Some(m) && m@ == text))
}

/// Opens the validation pipeline with the scope and stub gates of task
/// `task_id`, followed by the results of the command steps.
pub fn run_validation(
    scope: &ScopeResult,
    stubs: &StubResult,
    task_id: &str,
    pipeline: Vec<ValidationStepResult>,
) -> (r: ValidationResult)
    ensures
        r.results@.len() == pipeline@.len() + 2,
        gate_step(r.results@[0], "scope"@, scope.passed, scope.text(task_id@)),
        gate_step(r.results@[1], "stubs"@, stubs.passed, stub_error_text(line_views(stubs.hits@))),
        r.results@.skip(2) == pipeline@,
        r.all_passed <==> scope.passed && stubs.passed && forall|k: int|
            0 <= k < pipeline@.len() ==> #[trigger] pipeline@[k].status != ValidationStepStatus::Fail,
{
    let mut steps: Vec<ValidationStepResult> = Vec::new();
    if scope.passed {
        steps.push(ValidationStepResult::pass("scope"));
    } else {
        let msg = scope_error(scope, task_id);
        steps.push(ValidationStepResult::fail("scope", msg.as_str()));
    }
    if stubs.passed {
        steps.push(ValidationStepResult::pass("stubs"));
    } else {
        let msg = stub_error(stubs);
        steps.push(ValidationStepResult::fail("stubs", msg.as_str()));
    }
    let mut rest = pipeline;
    steps.append(&mut rest);
    assert(steps@.skip(2) =~= pipeline@);
    assert forall|k: int| 0 <= k < pipeline@.len() implies #[trigger] steps@[k + 2] == pipeline@[k] by {
        assert(steps@[k + 2] == steps@.skip(2)[k]);
    }
    ValidationResult::from_steps(steps)
}

/// Refuses a submission whose diff fails a gate. Scope is checked before
/// stubs, and the error carries the failing gate's message.
pub fn submit_gate(scope: &ScopeResult, stubs: &StubResult, task_id: &str) -> (r: Result<(), BurlError>)
    ensures
        r is Ok <==> scope.passed && stubs.passed,
        !scope.passed ==> (r matches Err(BurlError::ValidationError(m)) && m@ == scope.text(task_id@)),
        scope.passed && !stubs.passed ==> (r matches Err(BurlError::ValidationError(m)) && m@ == stub_error_text(
            line_views(stubs.hits@),
        )),
{
    if !scope.passed {
        return Err(BurlError::ValidationError(scope_error(scope, task_id)));
    }
    if !stubs.passed {
        return Err(BurlError::ValidationError(stub_error(stubs)));
    }
    Ok(())
}

} // verus!
