//! Scope overlap detection between tasks.
//!
//! Two tasks' scopes overlap when:
//! - they name an identical explicit `affects` path,
//! - they name an identical `affects_globs` pattern,
//! - an explicit path of one matches a glob of the other (heuristically), or
//! - a glob of one is a directory prefix of a glob of the other.
//!
//! The glob checks are conservative prefix/suffix heuristics, not a glob matcher.

use crate::context::views;
use crate::doctor::lemma_select_members;
use crate::gates::{lemma_select_contains, select};
use crate::error::{user_error, BurlError};
use crate::text::{
    chars_ends_with, chars_eq, chars_of, chars_starts_with, ends_with, push_all, push_str, slice_chars,
    starts_with, string_from_chars,
};
use vstd::prelude::*;

verus! {

broadcast use vstd::string::group_string_axioms;

/// Backslashes turned into forward slashes.
pub open spec fn slashes(s: Seq<char>) -> Seq<char> {
    s.map_values(|c: char| if c == '\\' { '/' } else { c })
}

/// `s` with every `*` removed.
pub open spec fn without_stars(s: Seq<char>) -> Seq<char> {
    s.filter(|c: char| c != '*')
}

/// `s` from index `i` on with every non-overlapping `**` (scanning left to right) removed.
pub open spec fn without_double_stars_from(s: Seq<char>, i: int) -> Seq<char>
    decreases s.len() - i,
{
    if i < 0 || i >= s.len() {
        Seq::empty()
    } else if i + 1 < s.len() && s[i] == '*' && s[i + 1] == '*' {
        without_double_stars_from(s, i + 2)
    } else {
        seq![s[i]] + without_double_stars_from(s, i + 1)
    }
}

/// `s` with every `**` removed (`str::replace("**", "")`).
pub open spec fn without_double_stars(s: Seq<char>) -> Seq<char> {
    without_double_stars_from(s, 0)
}

/// Heuristic: whether a path may be matched by a glob pattern.
pub open spec fn path_matches_glob(path: Seq<char>, glob: Seq<char>) -> bool {
    let p = slashes(path);
    let g = slashes(glob);
    ||| ends_with(g, seq!['/', '*', '*']) && (starts_with(p, g.take(g.len() - 3)) || starts_with(
        p,
        g.take(g.len() - 3) + seq!['/'],
    ))
    ||| ends_with(g, seq!['/', '*']) && exists|k: int|
        0 <= k < p.len() && p[k] == '/' && (forall|m: int| k < m < p.len() ==> p[m] != '/')
            && p.take(k) == g.take(g.len() - 2)
    ||| starts_with(p, without_double_stars(g))
    ||| starts_with(p, without_stars(g))
}

/// The directory part of a glob: without a trailing `/**` or `/*`.
pub open spec fn glob_base(g: Seq<char>) -> Seq<char> {
    if ends_with(g, seq!['/', '*', '*']) {
        g.take(g.len() - 3)
    } else if ends_with(g, seq!['/', '*']) {
        g.take(g.len() - 2)
    } else {
        g
    }
}

/// Heuristic: whether two globs may cover overlapping paths.
pub open spec fn globs_overlap(a: Seq<char>, b: Seq<char>) -> bool {
    let ab = glob_base(slashes(a));
    let bb = glob_base(slashes(b));
    starts_with(ab, bb) || starts_with(bb, ab)
}

/// Whether two task scopes overlap.
pub open spec fn scope_overlap(
    a_affects: Seq<Seq<char>>,
    a_globs: Seq<Seq<char>>,
    b_affects: Seq<Seq<char>>,
    b_globs: Seq<Seq<char>>,
) -> bool {
    ||| exists|i: int, j: int|
        0 <= i < a_affects.len() && 0 <= j < b_affects.len() && a_affects[i] == b_affects[j]
    ||| exists|i: int, j: int|
        0 <= i < a_globs.len() && 0 <= j < b_globs.len() && a_globs[i] == b_globs[j]
    ||| exists|i: int, j: int|
        0 <= i < a_affects.len() && 0 <= j < b_globs.len() && path_matches_glob(
            a_affects[i],
            b_globs[j],
        )
    ||| exists|i: int, j: int|
        0 <= i < b_affects.len() && 0 <= j < a_globs.len() && path_matches_glob(
            b_affects[i],
            a_globs[j],
        )
    ||| exists|i: int, j: int|
        0 <= i < a_globs.len() && 0 <= j < b_globs.len() && globs_overlap(a_globs[i], b_globs[j])
}

fn normalize_slashes(s: &str) -> (r: Vec<char>)
    ensures
        r@ == slashes(s@),
{
    let cs = chars_of(s);
    let mut r: Vec<char> = Vec::new();
    let mut i: usize = 0;
    while i < cs.len()
        invariant
            i <= cs@.len(),
            cs@ == s@,
            r@ == slashes(cs@).take(i as int),
        decreases cs@.len() - i,
    {
        if cs[i] == '\\' {
            r.push('/');
        } else {
            r.push(cs[i]);
        }
        i = i + 1;
        assert(r@ =~= slashes(cs@).take(i as int));
    }
    assert(r@ =~= slashes(cs@));
    r
}

fn remove_stars(s: &Vec<char>) -> (r: Vec<char>)
    ensures
        r@ == without_stars(s@),
{
    let mut r: Vec<char> = Vec::new();
    let mut i: usize = 0;
    while i < s.len()
        invariant
            i <= s@.len(),
            r@ == without_stars(s@.take(i as int)),
        decreases s@.len() - i,
    {
        assert(s@.take(i + 1) =~= s@.take(i as int).push(s@[i as int]));
        proof {
            s@.take(i as int).lemma_filter_push(s@[i as int], |c: char| c != '*');
        }
        if s[i] != '*' {
            r.push(s[i]);
        }
        i = i + 1;
    }
    assert(s@.take(s@.len() as int) =~= s@);
    r
}

fn remove_double_stars(s: &Vec<char>) -> (r: Vec<char>)
    ensures
        r@ == without_double_stars(s@),
{
    let mut r: Vec<char> = Vec::new();
    let mut i: usize = 0;
    while i < s.len()
        invariant
            i <= s@.len(),
            without_double_stars(s@) == r@ + without_double_stars_from(s@, i as int),
        decreases s@.len() - i,
    {
        if i + 1 < s.len() && s[i] == '*' && s[i + 1] == '*' {
            i = i + 2;
        } else {
            let ghost r0 = r@;
            r.push(s[i]);
            assert(r0 + (seq![s@[i as int]] + without_double_stars_from(s@, i + 1)) =~= r@
                + without_double_stars_from(s@, i + 1));
            i = i + 1;
        }
    }
    assert(r@ + without_double_stars_from(s@, i as int) =~= r@);
    r
}

/// Conservative heuristic: whether a path might match a glob pattern.
pub fn path_matches_glob_heuristic(path: &str, glob: &str) -> (r: bool)
    ensures
        r == path_matches_glob(path@, glob@),
{
    let p = normalize_slashes(path);
    let g = normalize_slashes(glob);
    let dstar: Vec<char> = vec!['/', '*', '*'];
    let star: Vec<char> = vec!['/', '*'];
    let ghost spec_r = path_matches_glob(path@, glob@);
    if chars_ends_with(&g, &dstar) {
        let prefix = slice_chars(&g, 0, g.len() - 3);
        let mut prefix_slash = prefix.clone();
        prefix_slash.push('/');
        assert(prefix@ =~= g@.take(g@.len() - 3));
        assert(prefix_slash@ =~= g@.take(g@.len() - 3) + seq!['/']);
        if chars_starts_with(&p, &prefix) || chars_starts_with(&p, &prefix_slash) {
            return true;
        }
    }
    if chars_ends_with(&g, &star) {
        let prefix = slice_chars(&g, 0, g.len() - 2);
        assert(prefix@ =~= g@.take(g@.len() - 2));
        // Find the last '/' of the path.
        let mut k: usize = p.len();
        while k > 0 && p[k - 1] != '/'
            invariant
                k <= p@.len(),
                forall|m: int| k <= m < p@.len() ==> p@[m] != '/',
            decreases k,
        {
            k = k - 1;
        }
        if k > 0 {
            let head = slice_chars(&p, 0, k - 1);
            assert(head@ =~= p@.take(k - 1));
            if chars_eq(&head, &prefix) {
                return true;
            }
            assert forall|k2: int|
                0 <= k2 < p@.len() && p@[k2] == '/' && (forall|m: int|
                    k2 < m < p@.len() ==> p@[m] != '/') implies p@.take(k2) != g@.take(
                g@.len() - 2,
            ) by {
                if k2 != k - 1 {
                    if k2 < k - 1 {
                        assert(p@[k - 1] == '/');
                    }
                }
            }
        }
    }
    let g2 = remove_double_stars(&g);
    if chars_starts_with(&p, &g2) {
        return true;
    }
    let g1 = remove_stars(&g);
    if chars_starts_with(&p, &g1) {
        return true;
    }
    false
}

fn base_of(g: &Vec<char>) -> (r: Vec<char>)
    ensures
        r@ == glob_base(g@),
{
    let dstar: Vec<char> = vec!['/', '*', '*'];
    let star: Vec<char> = vec!['/', '*'];
    if chars_ends_with(g, &dstar) {
        slice_chars(g, 0, g.len() - 3)
    } else if chars_ends_with(g, &star) {
        slice_chars(g, 0, g.len() - 2)
    } else {
        g.clone()
    }
}

/// Whether two globs may have overlapping coverage: one's directory part is a
/// prefix of the other's.
pub fn globs_overlap_heuristic(glob_a: &str, glob_b: &str) -> (r: bool)
    ensures
        r == globs_overlap(glob_a@, glob_b@),
{
    let a = normalize_slashes(glob_a);
    let b = normalize_slashes(glob_b);
    let ab = base_of(&a);
    let bb = base_of(&b);
    chars_starts_with(&ab, &bb) || chars_starts_with(&bb, &ab)
}

fn any_equal(a: &Vec<String>, b: &Vec<String>) -> (r: bool)
    ensures
        r == exists|i: int, j: int| 0 <= i < a@.len() && 0 <= j < b@.len() && views(a@)[i] == views(b@)[j],
{
    let mut i: usize = 0;
    while i < a.len()
        invariant
            i <= a@.len(),
            forall|i2: int, j2: int| 0 <= i2 < i && 0 <= j2 < b@.len() ==> views(a@)[i2] != views(b@)[j2],
        decreases a@.len() - i,
    {
        let mut j: usize = 0;
        while j < b.len()
            invariant
                i < a@.len(),
                j <= b@.len(),
                forall|i2: int, j2: int| 0 <= i2 < i && 0 <= j2 < b@.len() ==> views(a@)[i2] != views(b@)[j2],
                forall|j2: int| 0 <= j2 < j ==> views(a@)[i as int] != views(b@)[j2],
            decreases b@.len() - j,
        {
            if a[i] == b[j] {
                assert(views(a@)[i as int] == views(b@)[j as int]);
                return true;
            }
            j = j + 1;
        }
        i = i + 1;
    }
    false
}

fn any_path_matches(paths: &Vec<String>, globs: &Vec<String>) -> (r: bool)
    ensures
        r == exists|i: int, j: int| 0 <= i < paths@.len() && 0 <= j < globs@.len() && path_matches_glob(views(paths@)[i], views(globs@)[j]),
{
    let mut i: usize = 0;
    while i < paths.len()
        invariant
            i <= paths@.len(),
            forall|i2: int, j2: int| 0 <= i2 < i && 0 <= j2 < globs@.len() ==> !path_matches_glob(views(paths@)[i2], views(globs@)[j2]),
        decreases paths@.len() - i,
    {
        let mut j: usize = 0;
        while j < globs.len()
            invariant
                i < paths@.len(),
                j <= globs@.len(),
                forall|i2: int, j2: int| 0 <= i2 < i && 0 <= j2 < globs@.len() ==> !path_matches_glob(views(paths@)[i2], views(globs@)[j2]),
                forall|j2: int| 0 <= j2 < j ==> !path_matches_glob(views(paths@)[i as int], views(globs@)[j2]),
            decreases globs@.len() - j,
        {
            if path_matches_glob_heuristic(paths[i].as_str(), globs[j].as_str()) {
                assert(path_matches_glob(views(paths@)[i as int], views(globs@)[j as int]));
                return true;
            }
            j = j + 1;
        }
        i = i + 1;
    }
    false
}

fn any_globs_overlap(a: &Vec<String>, b: &Vec<String>) -> (r: bool)
    ensures
        r == exists|i: int, j: int| 0 <= i < a@.len() && 0 <= j < b@.len() && globs_overlap(views(a@)[i], views(b@)[j]),
{
    let mut i: usize = 0;
    while i < a.len()
        invariant
            i <= a@.len(),
            forall|i2: int, j2: int| 0 <= i2 < i && 0 <= j2 < b@.len() ==> !globs_overlap(views(a@)[i2], views(b@)[j2]),
        decreases a@.len() - i,
    {
        let mut j: usize = 0;
        while j < b.len()
            invariant
                i < a@.len(),
                j <= b@.len(),
                forall|i2: int, j2: int| 0 <= i2 < i && 0 <= j2 < b@.len() ==> !globs_overlap(views(a@)[i2], views(b@)[j2]),
                forall|j2: int| 0 <= j2 < j ==> !globs_overlap(views(a@)[i as int], views(b@)[j2]),
            decreases b@.len() - j,
        {
            if globs_overlap_heuristic(a[i].as_str(), b[j].as_str()) {
                assert(globs_overlap(views(a@)[i as int], views(b@)[j as int]));
                return true;
            }
            j = j + 1;
        }
        i = i + 1;
    }
    false
}

/// Whether two scopes overlap (see the module documentation for the rules).
pub fn scopes_overlap(
    task_a_affects: &Vec<String>,
    task_a_globs: &Vec<String>,
    task_b_affects: &Vec<String>,
    task_b_globs: &Vec<String>,
) -> (r: bool)
    ensures
        r == scope_overlap(
            views(task_a_affects@),
            views(task_a_globs@),
            views(task_b_affects@),
            views(task_b_globs@),
        ),
{
    any_equal(task_a_affects, task_b_affects) || any_equal(task_a_globs, task_b_globs)
        || any_path_matches(task_a_affects, task_b_globs) || any_path_matches(
        task_b_affects,
        task_a_globs,
    ) || any_globs_overlap(task_a_globs, task_b_globs)
}

/// Glob overlap is symmetric.
pub proof fn lemma_globs_overlap_symmetric(a: Seq<char>, b: Seq<char>)
    ensures
        globs_overlap(a, b) == globs_overlap(b, a),
{
}

/// Scope overlap is symmetric: whether tasks A and B conflict does not depend
/// on which of them is being claimed.
pub proof fn lemma_scope_overlap_symmetric(
    a_affects: Seq<Seq<char>>,
    a_globs: Seq<Seq<char>>,
    b_affects: Seq<Seq<char>>,
    b_globs: Seq<Seq<char>>,
)
    ensures
        scope_overlap(a_affects, a_globs, b_affects, b_globs) == scope_overlap(
            b_affects,
            b_globs,
            a_affects,
            a_globs,
        ),
{
    if scope_overlap(a_affects, a_globs, b_affects, b_globs) {
        if exists|i: int, j: int|
            0 <= i < a_globs.len() && 0 <= j < b_globs.len() && globs_overlap(a_globs[i], b_globs[j]) {
            let (i, j) = choose|i: int, j: int|
                0 <= i < a_globs.len() && 0 <= j < b_globs.len() && globs_overlap(a_globs[i], b_globs[j]);
            lemma_globs_overlap_symmetric(a_globs[i], b_globs[j]);
        }
    }
    if scope_overlap(b_affects, b_globs, a_affects, a_globs) {
        if exists|i: int, j: int|
            0 <= i < b_globs.len() && 0 <= j < a_globs.len() && globs_overlap(b_globs[i], a_globs[j]) {
            let (i, j) = choose|i: int, j: int|
                0 <= i < b_globs.len() && 0 <= j < a_globs.len() && globs_overlap(b_globs[i], a_globs[j]);
            lemma_globs_overlap_symmetric(b_globs[i], a_globs[j]);
        }
    }
}

/// A scope that names at least one explicit path or glob overlaps with itself.
pub proof fn lemma_scope_overlap_reflexive(affects: Seq<Seq<char>>, globs: Seq<Seq<char>>)
    requires
        affects.len() > 0 || globs.len() > 0,
    ensures
        scope_overlap(affects, globs, affects, globs),
{
    if affects.len() > 0 {
        assert(affects[0] == affects[0]);
    } else {
        assert(globs[0] == globs[0]);
    }
}

/// What to do when a claimed task's scope overlaps a task in DOING.
#[derive(Debug, Clone, Copy, PartialEq, Eq, Structural)]
pub enum ConflictPolicy {
    /// Refuse the claim.
    Fail,
    /// Claim, with a warning.
    Warn,
    /// Do not check.
    Ignore,
}

/// A task in DOING, as the scope-conflict check sees it.
#[derive(Debug, Clone)]
pub struct DoingTask {
    /// Task identifier.
    pub id: String,
    /// Task title.
    pub title: String,
    /// Explicit paths it affects.
    pub affects: Vec<String>,
    /// Glob patterns it affects.
    pub affects_globs: Vec<String>,
}

/// The `ID (title)` entries of the DOING tasks whose scope overlaps the given one.
pub open spec fn conflict_entries(
    affects: Seq<Seq<char>>,
    globs: Seq<Seq<char>>,
    doing: Seq<DoingTask>,
) -> Seq<Seq<char>>
    decreases doing.len(),
{
    if doing.len() == 0 {
        Seq::empty()
    } else {
        let d = doing.last();
        conflict_entries(affects, globs, doing.drop_last()) + if scope_overlap(
            affects,
            globs,
            views(d.affects@),
            views(d.affects_globs@),
        ) {
            seq![d.id@ + " ("@ + d.title@ + ")"@]
        } else {
            Seq::empty()
        }
    }
}

/// Whether the claiming scope overlaps that of DOING task `d`.
pub open spec fn overlaps_doing(affects: Seq<Seq<char>>, globs: Seq<Seq<char>>, d: DoingTask) -> bool {
    scope_overlap(affects, globs, views(d.affects@), views(d.affects_globs@))
}

/// The conflicts listed are exactly the DOING tasks whose scope overlaps the
/// claiming one, in order, each as `<id> (<title>)`; some task is listed
/// exactly when some scope overlaps.
pub proof fn lemma_conflicts_are_the_overlapping_tasks(
    affects: Seq<Seq<char>>,
    globs: Seq<Seq<char>>,
    doing: Seq<DoingTask>,
)
    ensures
        conflict_entries(affects, globs, doing) == select(doing, |d: DoingTask| overlaps_doing(affects, globs, d)).map_values(
            |d: DoingTask| d.id@ + " ("@ + d.title@ + ")"@,
        ),
        conflict_entries(affects, globs, doing).len() > 0 <==> exists|k: int|
            0 <= k < doing.len() && overlaps_doing(affects, globs, #[trigger] doing[k]),
    decreases doing.len(),
{
    let p = |d: DoingTask| overlaps_doing(affects, globs, d);
    let g = |d: DoingTask| d.id@ + " ("@ + d.title@ + ")"@;
    if doing.len() > 0 {
        let dl = doing.drop_last();
        lemma_conflicts_are_the_overlapping_tasks(affects, globs, dl);
        if p(doing.last()) {
            assert(select(doing, p).map_values(g) =~= select(dl, p).map_values(g) + seq![g(doing.last())]);
        } else {
            assert(conflict_entries(affects, globs, doing) =~= conflict_entries(affects, globs, dl));
        }
    }
    lemma_select_members(doing, p);
    if exists|k: int| 0 <= k < doing.len() && overlaps_doing(affects, globs, #[trigger] doing[k]) {
        let k = choose|k: int| 0 <= k < doing.len() && overlaps_doing(affects, globs, #[trigger] doing[k]);
        lemma_select_contains(doing, p, k);
    }
    if select(doing, p).len() > 0 {
        assert(p(select(doing, p)[0]));
        let i = choose|i: int| 0 <= i < doing.len() && doing[i] == select(doing, p)[0];
        assert(overlaps_doing(affects, globs, doing[i]));
    }
}

/// Two tasks that both name the same path in `affects` overlap, whatever
/// their globs.
pub proof fn lemma_shared_path_overlaps(
    a_affects: Seq<Seq<char>>,
    a_globs: Seq<Seq<char>>,
    b_affects: Seq<Seq<char>>,
    b_globs: Seq<Seq<char>>,
    i: int,
    j: int,
)
    requires
        0 <= i < a_affects.len(),
        0 <= j < b_affects.len(),
        a_affects[i] == b_affects[j],
    ensures
        scope_overlap(a_affects, a_globs, b_affects, b_globs),
{
}

/// The description of overlapping scopes.
pub open spec fn conflict_text(entries: Seq<Seq<char>>) -> Seq<char> {
    "scope conflict detected with tasks currently in DOING:\n  - "@ + crate::context::join(
        entries,
        "\n  - "@,
    ) + "\n\nThe declaring scopes overlap, which may cause merge conflicts."@
}

/// Checks the scope of a task being claimed against the tasks in DOING. With
/// overlaps, the `Fail` policy refuses the claim and the `Warn` policy returns
/// the warning to show; `Ignore` checks nothing.
pub fn check_scope_conflicts(
    affects: &Vec<String>,
    affects_globs: &Vec<String>,
    doing: &Vec<DoingTask>,
    policy: ConflictPolicy,
) -> (r: Result<Option<String>, BurlError>)
    ensures
        policy != ConflictPolicy::Ignore ==> ((exists|k: int|
            0 <= k < doing@.len() && overlaps_doing(views(affects@), views(affects_globs@), #[trigger] doing@[k]))
            <==> !(r matches Ok(w) && w is None)),
        forall|k: int, i: int, j: int|
            #![trigger doing@[k].affects@[j], affects@[i]]
            0 <= k < doing@.len() && 0 <= i < affects@.len() && 0 <= j < doing@[k].affects@.len()
                && affects@[i]@ == doing@[k].affects@[j]@ ==> (policy == ConflictPolicy::Fail ==> r is Err) && (
            policy == ConflictPolicy::Warn ==> r matches Ok(Some(_))),
        ({
            let entries = conflict_entries(views(affects@), views(affects_globs@), doing@);
            if policy == ConflictPolicy::Ignore || entries.len() == 0 {
                r matches Ok(w) && w is None
            } else if policy == ConflictPolicy::Warn {
                r matches Ok(w) && w matches Some(m) && m@ == conflict_text(entries)
            } else {
                r matches Err(e) && user_error(
                    e,
                    "cannot claim task: "@ + conflict_text(entries)
                        + "\n\nTo proceed anyway, set `conflict_policy: warn` or `conflict_policy: ignore` in config.yaml."@,
                )
            }
        }),
{
    proof {
        lemma_conflicts_are_the_overlapping_tasks(views(affects@), views(affects_globs@), doing@);
        assert forall|k: int, i: int, j: int|
            #![trigger doing@[k].affects@[j], affects@[i]]
            0 <= k < doing@.len() && 0 <= i < affects@.len() && 0 <= j < doing@[k].affects@.len()
                && affects@[i]@ == doing@[k].affects@[j]@ implies overlaps_doing(
            views(affects@),
            views(affects_globs@),
            doing@[k],
        ) by {
            lemma_shared_path_overlaps(
                views(affects@),
                views(affects_globs@),
                views(doing@[k].affects@),
                views(doing@[k].affects_globs@),
                i,
                j,
            );
        }
    }
    if policy == ConflictPolicy::Ignore {
        return Ok(None);
    }
    let ghost av = views(affects@);
    let ghost gv = views(affects_globs@);
    let mut conflicts: Vec<String> = Vec::new();
    let mut i: usize = 0;
    while i < doing.len()
        invariant
            i <= doing@.len(),
            av == views(affects@),
            gv == views(affects_globs@),
            views(conflicts@) == conflict_entries(av, gv, doing@.take(i as int)),
        decreases doing@.len() - i,
    {
        assert(doing@.take(i + 1).drop_last() =~= doing@.take(i as int));
        let d = &doing[i];
        let ghost before = views(conflicts@);
        if scopes_overlap(affects, affects_globs, &d.affects, &d.affects_globs) {
            let mut e = chars_of(d.id.as_str());
            push_str(&mut e, " (");
            push_str(&mut e, d.title.as_str());
            push_str(&mut e, ")");
            conflicts.push(string_from_chars(&e));
            assert(views(conflicts@) =~= before + seq![d.id@ + " ("@ + d.title@ + ")"@]);
        } else {
            assert(before + Seq::<Seq<char>>::empty() =~= before);
        }
        i = i + 1;
    }
    assert(doing@.take(doing@.len() as int) =~= doing@);
    if conflicts.len() == 0 {
        return Ok(None);
    }
    let mut m: Vec<char> = Vec::new();
    push_str(&mut m, "scope conflict detected with tasks currently in DOING:\n  - ");
    let list = crate::context::join_strings(&conflicts, "\n  - ");
    push_str(&mut m, list.as_str());
    push_str(&mut m, "\n\nThe declaring scopes overlap, which may cause merge conflicts.");
    if policy == ConflictPolicy::Warn {
        return Ok(Some(string_from_chars(&m)));
    }
    let mut out: Vec<char> = Vec::new();
    push_str(&mut out, "cannot claim task: ");
    push_all(&mut out, &m);
    push_str(
        &mut out,
        "\n\nTo proceed anyway, set `conflict_policy: warn` or `conflict_policy: ignore` in config.yaml.",
    );
    Err(BurlError::UserError(string_from_chars(&out)))
}

} // verus!
