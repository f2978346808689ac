//! Cleanup of task worktrees: which worktrees and directories to remove, and
//! the safety checks every removal must pass.

use crate::cli::CleanArgs;
use crate::error::{user_error, BurlError};
use crate::paths::{components, has_traversal, path_components, path_contains_traversal, path_has_prefix, path_starts_with, comps_views};
use crate::paths::{make_relative, relative_text};
use crate::text::{chars_eq, chars_of, decimal, owned, push_decimal, push_str, str_eq, string_from_chars};
use vstd::prelude::*;

verus! {

broadcast use vstd::string::group_string_axioms;

/// A worktree or directory proposed for removal.
#[derive(Debug, Clone)]
pub struct CleanupCandidate {
    /// Path to the worktree or directory.
    pub path: String,
    /// Associated task, if any.
    pub task_id: Option<String>,
    /// Branch name, if known.
    pub branch: Option<String>,
}

/// What a cleanup would remove.
#[derive(Debug, Clone, Default)]
pub struct CleanupPlan {
    /// Worktrees of completed tasks.
    pub completed_worktrees: Vec<CleanupCandidate>,
    /// Git worktrees under `.worktrees/` that no task references.
    pub orphan_worktrees: Vec<CleanupCandidate>,
    /// Directories under `.worktrees/` that are not git worktrees.
    pub orphan_directories: Vec<String>,
}

/// What a cleanup did.
#[derive(Debug, Clone, Default)]
pub struct CleanupResult {
    /// Number of items removed.
    pub removed_count: usize,
    /// Number of items skipped because of errors.
    pub skipped_count: usize,
    /// Paths skipped, with the reason.
    pub skipped: Vec<(String, String)>,
}

impl CleanupResult {
    /// Counts one removal.
    pub fn record_removed(&mut self)
        requires
            old(self).removed_count < usize::MAX,
        ensures
            final(self).removed_count == old(self).removed_count + 1,
            final(self).skipped_count == old(self).skipped_count,
            final(self).skipped@ == old(self).skipped@,
    {
        self.removed_count = self.removed_count + 1;
    }

    /// Counts one skipped path, with the reason.
    pub fn record_skipped(&mut self, path: String, reason: String)
        requires
            old(self).skipped_count < usize::MAX,
        ensures
            final(self).removed_count == old(self).removed_count,
            final(self).skipped_count == old(self).skipped_count + 1,
            final(self).skipped@ == old(self).skipped@.push((path, reason)),
    {
        self.skipped_count = self.skipped_count + 1;
        self.skipped.push((path, reason));
    }
}

/// A task as the cleanup sees it.
#[derive(Debug, Clone)]
pub struct CleanTask {
    /// Task identifier.
    pub id: String,
    /// Bucket holding the task.
    pub bucket: String,
    /// Full path of the task's recorded worktree, if it records one.
    pub worktree: Option<String>,
    /// Canonical form of that path (the path itself when it cannot be resolved).
    pub worktree_canonical: String,
    /// Whether the worktree exists on disk.
    pub worktree_exists: bool,
    /// The task's recorded branch.
    pub branch: Option<String>,
}

/// An entry of the `.worktrees/` directory.
#[derive(Debug, Clone)]
pub struct CleanEntry {
    /// Path of the entry.
    pub path: String,
    /// Canonical form of the path (the path itself when it cannot be resolved).
    pub canonical: String,
    /// Whether the entry is a directory.
    pub is_dir: bool,
    /// Whether git lists the entry as a worktree.
    pub is_git_worktree: bool,
    /// The branch checked out there, when git reports one.
    pub branch: Option<String>,
}

/// Whether two paths have the same components (`PathBuf` equality).
pub open spec fn same_path(a: Seq<char>, b: Seq<char>) -> bool {
    components(a) == components(b)
}

/// Whether two paths have the same components.
pub fn paths_equal(a: &str, b: &str) -> (r: bool)
    ensures
        r == same_path(a@, b@),
{
    let ac = path_components(a);
    let bc = path_components(b);
    assert(components(a@).len() == ac@.len());
    assert(components(b@).len() == bc@.len());
    if ac.len() != bc.len() {
        return false;
    }
    let mut i: usize = 0;
    while i < ac.len()
        invariant
            ac@.len() == bc@.len(),
            i <= ac@.len(),
            comps_views(ac@) == components(a@),
            comps_views(bc@) == components(b@),
            forall|k: int| 0 <= k < i ==> ac@[k]@ == bc@[k]@,
        decreases ac@.len() - i,
    {
        if !chars_eq(&ac[i], &bc[i]) {
            assert(components(a@)[i as int] != components(b@)[i as int]);
            return false;
        }
        i = i + 1;
    }
    assert(components(a@) =~= components(b@));
    true
}

/// Whether some task references the path `p` (by its recorded or canonical path).
pub open spec fn referenced(tasks: Seq<CleanTask>, p: Seq<char>) -> bool {
    exists|i: int|
        0 <= i < tasks.len() && tasks[i].worktree is Some && (same_path(tasks[i].worktree->0@, p)
            || same_path(tasks[i].worktree_canonical@, p))
}

/// Whether completed-task worktrees are cleaned (`--completed`, or neither flag).
pub open spec fn cleans_completed(args: CleanArgs) -> bool {
    args.completed || !args.orphans
}

/// Whether orphans are cleaned (`--orphans`, or neither flag).
pub open spec fn cleans_orphans(args: CleanArgs) -> bool {
    args.orphans || !args.completed
}

/// The candidate for a task's worktree when it is a completed task's existing worktree.
pub open spec fn completed_candidate(t: CleanTask) -> Seq<CleanupCandidate> {
    if t.worktree is Some && t.bucket@ == "DONE"@ && t.worktree_exists {
        seq![CleanupCandidate { path: t.worktree->0, task_id: Some(t.id), branch: t.branch }]
    } else {
        Seq::empty()
    }
}

/// The completed-task candidates, in task order.
pub open spec fn completed_candidates(tasks: Seq<CleanTask>) -> Seq<CleanupCandidate>
    decreases tasks.len(),
{
    if tasks.len() == 0 {
        Seq::empty()
    } else {
        completed_candidates(tasks.drop_last()) + completed_candidate(tasks.last())
    }
}

/// Whether a `.worktrees/` entry is an orphan: a directory with no `..`
/// component that no task references.
pub open spec fn is_orphan(tasks: Seq<CleanTask>, e: CleanEntry) -> bool {
    e.is_dir && !has_traversal(e.path@) && !referenced(tasks, e.canonical@) && !referenced(tasks, e.path@)
}

/// The orphan git worktrees among the entries, in order.
pub open spec fn orphan_worktrees(tasks: Seq<CleanTask>, entries: Seq<CleanEntry>) -> Seq<CleanupCandidate>
    decreases entries.len(),
{
    if entries.len() == 0 {
        Seq::empty()
    } else {
        let e = entries.last();
        orphan_worktrees(tasks, entries.drop_last()) + if is_orphan(tasks, e) && e.is_git_worktree {
            seq![CleanupCandidate { path: e.path, task_id: None, branch: e.branch }]
        } else {
            Seq::empty()
        }
    }
}

/// The orphan directories (not git worktrees) among the entries, in order.
pub open spec fn orphan_directories(tasks: Seq<CleanTask>, entries: Seq<CleanEntry>) -> Seq<String>
    decreases entries.len(),
{
    if entries.len() == 0 {
        Seq::empty()
    } else {
        let e = entries.last();
        orphan_directories(tasks, entries.drop_last()) + if is_orphan(tasks, e) && !e.is_git_worktree {
            seq![e.path]
        } else {
            Seq::empty()
        }
    }
}

/// Whether some task references `p`.
fn is_referenced(tasks: &Vec<CleanTask>, p: &str) -> (r: bool)
    ensures
        r == referenced(tasks@, p@),
{
    let mut i: usize = 0;
    while i < tasks.len()
        invariant
            i <= tasks@.len(),
            forall|k: int|
                0 <= k < i ==> !(tasks@[k].worktree is Some && (same_path(tasks@[k].worktree->0@, p@)
                    || same_path(tasks@[k].worktree_canonical@, p@))),
        decreases tasks@.len() - i,
    {
        match &tasks[i].worktree {
            Some(w) => {
                if paths_equal(w.as_str(), p) || paths_equal(tasks[i].worktree_canonical.as_str(), p) {
                    return true;
                }
            },
            None => {},
        }
        i = i + 1;
    }
    false
}

/// Builds the cleanup plan from the tasks and the entries of `.worktrees/`:
/// the existing worktrees of tasks in DONE (unless only orphans are asked
/// for), and, when `.worktrees/` exists (unless only completed worktrees are
/// asked for), the unreferenced directories there, split into git worktrees
/// and plain directories.
pub fn build_cleanup_plan(
    args: &CleanArgs,
    tasks: &Vec<CleanTask>,
    worktrees_dir_exists: bool,
    entries: &Vec<CleanEntry>,
) -> (r: CleanupPlan)
    ensures
        r.completed_worktrees@ == if cleans_completed(*args) {
            completed_candidates(tasks@)
        } else {
            Seq::empty()
        },
        r.orphan_worktrees@ == if cleans_orphans(*args) && worktrees_dir_exists {
            orphan_worktrees(tasks@, entries@)
        } else {
            Seq::empty()
        },
        r.orphan_directories@ == if cleans_orphans(*args) && worktrees_dir_exists {
            orphan_directories(tasks@, entries@)
        } else {
            Seq::empty()
        },
{
    let clean_completed = args.completed || !args.orphans;
    let clean_orphans = args.orphans || !args.completed;
    let mut completed: Vec<CleanupCandidate> = Vec::new();
    if clean_completed {
        let mut i: usize = 0;
        while i < tasks.len()
            invariant
                i <= tasks@.len(),
                completed@ == completed_candidates(tasks@.take(i as int)),
            decreases tasks@.len() - i,
        {
            assert(tasks@.take(i + 1).drop_last() =~= tasks@.take(i as int));
            let t = &tasks[i];
            match &t.worktree {
                Some(w) => {
                    if str_eq(t.bucket.as_str(), "DONE") && t.worktree_exists {
                        completed.push(
                            CleanupCandidate {
                                path: w.clone(),
                                task_id: Some(t.id.clone()),
                                branch: t.branch.clone(),
                            },
                        );
                    } else {
                        assert(completed@ + Seq::<CleanupCandidate>::empty() =~= completed@);
                    }
                },
                None => {
                    assert(completed@ + Seq::<CleanupCandidate>::empty() =~= completed@);
                },
            }
            i = i + 1;
        }
        assert(tasks@.take(tasks@.len() as int) =~= tasks@);
    }
    let mut orphans: Vec<CleanupCandidate> = Vec::new();
    let mut dirs: Vec<String> = Vec::new();
    if clean_orphans && worktrees_dir_exists {
        let mut i: usize = 0;
        while i < entries.len()
            invariant
                i <= entries@.len(),
                orphans@ == orphan_worktrees(tasks@, entries@.take(i as int)),
                dirs@ == orphan_directories(tasks@, entries@.take(i as int)),
            decreases entries@.len() - i,
        {
            assert(entries@.take(i + 1).drop_last() =~= entries@.take(i as int));
            let e = &entries[i];
            let orphan = e.is_dir && !path_contains_traversal(e.path.as_str()) && !is_referenced(
                tasks,
                e.canonical.as_str(),
            ) && !is_referenced(tasks, e.path.as_str());
            if orphan && e.is_git_worktree {
                orphans.push(CleanupCandidate { path: e.path.clone(), task_id: None, branch: e.branch.clone() });
                assert(dirs@ + Seq::<String>::empty() =~= dirs@);
            } else if orphan {
                dirs.push(e.path.clone());
                assert(orphans@ + Seq::<CleanupCandidate>::empty() =~= orphans@);
            } else {
                assert(dirs@ + Seq::<String>::empty() =~= dirs@);
                assert(orphans@ + Seq::<CleanupCandidate>::empty() =~= orphans@);
            }
            i = i + 1;
        }
        assert(entries@.take(entries@.len() as int) =~= entries@);
    }
    CleanupPlan { completed_worktrees: completed, orphan_worktrees: orphans, orphan_directories: dirs }
}

/// Whether `path` lies under `parent`, both already resolved (canonical
/// where they exist): the components of `parent` begin those of `path`.
pub fn is_path_under(path: &str, parent: &str) -> (r: bool)
    ensures
        r == path_has_prefix(path@, parent@),
{
    path_starts_with(path, parent)
}

/// What is being removed.
#[derive(Debug, Clone, Copy, PartialEq, Eq, Structural)]
pub enum RemovalKind {
    /// A git worktree.
    Worktree,
    /// A plain directory.
    Directory,
}

/// Why a removal is refused, if it is: a path outside `.worktrees/` (compared
/// through the resolved forms), a path with a `..` component, or a worktree
/// with uncommitted changes.
pub open spec fn removal_refusal(
    kind: RemovalKind,
    path: Seq<char>,
    resolved: Seq<char>,
    worktrees_dir: Seq<char>,
    repo_root: Seq<char>,
    dirty: bool,
) -> Option<Seq<char>> {
    let what = if kind == RemovalKind::Worktree { "worktree"@ } else { "directory"@ };
    if !path_has_prefix(resolved, worktrees_dir) {
        Some("refusing to remove "@ + what + " outside .worktrees/: "@ + path)
    } else if has_traversal(path) {
        Some("refusing to remove path with traversal: "@ + path)
    } else if kind == RemovalKind::Worktree && dirty {
        Some(
            "refusing to remove worktree with uncommitted changes: "@ + path
                + "\n\nReview with:\n  git -C "@ + path
                + " status\n\nIf you are sure and want to discard the changes, remove manually:\n  git -C "@
                + repo_root + " worktree remove --force "@ + path,
        )
    } else {
        None
    }
}

/// Checks that a worktree or directory may be removed. `resolved` and
/// `worktrees_dir` are the resolved forms of the path and of `.worktrees/`;
/// `dirty` tells whether a worktree has uncommitted changes.
pub fn check_removal(
    kind: RemovalKind,
    path: &str,
    resolved: &str,
    worktrees_dir: &str,
    repo_root: &str,
    dirty: bool,
) -> (r: Result<(), BurlError>)
    ensures
        match removal_refusal(kind, path@, resolved@, worktrees_dir@, repo_root@, dirty) {
            None => r is Ok,
            Some(m) => r matches Err(e) && user_error(e, m),
        },
{
    let mut out: Vec<char> = Vec::new();
    if !is_path_under(resolved, worktrees_dir) {
        push_str(&mut out, "refusing to remove ");
        if kind == RemovalKind::Worktree {
            push_str(&mut out, "worktree");
        } else {
            push_str(&mut out, "directory");
        }
        push_str(&mut out, " outside .worktrees/: ");
        push_str(&mut out, path);
        return Err(BurlError::UserError(string_from_chars(&out)));
    }
    if path_contains_traversal(path) {
        push_str(&mut out, "refusing to remove path with traversal: ");
        push_str(&mut out, path);
        return Err(BurlError::UserError(string_from_chars(&out)));
    }
    if kind == RemovalKind::Worktree && dirty {
        push_str(&mut out, "refusing to remove worktree with uncommitted changes: ");
        push_str(&mut out, path);
        push_str(&mut out, "\n\nReview with:\n  git -C ");
        push_str(&mut out, path);
        push_str(
            &mut out,
            " status\n\nIf you are sure and want to discard the changes, remove manually:\n  git -C ",
        );
        push_str(&mut out, repo_root);
        push_str(&mut out, " worktree remove --force ");
        push_str(&mut out, path);
        return Err(BurlError::UserError(string_from_chars(&out)));
    }
    Ok(())
}

// ---------------------------------------------------------------------------
// The plan as text
// ---------------------------------------------------------------------------

/// The lines listing candidates, each relative to `root` and followed by its
/// task (`with_task`) or its branch.
pub open spec fn candidate_lines(cs: Seq<CleanupCandidate>, root: Seq<char>, with_task: bool) -> Seq<char>
    decreases cs.len(),
{
    if cs.len() == 0 {
        Seq::empty()
    } else {
        let c = cs.last();
        candidate_lines(cs.drop_last(), root, with_task) + "  - "@ + relative_text(c.path@, root) + (if with_task {
            match c.task_id {
                Some(id) => " ("@ + id@ + ")"@,
                None => Seq::empty(),
            }
        } else {
            match c.branch {
                Some(b) => " [branch: "@ + b@ + "]"@,
                None => Seq::empty(),
            }
        }) + "\n"@
    }
}

/// The lines listing directories relative to `root`.
pub open spec fn directory_lines(ds: Seq<String>, root: Seq<char>) -> Seq<char>
    decreases ds.len(),
{
    if ds.len() == 0 {
        Seq::empty()
    } else {
        directory_lines(ds.drop_last(), root) + "  - "@ + relative_text(ds.last()@, root) + "\n"@
    }
}

/// The section listing a plan's completed-task worktrees.
pub open spec fn completed_section(plan: CleanupPlan, root: Seq<char>) -> Seq<char> {
    if plan.completed_worktrees@.len() > 0 {
        "Completed task worktrees ("@ + decimal(plan.completed_worktrees@.len() as nat) + "):\n"@
            + candidate_lines(plan.completed_worktrees@, root, true) + "\n"@
    } else {
        Seq::empty()
    }
}

/// The section listing a plan's orphan worktrees.
pub open spec fn orphans_section(plan: CleanupPlan, root: Seq<char>) -> Seq<char> {
    if plan.orphan_worktrees@.len() > 0 {
        "Orphan worktrees ("@ + decimal(plan.orphan_worktrees@.len() as nat) + "):\n"@ + candidate_lines(
            plan.orphan_worktrees@,
            root,
            false,
        ) + "\n"@
    } else {
        Seq::empty()
    }
}

/// The section listing a plan's orphan directories.
pub open spec fn directories_section(plan: CleanupPlan, root: Seq<char>) -> Seq<char> {
    if plan.orphan_directories@.len() > 0 {
        "Orphan directories (not git worktrees) ("@ + decimal(plan.orphan_directories@.len() as nat)
            + "):\n"@ + directory_lines(plan.orphan_directories@, root) + "\n"@
    } else {
        Seq::empty()
    }
}

/// The text of a cleanup plan as shown to the user.
pub open spec fn plan_text(plan: CleanupPlan, root: Seq<char>) -> Seq<char> {
    "Cleanup plan:\n\n"@ + completed_section(plan, root) + orphans_section(plan, root)
        + directories_section(plan, root)
}

fn push_candidates(out: &mut Vec<char>, cs: &Vec<CleanupCandidate>, root: &str, with_task: bool)
    ensures
        final(out)@ == old(out)@ + candidate_lines(cs@, root@, with_task),
{
    let ghost start = out@;
    let mut i: usize = 0;
    while i < cs.len()
        invariant
            i <= cs@.len(),
            out@ == start + candidate_lines(cs@.take(i as int), root@, with_task),
        decreases cs@.len() - i,
    {
        assert(cs@.take(i + 1).drop_last() =~= cs@.take(i as int));
        let ghost before = out@;
        let c = &cs[i];
        push_str(out, "  - ");
        let rel = make_relative(c.path.as_str(), root);
        push_str(out, rel.as_str());
        let ghost mid = out@;
        if with_task {
            if let Some(id) = &c.task_id {
                push_str(out, " (");
                push_str(out, id.as_str());
                push_str(out, ")");
            }
        } else {
            if let Some(b) = &c.branch {
                push_str(out, " [branch: ");
                push_str(out, b.as_str());
                push_str(out, "]");
            }
        }
        push_str(out, "\n");
        let ghost tail = if with_task {
            match &c.task_id {
                Some(id) => " ("@ + id@ + ")"@,
                None => Seq::<char>::empty(),
            }
        } else {
            match &c.branch {
                Some(b) => " [branch: "@ + b@ + "]"@,
                None => Seq::<char>::empty(),
            }
        };
        assert(out@ =~= before + "  - "@ + relative_text(c.path@, root@) + tail + "\n"@);
        i = i + 1;
    }
    assert(cs@.take(cs@.len() as int) =~= cs@);
}

fn push_directories(out: &mut Vec<char>, ds: &Vec<String>, root: &str)
    ensures
        final(out)@ == old(out)@ + directory_lines(ds@, root@),
{
    let ghost start = out@;
    let mut i: usize = 0;
    while i < ds.len()
        invariant
            i <= ds@.len(),
            out@ == start + directory_lines(ds@.take(i as int), root@),
        decreases ds@.len() - i,
    {
        assert(ds@.take(i + 1).drop_last() =~= ds@.take(i as int));
        push_str(out, "  - ");
        let rel = make_relative(ds[i].as_str(), root);
        push_str(out, rel.as_str());
        push_str(out, "\n");
        i = i + 1;
    }
    assert(ds@.take(ds@.len() as int) =~= ds@);
}

/// Formats a cleanup plan as shown to the user, paths relative to `repo_root`.
pub fn format_cleanup_plan(plan: &CleanupPlan, repo_root: &str) -> (r: String)
    ensures
        r@ == plan_text(*plan, repo_root@),
{
    let mut out = chars_of("Cleanup plan:\n\n");
    let ghost s0 = out@;
    if plan.completed_worktrees.len() > 0 {
        push_str(&mut out, "Completed task worktrees (");
        push_decimal(&mut out, plan.completed_worktrees.len() as u64);
        push_str(&mut out, "):\n");
        push_candidates(&mut out, &plan.completed_worktrees, repo_root, true);
        push_str(&mut out, "\n");
    }
    assert(out@ =~= s0 + completed_section(*plan, repo_root@));
    let ghost s1 = out@;
    if plan.orphan_worktrees.len() > 0 {
        push_str(&mut out, "Orphan worktrees (");
        push_decimal(&mut out, plan.orphan_worktrees.len() as u64);
        push_str(&mut out, "):\n");
        push_candidates(&mut out, &plan.orphan_worktrees, repo_root, false);
        push_str(&mut out, "\n");
    }
    assert(out@ =~= s1 + orphans_section(*plan, repo_root@));
    let ghost s2 = out@;
    if plan.orphan_directories.len() > 0 {
        push_str(&mut out, "Orphan directories (not git worktrees) (");
        push_decimal(&mut out, plan.orphan_directories.len() as u64);
        push_str(&mut out, "):\n");
        push_directories(&mut out, &plan.orphan_directories, repo_root);
        push_str(&mut out, "\n");
    }
    assert(out@ =~= s2 + directories_section(*plan, repo_root@));
    assert(out@ =~= plan_text(*plan, repo_root@));
    string_from_chars(&out)
}

// ---------------------------------------------------------------------------
// The cleanup plan as a whole
// ---------------------------------------------------------------------------

/// Whether candidate `c` is the existing worktree of a task in DONE.
pub open spec fn completed_worktree_of(tasks: Seq<CleanTask>, c: CleanupCandidate) -> bool {
    c.task_id is Some && exists|i: int|
        0 <= i < tasks.len() && #[trigger] tasks[i].id == c.task_id->0 && tasks[i].bucket@ == "DONE"@
            && tasks[i].worktree_exists && tasks[i].worktree == Some(c.path)
}

/// Whether `path` is an orphan entry of `.worktrees/` that is (or is not) a git worktree.
pub open spec fn orphan_entry(tasks: Seq<CleanTask>, entries: Seq<CleanEntry>, path: String, git: bool) -> bool {
    !has_traversal(path@) && exists|j: int|
        0 <= j < entries.len() && #[trigger] entries[j].path == path && is_orphan(tasks, entries[j])
            && entries[j].is_git_worktree == git
}

proof fn lemma_completed_members(tasks: Seq<CleanTask>)
    ensures
        forall|k: int| 0 <= k < completed_candidates(tasks).len() ==> completed_worktree_of(
            tasks,
            #[trigger] completed_candidates(tasks)[k],
        ),
    decreases tasks.len(),
{
    if tasks.len() > 0 {
        let d = tasks.drop_last();
        lemma_completed_members(d);
        assert forall|k: int| 0 <= k < completed_candidates(tasks).len() implies completed_worktree_of(
            tasks,
            #[trigger] completed_candidates(tasks)[k],
        ) by {
            let c = completed_candidates(tasks)[k];
            if k < completed_candidates(d).len() {
                assert(c == completed_candidates(d)[k]);
                let i = choose|i: int|
                    0 <= i < d.len() && #[trigger] d[i].id == c.task_id->0 && d[i].bucket@ == "DONE"@
                        && d[i].worktree_exists && d[i].worktree == Some(c.path);
                assert(tasks[i] == d[i]);
            } else {
                let t = tasks.last();
                assert(tasks[tasks.len() - 1] == t);
                assert(tasks[tasks.len() - 1].id == c.task_id->0);
            }
        }
    }
}

proof fn lemma_orphan_members(tasks: Seq<CleanTask>, entries: Seq<CleanEntry>)
    ensures
        forall|k: int| 0 <= k < orphan_worktrees(tasks, entries).len() ==> (#[trigger] orphan_worktrees(tasks, entries)[k]).task_id is None
            && orphan_entry(tasks, entries, orphan_worktrees(tasks, entries)[k].path, true),
        forall|k: int| 0 <= k < orphan_directories(tasks, entries).len() ==> orphan_entry(
            tasks,
            entries,
            #[trigger] orphan_directories(tasks, entries)[k],
            false,
        ),
    decreases entries.len(),
{
    if entries.len() > 0 {
        let d = entries.drop_last();
        let e = entries.last();
        lemma_orphan_members(tasks, d);
        assert(entries[entries.len() - 1] == e);
        assert forall|k: int| 0 <= k < orphan_worktrees(tasks, entries).len() implies (#[trigger] orphan_worktrees(tasks, entries)[k]).task_id is None
            && orphan_entry(tasks, entries, orphan_worktrees(tasks, entries)[k].path, true) by {
            let c = orphan_worktrees(tasks, entries)[k];
            if k < orphan_worktrees(tasks, d).len() {
                assert(c == orphan_worktrees(tasks, d)[k]);
                let j = choose|j: int|
                    0 <= j < d.len() && #[trigger] d[j].path == c.path && is_orphan(tasks, d[j]) && d[j].is_git_worktree
                        == true;
                assert(entries[j] == d[j]);
            } else {
                assert(entries[entries.len() - 1].path == c.path);
            }
        }
        assert forall|k: int| 0 <= k < orphan_directories(tasks, entries).len() implies orphan_entry(
            tasks,
            entries,
            #[trigger] orphan_directories(tasks, entries)[k],
            false,
        ) by {
            let c = orphan_directories(tasks, entries)[k];
            if k < orphan_directories(tasks, d).len() {
                assert(c == orphan_directories(tasks, d)[k]);
                let j = choose|j: int|
                    0 <= j < d.len() && #[trigger] d[j].path == c && is_orphan(tasks, d[j]) && d[j].is_git_worktree
                        == false;
                assert(entries[j] == d[j]);
            } else {
                assert(entries[entries.len() - 1].path == c);
            }
        }
    }
}

/// What a cleanup plan holds, whatever the tasks and entries: `--completed`
/// alone plans no orphan, `--orphans` alone no completed worktree; every
/// completed candidate is the existing worktree of a task in DONE, named by
/// that task; every orphan worktree and orphan directory is an entry of
/// `.worktrees/` (a git worktree or not, as listed) with no `..` component
/// that no task references.
pub proof fn lemma_cleanup_plan_law(
    args: CleanArgs,
    tasks: Seq<CleanTask>,
    worktrees_dir_exists: bool,
    entries: Seq<CleanEntry>,
    plan: CleanupPlan,
)
    requires
        plan.completed_worktrees@ == if cleans_completed(args) {
            completed_candidates(tasks)
        } else {
            Seq::empty()
        },
        plan.orphan_worktrees@ == if cleans_orphans(args) && worktrees_dir_exists {
            orphan_worktrees(tasks, entries)
        } else {
            Seq::empty()
        },
        plan.orphan_directories@ == if cleans_orphans(args) && worktrees_dir_exists {
            orphan_directories(tasks, entries)
        } else {
            Seq::empty()
        },
    ensures
        args.completed && !args.orphans ==> plan.orphan_worktrees@.len() == 0 && plan.orphan_directories@.len() == 0,
        args.orphans && !args.completed ==> plan.completed_worktrees@.len() == 0,
        forall|k: int| 0 <= k < plan.completed_worktrees@.len() ==> completed_worktree_of(
            tasks,
            #[trigger] plan.completed_worktrees@[k],
        ),
        forall|k: int| 0 <= k < plan.orphan_worktrees@.len() ==> (#[trigger] plan.orphan_worktrees@[k]).task_id is None
            && orphan_entry(tasks, entries, plan.orphan_worktrees@[k].path, true),
        forall|k: int| 0 <= k < plan.orphan_directories@.len() ==> orphan_entry(
            tasks,
            entries,
            #[trigger] plan.orphan_directories@[k],
            false,
        ),
{
    lemma_completed_members(tasks);
    lemma_orphan_members(tasks, entries);
}

} // verus!
