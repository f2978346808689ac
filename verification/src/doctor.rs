//! Workflow health diagnosis.
//!
//! Checks report:
//! - missing `locks/` and `events/` directories,
//! - stale locks and orphan lock files (a lock whose task does not exist),
//! - tasks in DOING/QA missing `base_sha` or whose worktree is missing,
//! - worktrees under `.worktrees/` not referenced by any task,
//! - tasks referencing a branch that does not exist locally,
//! - bucket/metadata mismatches (e.g. a READY task with `started_at` set).
//!
//! The checks take what the file system and git report as plain values.

use crate::cli::DoctorArgs;
use crate::error::BurlError;
use crate::task::{find_task, TaskFrontmatter, TaskIndex, TaskInfo};
use crate::gates::select;
use crate::paths::{is_absolute, join_path, join_paths};
use crate::context::{join, join_strings, views};
use crate::text::{chars_of, contains, decimal, owned, push_decimal, push_str, str_contains, str_eq, string_from_chars};
use vstd::prelude::*;

verus! {

broadcast use vstd::string::group_string_axioms;

/// Severity level of an issue.
#[derive(Debug, Clone, Copy, PartialEq, Eq, Structural)]
pub enum IssueSeverity {
    /// A potential problem, not critical.
    Warning,
    /// Something is wrong and should be fixed.
    Error,
}

impl IssueSeverity {
    /// The label of this severity.
    pub open spec fn label(&self) -> Seq<char> {
        match self {
            IssueSeverity::Warning => "WARNING"@,
            IssueSeverity::Error => "ERROR"@,
        }
    }

    /// The label of this severity (`WARNING` or `ERROR`).
    pub fn to_string(&self) -> (r: String)
        ensures
            r@ == self.label(),
    {
        match self {
            IssueSeverity::Warning => owned("WARNING"),
            IssueSeverity::Error => owned("ERROR"),
        }
    }
}

/// A detected issue with a recommended fix.
#[derive(Debug, Clone)]
pub struct Issue {
    /// Severity level.
    pub severity: IssueSeverity,
    /// Category of the issue.
    pub category: String,
    /// Description of the issue.
    pub description: String,
    /// Path or identifier involved.
    pub path: Option<String>,
    /// Recommended remediation command or action.
    pub remediation: Option<String>,
    /// Whether this issue can be auto-repaired.
    pub repairable: bool,
}

/// Mathematical form of an [`Issue`].
pub struct IssueView {
    pub severity: IssueSeverity,
    pub category: Seq<char>,
    pub description: Seq<char>,
    pub path: Option<Seq<char>>,
    pub remediation: Option<Seq<char>>,
    pub repairable: bool,
}

/// The text of an optional string.
pub open spec fn opt_view(o: Option<String>) -> Option<Seq<char>> {
    match o {
        Some(s) => Some(s@),
        None => None,
    }
}

impl View for Issue {
    type V = IssueView;

    open spec fn view(&self) -> IssueView {
        IssueView {
            severity: self.severity,
            category: self.category@,
            description: self.description@,
            path: opt_view(self.path),
            remediation: opt_view(self.remediation),
            repairable: self.repairable,
        }
    }
}

/// An issue with no path, no remediation, not repairable.
pub open spec fn issue(severity: IssueSeverity, category: Seq<char>, description: Seq<char>) -> IssueView {
    IssueView { severity, category, description, path: None, remediation: None, repairable: false }
}

/// `i` with a path.
pub open spec fn at(i: IssueView, path: Seq<char>) -> IssueView {
    IssueView { path: Some(path), ..i }
}

/// `i` with a remediation.
pub open spec fn fix(i: IssueView, remediation: Seq<char>) -> IssueView {
    IssueView { remediation: Some(remediation), ..i }
}

/// `i` marked repairable.
pub open spec fn repairable_issue(i: IssueView) -> IssueView {
    IssueView { repairable: true, ..i }
}

impl Issue {
    /// Creates an issue with no path or remediation, not repairable.
    pub fn new(severity: IssueSeverity, category: &str, description: &str) -> (r: Issue)
        ensures
            r@ == issue(severity, category@, description@),
    {
        Issue {
            severity,
            category: owned(category),
            description: owned(description),
            path: None,
            remediation: None,
            repairable: false,
        }
    }

    /// Sets the path involved.
    pub fn with_path(self, path: &str) -> (r: Issue)
        ensures
            r@ == at(self@, path@),
    {
        Issue { path: Some(owned(path)), ..self }
    }

    /// Sets the recommended remediation.
    pub fn with_remediation(self, remediation: &str) -> (r: Issue)
        ensures
            r@ == fix(self@, remediation@),
    {
        Issue { remediation: Some(owned(remediation)), ..self }
    }

    /// Marks the issue as auto-repairable.
    pub fn repairable(self) -> (r: Issue)
        ensures
            r@ == repairable_issue(self@),
    {
        Issue { repairable: true, ..self }
    }
}

/// Result of running the doctor checks.
#[derive(Debug, Clone)]
pub struct DoctorReport {
    /// Detected issues.
    pub issues: Vec<Issue>,
    /// Repairs that were performed (in repair mode).
    pub repairs: Vec<String>,
}

/// The views of a list of issues.
pub open spec fn issue_views(v: Seq<Issue>) -> Seq<IssueView> {
    v.map_values(|i: Issue| i@)
}

impl DoctorReport {
    /// An empty report.
    pub fn new() -> (r: DoctorReport)
        ensures
            r.issues@.len() == 0,
            r.repairs@.len() == 0,
    {
        DoctorReport { issues: Vec::new(), repairs: Vec::new() }
    }

    /// Whether any issue was found.
    pub fn has_issues(&self) -> (r: bool)
        ensures
            r == (self.issues@.len() > 0),
    {
        self.issues.len() > 0
    }

    /// Whether any issue has severity `Error`.
    pub fn has_errors(&self) -> (r: bool)
        ensures
            r == exists|i: int| 0 <= i < self.issues@.len() && self.issues@[i].severity == IssueSeverity::Error,
    {
        let mut i: usize = 0;
        while i < self.issues.len()
            invariant
                i <= self.issues@.len(),
                forall|j: int| 0 <= j < i ==> self.issues@[j].severity != IssueSeverity::Error,
            decreases self.issues@.len() - i,
        {
            if self.issues[i].severity == IssueSeverity::Error {
                return true;
            }
            i = i + 1;
        }
        false
    }

    fn add(&mut self, issue: Issue)
        ensures
            final(self).issues@ == old(self).issues@.push(issue),
            issue_views(final(self).issues@) == issue_views(old(self).issues@) + seq![issue@],
            final(self).repairs@ == old(self).repairs@,
    {
        self.issues.push(issue);
        assert(issue_views(self.issues@) =~= issue_views(old(self).issues@) + seq![issue@]);
    }
}

// ---------------------------------------------------------------------------
// Inputs reported by the file system, the lock store and git
// ---------------------------------------------------------------------------

/// A lock file as listed by the lock store.
#[derive(Debug, Clone)]
pub struct LockSummary {
    /// Lock name (`workflow`, `claim`, or a task ID).
    pub name: String,
    /// Path of the lock file.
    pub path: String,
    /// Human-readable age of the lock.
    pub age: String,
    /// Whether the lock is older than the stale threshold.
    pub is_stale: bool,
}

/// A readable task file, where it lies, and what git and the file system say of it.
#[derive(Debug, Clone)]
pub struct TaskRecord {
    /// Where the task file was found.
    pub info: TaskInfo,
    /// Its frontmatter.
    pub frontmatter: TaskFrontmatter,
    /// Whether the recorded worktree directory exists.
    pub worktree_exists: bool,
    /// Whether the recorded branch exists locally (`None` when git could not tell).
    pub branch_exists: Option<bool>,
}

/// A git worktree: its path and its canonical form.
#[derive(Debug, Clone)]
pub struct WorktreeEntry {
    /// Path as listed by git.
    pub path: String,
    /// Canonical path (the listed path when it cannot be resolved).
    pub canonical: String,
}

/// The issues found for each element of `items`, in order.
pub open spec fn issues_over<T>(items: Seq<T>, f: spec_fn(T) -> Seq<IssueView>) -> Seq<IssueView>
    decreases items.len(),
{
    if items.len() == 0 {
        Seq::empty()
    } else {
        issues_over(items.drop_last(), f) + f(items.last())
    }
}

proof fn lemma_push_view(v: Seq<Issue>, x: Issue)
    ensures
        issue_views(v.push(x)) == issue_views(v) + seq![x@],
{
    assert(issue_views(v.push(x)) =~= issue_views(v) + seq![x@]);
}

proof fn lemma_issues_over_step<T>(items: Seq<T>, i: int, f: spec_fn(T) -> Seq<IssueView>)
    requires
        0 <= i < items.len(),
    ensures
        issues_over(items.take(i + 1), f) == issues_over(items.take(i), f) + f(items[i]),
{
    assert(items.take(i + 1).drop_last() =~= items.take(i));
}

// ---------------------------------------------------------------------------
// Checks
// ---------------------------------------------------------------------------

/// The issue for a missing directory.
pub open spec fn missing_dir_issue(what: Seq<char>, dir: Seq<char>) -> IssueView {
    repairable_issue(
        fix(
            at(issue(IssueSeverity::Warning, "missing_directory"@, what + " directory does not exist"@), dir),
            "Directory will be created automatically when needed"@,
        ),
    )
}

fn missing_dir(what: &str, dir: &str) -> (r: Issue)
    ensures
        r@ == missing_dir_issue(what@, dir@),
{
    let mut d = chars_of(what);
    push_str(&mut d, " directory does not exist");
    let desc = string_from_chars(&d);
    Issue::new(IssueSeverity::Warning, "missing_directory", desc.as_str()).with_path(dir).with_remediation(
        "Directory will be created automatically when needed",
    ).repairable()
}

/// Reports a missing `locks/` or `events/` directory.
pub fn check_missing_directories(
    locks_dir: &str,
    locks_dir_exists: bool,
    events_dir: &str,
    events_dir_exists: bool,
    report: &mut DoctorReport,
)
    ensures
        issue_views(final(report).issues@) == issue_views(old(report).issues@) + (if locks_dir_exists {
            Seq::empty()
        } else {
            seq![missing_dir_issue("Locks"@, locks_dir@)]
        }) + (if events_dir_exists {
            Seq::empty()
        } else {
            seq![missing_dir_issue("Events"@, events_dir@)]
        }),
        final(report).repairs@ == old(report).repairs@,
{
    let ghost start = issue_views(report.issues@);
    if !locks_dir_exists {
        report.add(missing_dir("Locks", locks_dir));
    }
    let ghost mid = issue_views(report.issues@);
    if !events_dir_exists {
        report.add(missing_dir("Events", events_dir));
    }
    assert(issue_views(report.issues@) =~= start + (if locks_dir_exists {
        Seq::empty()
    } else {
        seq![missing_dir_issue("Locks"@, locks_dir@)]
    }) + (if events_dir_exists {
        Seq::empty()
    } else {
        seq![missing_dir_issue("Events"@, events_dir@)]
    }));
}

/// The remediation for clearing a lock.
pub open spec fn clear_lock_hint(name: Seq<char>) -> Seq<char> {
    "burl lock clear "@ + name + " --force"@
}

/// The issues for a stale lock.
pub open spec fn stale_lock_issues(stale_minutes: u32, l: LockSummary) -> Seq<IssueView> {
    if l.is_stale {
        seq![
            repairable_issue(
                fix(
                    at(
                        issue(
                            IssueSeverity::Warning,
                            "stale_lock"@,
                            "Lock '"@ + l.name@ + "' is stale (age: "@ + l.age@ + ", threshold: "@
                                + crate::text::decimal(stale_minutes as nat) + " min)"@,
                        ),
                        l.path@,
                    ),
                    clear_lock_hint(l.name@),
                ),
            ),
        ]
    } else {
        Seq::empty()
    }
}

fn lock_clear_hint(name: &str) -> (r: String)
    ensures
        r@ == clear_lock_hint(name@),
{
    let mut m = chars_of("burl lock clear ");
    push_str(&mut m, name);
    push_str(&mut m, " --force");
    string_from_chars(&m)
}

/// Reports every stale lock.
pub fn check_stale_locks(locks: &Vec<LockSummary>, stale_minutes: u32, report: &mut DoctorReport)
    ensures
        issue_views(final(report).issues@) == issue_views(old(report).issues@) + issues_over(
            locks@,
            |l: LockSummary| stale_lock_issues(stale_minutes, l),
        ),
        final(report).repairs@ == old(report).repairs@,
{
    let ghost f = |l: LockSummary| stale_lock_issues(stale_minutes, l);
    let ghost start = issue_views(report.issues@);
    let mut i: usize = 0;
    while i < locks.len()
        invariant
            i <= locks@.len(),
            f == (|l: LockSummary| stale_lock_issues(stale_minutes, l)),
            issue_views(report.issues@) == start + issues_over(locks@.take(i as int), f),
            report.repairs@ == old(report).repairs@,
        decreases locks@.len() - i,
    {
        proof {
            lemma_issues_over_step(locks@, i as int, f);
        }
        let ghost before = issue_views(report.issues@);
        let l = &locks[i];
        if l.is_stale {
            let mut d = chars_of("Lock '");
            push_str(&mut d, l.name.as_str());
            push_str(&mut d, "' is stale (age: ");
            push_str(&mut d, l.age.as_str());
            push_str(&mut d, ", threshold: ");
            crate::text::push_decimal(&mut d, stale_minutes as u64);
            push_str(&mut d, " min)");
            let desc = string_from_chars(&d);
            let hint = lock_clear_hint(l.name.as_str());
            let iss = Issue::new(IssueSeverity::Warning, "stale_lock", desc.as_str()).with_path(
                l.path.as_str(),
            ).with_remediation(hint.as_str()).repairable();
            report.add(iss);
        }
        assert(issue_views(report.issues@) =~= before + f(locks@[i as int]));
        i = i + 1;
        assert(issue_views(report.issues@) =~= start + issues_over(locks@.take(i as int), f));
    }
    assert(locks@.take(locks@.len() as int) =~= locks@);
}

/// The issues for a lock whose task does not exist.
pub open spec fn orphan_lock_issues(index: TaskIndex, l: LockSummary) -> Seq<IssueView> {
    if l.name@ != "workflow"@ && l.name@ != "claim"@ && find_task(index.tasks@, l.name@) is None {
        seq![
            repairable_issue(
                fix(
                    at(
                        issue(
                            IssueSeverity::Warning,
                            "orphan_lock"@,
                            "Lock '"@ + l.name@ + "' exists but task does not exist in any bucket"@,
                        ),
                        l.path@,
                    ),
                    clear_lock_hint(l.name@),
                ),
            ),
        ]
    } else {
        Seq::empty()
    }
}

/// Reports lock files whose task does not exist (workflow and claim locks are skipped).
pub fn check_orphan_locks(locks: &Vec<LockSummary>, index: &TaskIndex, report: &mut DoctorReport)
    ensures
        issue_views(final(report).issues@) == issue_views(old(report).issues@) + issues_over(
            locks@,
            |l: LockSummary| orphan_lock_issues(*index, l),
        ),
        final(report).repairs@ == old(report).repairs@,
{
    let ghost f = |l: LockSummary| orphan_lock_issues(*index, l);
    let ghost start = issue_views(report.issues@);
    let mut i: usize = 0;
    while i < locks.len()
        invariant
            i <= locks@.len(),
            f == (|l: LockSummary| orphan_lock_issues(*index, l)),
            issue_views(report.issues@) == start + issues_over(locks@.take(i as int), f),
            report.repairs@ == old(report).repairs@,
        decreases locks@.len() - i,
    {
        proof {
            lemma_issues_over_step(locks@, i as int, f);
        }
        let ghost before = issue_views(report.issues@);
        let l = &locks[i];
        let name = l.name.as_str();
        if !str_eq(name, "workflow") && !str_eq(name, "claim") && index.find(name).is_none() {
            let mut d = chars_of("Lock '");
            push_str(&mut d, name);
            push_str(&mut d, "' exists but task does not exist in any bucket");
            let desc = string_from_chars(&d);
            let hint = lock_clear_hint(name);
            let iss = Issue::new(IssueSeverity::Warning, "orphan_lock", desc.as_str()).with_path(
                l.path.as_str(),
            ).with_remediation(hint.as_str()).repairable();
            report.add(iss);
        }
        assert(issue_views(report.issues@) =~= before + f(locks@[i as int]));
        i = i + 1;
        assert(issue_views(report.issues@) =~= start + issues_over(locks@.take(i as int), f));
    }
    assert(locks@.take(locks@.len() as int) =~= locks@);
}

/// Whether a bucket holds work in progress (DOING or QA).
pub open spec fn in_progress(bucket: Seq<char>) -> bool {
    bucket == "DOING"@ || bucket == "QA"@
}

/// The issues for a task in DOING/QA without `base_sha`.
pub open spec fn missing_base_sha_issues(t: TaskRecord) -> Seq<IssueView> {
    if in_progress(t.info.bucket@) && t.frontmatter.base_sha is None {
        seq![
            fix(
                at(
                    issue(
                        IssueSeverity::Error,
                        "missing_base_sha"@,
                        "Task "@ + t.info.id@ + " in "@ + t.info.bucket@ + " is missing base_sha"@,
                    ),
                    t.info.path@,
                ),
                "Manually set base_sha in the task file or reject and re-claim"@,
            ),
        ]
    } else {
        Seq::empty()
    }
}

/// Reports tasks in DOING/QA that have no `base_sha`.
pub fn check_tasks_missing_base_sha(tasks: &Vec<TaskRecord>, report: &mut DoctorReport)
    ensures
        issue_views(final(report).issues@) == issue_views(old(report).issues@) + issues_over(
            tasks@,
            |t: TaskRecord| missing_base_sha_issues(t),
        ),
        final(report).repairs@ == old(report).repairs@,
{
    let ghost f = |t: TaskRecord| missing_base_sha_issues(t);
    let ghost start = issue_views(report.issues@);
    let mut i: usize = 0;
    while i < tasks.len()
        invariant
            i <= tasks@.len(),
            f == (|t: TaskRecord| missing_base_sha_issues(t)),
            issue_views(report.issues@) == start + issues_over(tasks@.take(i as int), f),
            report.repairs@ == old(report).repairs@,
        decreases tasks@.len() - i,
    {
        proof {
            lemma_issues_over_step(tasks@, i as int, f);
        }
        let ghost before = issue_views(report.issues@);
        let t = &tasks[i];
        let b = t.info.bucket.as_str();
        if (str_eq(b, "DOING") || str_eq(b, "QA")) && t.frontmatter.base_sha.is_none() {
            let mut d = chars_of("Task ");
            push_str(&mut d, t.info.id.as_str());
            push_str(&mut d, " in ");
            push_str(&mut d, b);
            push_str(&mut d, " is missing base_sha");
            let desc = string_from_chars(&d);
            let iss = Issue::new(IssueSeverity::Error, "missing_base_sha", desc.as_str()).with_path(
                t.info.path.as_str(),
            ).with_remediation("Manually set base_sha in the task file or reject and re-claim");
            report.add(iss);
        }
        assert(issue_views(report.issues@) =~= before + f(tasks@[i as int]));
        i = i + 1;
        assert(issue_views(report.issues@) =~= start + issues_over(tasks@.take(i as int), f));
    }
    assert(tasks@.take(tasks@.len() as int) =~= tasks@);
}

/// The issues for a task in DOING/QA whose recorded worktree is missing.
pub open spec fn missing_worktree_issues(repo_root: Seq<char>, t: TaskRecord) -> Seq<IssueView> {
    match t.frontmatter.worktree {
        Some(w) => if in_progress(t.info.bucket@) && !t.worktree_exists {
            let full = join_path(repo_root, w@);
            let branch = match t.frontmatter.branch {
                Some(b) => b@,
                None => "<branch>"@,
            };
            seq![
                fix(
                    at(
                        issue(
                            IssueSeverity::Error,
                            "missing_worktree"@,
                            "Task "@ + t.info.id@ + " in "@ + t.info.bucket@
                                + " references worktree that does not exist"@,
                        ),
                        full,
                    ),
                    "Recreate the worktree or reject and re-claim the task:\ngit worktree add "@ + full
                        + " "@ + branch,
                ),
            ]
        } else {
            Seq::empty()
        },
        None => Seq::empty(),
    }
}

/// Reports tasks in DOING/QA whose recorded worktree directory does not exist.
pub fn check_tasks_missing_worktree(tasks: &Vec<TaskRecord>, repo_root: &str, report: &mut DoctorReport)
    ensures
        issue_views(final(report).issues@) == issue_views(old(report).issues@) + issues_over(
            tasks@,
            |t: TaskRecord| missing_worktree_issues(repo_root@, t),
        ),
        final(report).repairs@ == old(report).repairs@,
{
    let ghost f = |t: TaskRecord| missing_worktree_issues(repo_root@, t);
    let ghost start = issue_views(report.issues@);
    let mut i: usize = 0;
    while i < tasks.len()
        invariant
            i <= tasks@.len(),
            f == (|t: TaskRecord| missing_worktree_issues(repo_root@, t)),
            issue_views(report.issues@) == start + issues_over(tasks@.take(i as int), f),
            report.repairs@ == old(report).repairs@,
        decreases tasks@.len() - i,
    {
        proof {
            lemma_issues_over_step(tasks@, i as int, f);
        }
        let ghost before = issue_views(report.issues@);
        let t = &tasks[i];
        let b = t.info.bucket.as_str();
        match &t.frontmatter.worktree {
            Some(w) => {
                if (str_eq(b, "DOING") || str_eq(b, "QA")) && !t.worktree_exists {
                    let full = join_paths(repo_root, w.as_str());
                    let mut d = chars_of("Task ");
                    push_str(&mut d, t.info.id.as_str());
                    push_str(&mut d, " in ");
                    push_str(&mut d, b);
                    push_str(&mut d, " references worktree that does not exist");
                    let desc = string_from_chars(&d);
                    let mut h = chars_of("Recreate the worktree or reject and re-claim the task:\ngit worktree add ");
                    push_str(&mut h, full.as_str());
                    push_str(&mut h, " ");
                    match &t.frontmatter.branch {
                        Some(br) => push_str(&mut h, br.as_str()),
                        None => push_str(&mut h, "<branch>"),
                    }
                    let hint = string_from_chars(&h);
                    let iss = Issue::new(IssueSeverity::Error, "missing_worktree", desc.as_str()).with_path(
                        full.as_str(),
                    ).with_remediation(hint.as_str());
                    report.add(iss);
                }
            },
            None => {},
        }
        assert(issue_views(report.issues@) =~= before + f(tasks@[i as int]));
        i = i + 1;
        assert(issue_views(report.issues@) =~= start + issues_over(tasks@.take(i as int), f));
    }
    assert(tasks@.take(tasks@.len() as int) =~= tasks@);
}

/// Whether `p` is one of the `referenced` paths.
pub open spec fn referenced_by(referenced: Seq<String>, p: Seq<char>) -> bool {
    exists|i: int| 0 <= i < referenced.len() && referenced[i]@ == p
}

fn is_referenced(referenced: &Vec<String>, p: &str) -> (r: bool)
    ensures
        r == referenced_by(referenced@, p@),
{
    let mut i: usize = 0;
    while i < referenced.len()
        invariant
            i <= referenced@.len(),
            forall|j: int| 0 <= j < i ==> referenced@[j]@ != p@,
        decreases referenced@.len() - i,
    {
        if str_eq(referenced[i].as_str(), p) {
            return true;
        }
        i = i + 1;
    }
    false
}

/// The issues for a git worktree under `.worktrees` that no task references.
pub open spec fn orphan_worktree_issues(referenced: Seq<String>, w: WorktreeEntry) -> Seq<IssueView> {
    if contains(w.path@, ".worktrees"@) && !referenced_by(referenced, w.canonical@) && !referenced_by(
        referenced,
        w.path@,
    ) {
        seq![
            fix(
                at(
                    issue(
                        IssueSeverity::Warning,
                        "orphan_worktree"@,
                        "Worktree at '"@ + w.path@ + "' is not referenced by any task"@,
                    ),
                    w.path@,
                ),
                "Remove the orphan worktree if no longer needed:\ngit worktree remove "@ + w.path@,
            ),
        ]
    } else {
        Seq::empty()
    }
}

/// Reports git worktrees under `.worktrees` that no task references
/// (`referenced` holds the tasks' worktree paths, canonical where resolvable).
pub fn check_orphan_worktrees(worktrees: &Vec<WorktreeEntry>, referenced: &Vec<String>, report: &mut DoctorReport)
    ensures
        issue_views(final(report).issues@) == issue_views(old(report).issues@) + issues_over(
            worktrees@,
            |w: WorktreeEntry| orphan_worktree_issues(referenced@, w),
        ),
        final(report).repairs@ == old(report).repairs@,
{
    let ghost f = |w: WorktreeEntry| orphan_worktree_issues(referenced@, w);
    let ghost start = issue_views(report.issues@);
    let mut i: usize = 0;
    while i < worktrees.len()
        invariant
            i <= worktrees@.len(),
            f == (|w: WorktreeEntry| orphan_worktree_issues(referenced@, w)),
            issue_views(report.issues@) == start + issues_over(worktrees@.take(i as int), f),
            report.repairs@ == old(report).repairs@,
        decreases worktrees@.len() - i,
    {
        proof {
            lemma_issues_over_step(worktrees@, i as int, f);
        }
        let ghost before = issue_views(report.issues@);
        let w = &worktrees[i];
        let p = w.path.as_str();
        if str_contains(p, ".worktrees") && !is_referenced(referenced, w.canonical.as_str())
            && !is_referenced(referenced, p) {
            let mut d = chars_of("Worktree at '");
            push_str(&mut d, p);
            push_str(&mut d, "' is not referenced by any task");
            let desc = string_from_chars(&d);
            let mut h = chars_of("Remove the orphan worktree if no longer needed:\ngit worktree remove ");
            push_str(&mut h, p);
            let hint = string_from_chars(&h);
            let iss = Issue::new(IssueSeverity::Warning, "orphan_worktree", desc.as_str()).with_path(p).with_remediation(
                hint.as_str(),
            );
            report.add(iss);
        }
        assert(issue_views(report.issues@) =~= before + f(worktrees@[i as int]));
        i = i + 1;
        assert(issue_views(report.issues@) =~= start + issues_over(worktrees@.take(i as int), f));
    }
    assert(worktrees@.take(worktrees@.len() as int) =~= worktrees@);
}

/// The issues for a task whose recorded branch does not exist locally.
pub open spec fn missing_branch_issues(t: TaskRecord) -> Seq<IssueView> {
    match t.frontmatter.branch {
        Some(b) => if t.branch_exists == Some(false) {
            seq![
                fix(
                    at(
                        issue(
                            IssueSeverity::Warning,
                            "missing_branch"@,
                            "Task "@ + t.info.id@ + " references branch '"@ + b@
                                + "' which does not exist locally"@,
                        ),
                        t.info.path@,
                    ),
                    "Fetch the branch from remote or clear the branch reference:\ngit fetch origin "@
                        + b@ + ":"@ + b@,
                ),
            ]
        } else {
            Seq::empty()
        },
        None => Seq::empty(),
    }
}

/// Reports tasks whose recorded branch git says does not exist.
pub fn check_tasks_missing_branch(tasks: &Vec<TaskRecord>, report: &mut DoctorReport)
    ensures
        issue_views(final(report).issues@) == issue_views(old(report).issues@) + issues_over(
            tasks@,
            |t: TaskRecord| missing_branch_issues(t),
        ),
        final(report).repairs@ == old(report).repairs@,
{
    let ghost f = |t: TaskRecord| missing_branch_issues(t);
    let ghost start = issue_views(report.issues@);
    let mut i: usize = 0;
    while i < tasks.len()
        invariant
            i <= tasks@.len(),
            f == (|t: TaskRecord| missing_branch_issues(t)),
            issue_views(report.issues@) == start + issues_over(tasks@.take(i as int), f),
            report.repairs@ == old(report).repairs@,
        decreases tasks@.len() - i,
    {
        proof {
            lemma_issues_over_step(tasks@, i as int, f);
        }
        let ghost before = issue_views(report.issues@);
        let t = &tasks[i];
        match &t.frontmatter.branch {
            Some(b) => {
                if t.branch_exists == Some(false) {
                    let mut d = chars_of("Task ");
                    push_str(&mut d, t.info.id.as_str());
                    push_str(&mut d, " references branch '");
                    push_str(&mut d, b.as_str());
                    push_str(&mut d, "' which does not exist locally");
                    let desc = string_from_chars(&d);
                    let mut h = chars_of("Fetch the branch from remote or clear the branch reference:\ngit fetch origin ");
                    push_str(&mut h, b.as_str());
                    push_str(&mut h, ":");
                    push_str(&mut h, b.as_str());
                    let hint = string_from_chars(&h);
                    let iss = Issue::new(IssueSeverity::Warning, "missing_branch", desc.as_str()).with_path(
                        t.info.path.as_str(),
                    ).with_remediation(hint.as_str());
                    report.add(iss);
                }
            },
            None => {},
        }
        assert(issue_views(report.issues@) =~= before + f(tasks@[i as int]));
        i = i + 1;
        assert(issue_views(report.issues@) =~= start + issues_over(tasks@.take(i as int), f));
    }
    assert(tasks@.take(tasks@.len() as int) =~= tasks@);
}

/// Whether a task carries work-in-progress metadata.
pub open spec fn has_wip_metadata(fm: TaskFrontmatter) -> bool {
    fm.started_at is Some || fm.branch is Some || fm.worktree is Some || fm.base_sha is Some
}

/// A bucket-mismatch issue.
pub open spec fn mismatch(t: TaskRecord, description: Seq<char>, remediation: Seq<char>) -> IssueView {
    fix(at(issue(IssueSeverity::Warning, "bucket_mismatch"@, description), t.info.path@), remediation)
}

/// The bucket/metadata mismatches of a task.
pub open spec fn mismatch_issues(t: TaskRecord) -> Seq<IssueView> {
    let fm = t.frontmatter;
    let id = t.info.id@;
    let b = t.info.bucket@;
    if b == "READY"@ {
        (if has_wip_metadata(fm) {
            seq![repairable_issue(mismatch(t, "Task "@ + id
                + " in READY has work-in-progress metadata (started_at/branch/worktree/base_sha)"@,
                "Task should be moved to DOING if work has started"@))]
        } else {
            Seq::empty()
        }) + (if fm.submitted_at is Some {
            seq![repairable_issue(mismatch(t, "Task "@ + id + " in READY has submitted_at set"@,
                "Task should be moved to QA if already submitted"@))]
        } else {
            Seq::empty()
        })
    } else if b == "DOING"@ {
        (if fm.submitted_at is Some {
            seq![repairable_issue(mismatch(t, "Task "@ + id + " in DOING has submitted_at set"@,
                "Task should be moved to QA if already submitted"@))]
        } else {
            Seq::empty()
        }) + (if fm.completed_at is Some {
            seq![mismatch(t, "Task "@ + id + " in DOING has completed_at set"@,
                "Task should be moved to DONE if already completed"@)]
        } else {
            Seq::empty()
        })
    } else if b == "QA"@ {
        if fm.completed_at is Some {
            seq![repairable_issue(mismatch(t, "Task "@ + id + " in QA has completed_at set"@,
                "Task should be moved to DONE if already completed"@))]
        } else {
            Seq::empty()
        }
    } else {
        Seq::empty()
    }
}

fn mismatch_issue(t: &TaskRecord, middle: &str, remediation: &str, repairable: bool) -> (r: Issue)
    ensures
        r@ == (if repairable {
            repairable_issue(mismatch(*t, "Task "@ + t.info.id@ + middle@, remediation@))
        } else {
            mismatch(*t, "Task "@ + t.info.id@ + middle@, remediation@)
        }),
{
    let mut d = chars_of("Task ");
    push_str(&mut d, t.info.id.as_str());
    push_str(&mut d, middle);
    let desc = string_from_chars(&d);
    let iss = Issue::new(IssueSeverity::Warning, "bucket_mismatch", desc.as_str()).with_path(
        t.info.path.as_str(),
    ).with_remediation(remediation);
    if repairable {
        iss.repairable()
    } else {
        iss
    }
}

/// Reports tasks whose metadata contradicts the bucket they are in.
pub fn check_bucket_metadata_mismatches(tasks: &Vec<TaskRecord>, report: &mut DoctorReport)
    ensures
        issue_views(final(report).issues@) == issue_views(old(report).issues@) + issues_over(
            tasks@,
            |t: TaskRecord| mismatch_issues(t),
        ),
        final(report).repairs@ == old(report).repairs@,
{
    let ghost f = |t: TaskRecord| mismatch_issues(t);
    let ghost start = issue_views(report.issues@);
    let mut i: usize = 0;
    while i < tasks.len()
        invariant
            i <= tasks@.len(),
            f == (|t: TaskRecord| mismatch_issues(t)),
            issue_views(report.issues@) == start + issues_over(tasks@.take(i as int), f),
            report.repairs@ == old(report).repairs@,
        decreases tasks@.len() - i,
    {
        proof {
            lemma_issues_over_step(tasks@, i as int, f);
        }
        let ghost before = issue_views(report.issues@);
        let t = &tasks[i];
        let fm = &t.frontmatter;
        let b = t.info.bucket.as_str();
        if str_eq(b, "READY") {
            let ghost s1 = issue_views(report.issues@);
            if fm.started_at.is_some() || fm.branch.is_some() || fm.worktree.is_some()
                || fm.base_sha.is_some() {
                report.add(mismatch_issue(t,
                    " in READY has work-in-progress metadata (started_at/branch/worktree/base_sha)",
                    "Task should be moved to DOING if work has started", true));
            }
            if fm.submitted_at.is_some() {
                report.add(mismatch_issue(t, " in READY has submitted_at set",
                    "Task should be moved to QA if already submitted", true));
            }
            assert(issue_views(report.issues@) =~= before + f(tasks@[i as int]));
        } else if str_eq(b, "DOING") {
            if fm.submitted_at.is_some() {
                report.add(mismatch_issue(t, " in DOING has submitted_at set",
                    "Task should be moved to QA if already submitted", true));
            }
            if fm.completed_at.is_some() {
                report.add(mismatch_issue(t, " in DOING has completed_at set",
                    "Task should be moved to DONE if already completed", false));
            }
            assert(issue_views(report.issues@) =~= before + f(tasks@[i as int]));
        } else if str_eq(b, "QA") {
            if fm.completed_at.is_some() {
                report.add(mismatch_issue(t, " in QA has completed_at set",
                    "Task should be moved to DONE if already completed", true));
            }
            assert(issue_views(report.issues@) =~= before + f(tasks@[i as int]));
        } else {
            assert(issue_views(report.issues@) =~= before + f(tasks@[i as int]));
        }
        i = i + 1;
        assert(issue_views(report.issues@) =~= start + issues_over(tasks@.take(i as int), f));
    }
    assert(tasks@.take(tasks@.len() as int) =~= tasks@);
}

// ---------------------------------------------------------------------------
// Repairs
// ---------------------------------------------------------------------------

/// Whether `path` has `name` as a directory component (`/name/` or `\name\`).
pub open spec fn in_bucket_dir(path: Seq<char>, name: Seq<char>) -> bool {
    contains(path, "/"@ + name + "/"@) || contains(path, "\\"@ + name + "\\"@)
}

/// The bucket a task file path lies in: the first of READY, DOING, QA, DONE,
/// BLOCKED that appears as a directory of the path.
pub open spec fn bucket_of_path(path: Seq<char>) -> Option<Seq<char>> {
    if in_bucket_dir(path, "READY"@) {
        Some("READY"@)
    } else if in_bucket_dir(path, "DOING"@) {
        Some("DOING"@)
    } else if in_bucket_dir(path, "QA"@) {
        Some("QA"@)
    } else if in_bucket_dir(path, "DONE"@) {
        Some("DONE"@)
    } else if in_bucket_dir(path, "BLOCKED"@) {
        Some("BLOCKED"@)
    } else {
        None
    }
}

fn in_dir(path: &str, slash: &str, backslash: &str) -> (r: bool)
    ensures
        r == (contains(path@, slash@) || contains(path@, backslash@)),
{
    str_contains(path, slash) || str_contains(path, backslash)
}

/// Gets the bucket name from a task file path.
pub fn get_bucket_from_path(path: &str) -> (r: Option<&'static str>)
    ensures
        match r {
            Some(b) => bucket_of_path(path@) == Some(b@),
            None => bucket_of_path(path@) is None,
        },
{
    proof {
        reveal_strlit("/READY/");
        reveal_strlit("\\READY\\");
        reveal_strlit("READY");
        reveal_strlit("/DOING/");
        reveal_strlit("\\DOING\\");
        reveal_strlit("DOING");
        reveal_strlit("/QA/");
        reveal_strlit("\\QA\\");
        reveal_strlit("QA");
        reveal_strlit("/DONE/");
        reveal_strlit("\\DONE\\");
        reveal_strlit("DONE");
        reveal_strlit("/BLOCKED/");
        reveal_strlit("\\BLOCKED\\");
        reveal_strlit("BLOCKED");
        reveal_strlit("/");
        reveal_strlit("\\");
        assert("/"@ + "READY"@ + "/"@ =~= "/READY/"@);
        assert("\\"@ + "READY"@ + "\\"@ =~= "\\READY\\"@);
        assert("/"@ + "DOING"@ + "/"@ =~= "/DOING/"@);
        assert("\\"@ + "DOING"@ + "\\"@ =~= "\\DOING\\"@);
        assert("/"@ + "QA"@ + "/"@ =~= "/QA/"@);
        assert("\\"@ + "QA"@ + "\\"@ =~= "\\QA\\"@);
        assert("/"@ + "DONE"@ + "/"@ =~= "/DONE/"@);
        assert("\\"@ + "DONE"@ + "\\"@ =~= "\\DONE\\"@);
        assert("/"@ + "BLOCKED"@ + "/"@ =~= "/BLOCKED/"@);
        assert("\\"@ + "BLOCKED"@ + "\\"@ =~= "\\BLOCKED\\"@);
    }
    if in_dir(path, "/READY/", "\\READY\\") {
        Some("READY")
    } else if in_dir(path, "/DOING/", "\\DOING\\") {
        Some("DOING")
    } else if in_dir(path, "/QA/", "\\QA\\") {
        Some("QA")
    } else if in_dir(path, "/DONE/", "\\DONE\\") {
        Some("DONE")
    } else if in_dir(path, "/BLOCKED/", "\\BLOCKED\\") {
        Some("BLOCKED")
    } else {
        None
    }
}

/// The bucket a task belongs in according to its metadata, if any.
pub open spec fn metadata_bucket(fm: TaskFrontmatter) -> Option<Seq<char>> {
    if fm.completed_at is Some {
        Some("DONE"@)
    } else if fm.submitted_at is Some {
        Some("QA"@)
    } else if has_wip_metadata(fm) {
        Some("DOING"@)
    } else {
        None
    }
}

/// Decides the move that repairs a bucket mismatch: from the bucket the file
/// lies in to the one its metadata calls for, when both are known and differ.
pub fn plan_bucket_repair(path: &str, fm: &TaskFrontmatter) -> (r: Option<(&'static str, &'static str)>)
    ensures
        match r {
            Some((from, to)) => bucket_of_path(path@) == Some(from@) && metadata_bucket(*fm) == Some(to@)
                && from@ != to@,
            None => !(bucket_of_path(path@) is Some && metadata_bucket(*fm) is Some
                && bucket_of_path(path@) != metadata_bucket(*fm)),
        },
{
    proof {
        reveal_strlit("DONE");
        reveal_strlit("QA");
        reveal_strlit("DOING");
    }
    let target: Option<&'static str> = if fm.completed_at.is_some() {
        Some("DONE")
    } else if fm.submitted_at.is_some() {
        Some("QA")
    } else if fm.started_at.is_some() || fm.branch.is_some() || fm.worktree.is_some()
        || fm.base_sha.is_some() {
        Some("DOING")
    } else {
        None
    };
    let current = get_bucket_from_path(path);
    match (current, target) {
        (Some(c), Some(t)) => {
            if str_eq(c, t) {
                None
            } else {
                Some((c, t))
            }
        },
        _ => None,
    }
}

// ---------------------------------------------------------------------------
// Repairs
// ---------------------------------------------------------------------------

/// What a repair does.
#[derive(Debug, Clone, Copy, PartialEq, Eq, Structural)]
pub enum RepairKind {
    /// Create a missing directory.
    CreateDirectory,
    /// Remove a stale or orphan lock file.
    ClearLock,
    /// Move a task file to the bucket its metadata calls for.
    FixBucket,
}

/// A repair to apply, on the path an issue names.
#[derive(Debug, Clone)]
pub struct Repair {
    pub kind: RepairKind,
    pub path: String,
}

/// The repair an issue calls for, if it is repairable and names a path.
pub open spec fn repair_kind(i: Issue) -> Option<RepairKind> {
    if !i.repairable || i.path is None {
        None
    } else if i.category@ == "missing_directory"@ {
        Some(RepairKind::CreateDirectory)
    } else if i.category@ == "stale_lock"@ || i.category@ == "orphan_lock"@ {
        Some(RepairKind::ClearLock)
    } else if i.category@ == "bucket_mismatch"@ {
        Some(RepairKind::FixBucket)
    } else {
        None
    }
}

/// The repairs of `issues`, in order, as kinds and paths.
pub open spec fn planned_repairs(issues: Seq<Issue>) -> Seq<(RepairKind, Seq<char>)>
    decreases issues.len(),
{
    if issues.len() == 0 {
        Seq::empty()
    } else {
        let rest = planned_repairs(issues.drop_last());
        match repair_kind(issues.last()) {
            Some(k) => rest.push((k, issues.last().path->0@)),
            None => rest,
        }
    }
}

/// The kinds and paths of some repairs.
pub open spec fn repair_views(rs: Seq<Repair>) -> Seq<(RepairKind, Seq<char>)> {
    Seq::new(rs.len(), |k: int| (rs[k].kind, rs[k].path@))
}

/// Lists the repairs that the report's issues call for, in order.
pub fn plan_repairs(report: &DoctorReport) -> (r: Vec<Repair>)
    ensures
        repair_views(r@) == planned_repairs(report.issues@),
{
    let mut r: Vec<Repair> = Vec::new();
    let mut i: usize = 0;
    while i < report.issues.len()
        invariant
            i <= report.issues@.len(),
            repair_views(r@) == planned_repairs(report.issues@.take(i as int)),
        decreases report.issues@.len() - i,
    {
        assert(report.issues@.take(i + 1).drop_last() =~= report.issues@.take(i as int));
        let iss = &report.issues[i];
        let kind = if !iss.repairable {
            None
        } else if str_eq(iss.category.as_str(), "missing_directory") {
            Some(RepairKind::CreateDirectory)
        } else if str_eq(iss.category.as_str(), "stale_lock") || str_eq(iss.category.as_str(), "orphan_lock") {
            Some(RepairKind::ClearLock)
        } else if str_eq(iss.category.as_str(), "bucket_mismatch") {
            Some(RepairKind::FixBucket)
        } else {
            None
        };
        match (&iss.path, kind) {
            (Some(p), Some(k)) => {
                let ghost before = r@;
                r.push(Repair { kind: k, path: owned(p.as_str()) });
                assert(repair_views(r@) =~= repair_views(before).push((k, p@)));
            },
            _ => {},
        }
        i = i + 1;
    }
    assert(report.issues@.take(report.issues@.len() as int) =~= report.issues@);
    r
}

/// The last component of a path (what follows its last `/`).
pub open spec fn last_component(path: Seq<char>) -> Seq<char>
    decreases path.len(),
{
    if path.len() == 0 {
        path
    } else if path.last() == '/' {
        Seq::empty()
    } else {
        last_component(path.drop_last()).push(path.last())
    }
}

/// A file name without its extension: up to its last `.`, unless that dot
/// starts the name (`Path::file_stem` on a file name).
pub open spec fn stem(name: Seq<char>) -> Seq<char>
    decreases name.len(),
{
    if name.len() <= 1 {
        name
    } else if name.last() == '.' {
        name.drop_last()
    } else {
        let s = stem(name.drop_last());
        if s == name.drop_last() {
            name
        } else {
            s
        }
    }
}

/// The name of the lock stored at `path` (its file name without `.lock`).
pub fn lock_id_from_path(path: &str) -> (r: String)
    ensures
        r@ == stem(last_component(path@)),
{
    let cs = chars_of(path);
    let mut start: usize = 0;
    let mut i: usize = 0;
    while i < cs.len()
        invariant
            i <= cs@.len(),
            start <= i,
            cs@ == path@,
            cs@.subrange(start as int, i as int) == last_component(cs@.take(i as int)),
        decreases cs@.len() - i,
    {
        assert(cs@.take(i + 1).drop_last() =~= cs@.take(i as int));
        if cs[i] == '/' {
            start = i + 1;
            assert(cs@.subrange(start as int, i + 1) =~= Seq::<char>::empty());
        } else {
            assert(cs@.subrange(start as int, i + 1) =~= cs@.subrange(start as int, i as int).push(cs@[i as int]));
        }
        i = i + 1;
    }
    assert(cs@.take(cs@.len() as int) =~= cs@);
    let ghost name = cs@.subrange(start as int, cs@.len() as int);
    let mut end: usize = cs.len();
    let mut j: usize = start;
    while j < cs.len()
        invariant
            start <= j <= cs@.len(),
            cs@ == path@,
            name == cs@.subrange(start as int, cs@.len() as int),
            stem(cs@.subrange(start as int, j as int)) == cs@.subrange(start as int, if end == cs@.len() { j as int } else { end as int }),
            end == cs@.len() || (start < end < j),
        decreases cs@.len() - j,
    {
        let ghost pre = cs@.subrange(start as int, j as int);
        assert(cs@.subrange(start as int, j + 1).drop_last() =~= pre);
        if cs[j] == '.' && j > start {
            end = j;
            assert(cs@.subrange(start as int, j + 1).last() == '.');
        } else {
            proof {
                let s1 = cs@.subrange(start as int, j + 1);
                if s1.len() <= 1 {
                    assert(s1 =~= cs@.subrange(start as int, j + 1));
                }
            }
            if end == cs.len() {
                assert(cs@.subrange(start as int, j + 1) =~= pre.push(cs@[j as int]));
            }
        }
        j = j + 1;
    }
    let mut out: Vec<char> = Vec::new();
    let mut k: usize = start;
    while k < end
        invariant
            start <= k <= end <= cs@.len(),
            out@ == cs@.subrange(start as int, k as int),
        decreases end - k,
    {
        out.push(cs[k]);
        k = k + 1;
        assert(out@ =~= cs@.subrange(start as int, k as int));
    }
    string_from_chars(&out)
}

/// The note of a created directory.
pub open spec fn created_dir_note(path: Seq<char>) -> Seq<char> {
    "Created directory: "@ + path
}

/// The note of a cleared lock.
pub open spec fn cleared_lock_note(stale: bool, name: Seq<char>) -> Seq<char> {
    "Cleared "@ + (if stale {
        "stale"@
    } else {
        "orphan"@
    }) + " lock: "@ + name
}

/// The note of a moved task.
pub open spec fn moved_task_note(id: Seq<char>, from: Seq<char>, to: Seq<char>) -> Seq<char> {
    "Moved task "@ + id + " from "@ + from + " to "@ + to
}

/// Records that a directory was created.
pub fn note_created_dir(report: &mut DoctorReport, path: &str)
    ensures
        final(report).issues@ == old(report).issues@,
        views(final(report).repairs@) == views(old(report).repairs@).push(created_dir_note(path@)),
{
    let mut m = chars_of("Created directory: ");
    push_str(&mut m, path);
    let ghost before = report.repairs@;
    report.repairs.push(string_from_chars(&m));
    assert(views(report.repairs@) =~= views(before).push(created_dir_note(path@)));
}

/// Records that a lock was cleared.
pub fn note_cleared_lock(report: &mut DoctorReport, stale: bool, name: &str)
    ensures
        final(report).issues@ == old(report).issues@,
        views(final(report).repairs@) == views(old(report).repairs@).push(cleared_lock_note(stale, name@)),
{
    let mut m = chars_of("Cleared ");
    if stale {
        push_str(&mut m, "stale");
    } else {
        push_str(&mut m, "orphan");
    }
    push_str(&mut m, " lock: ");
    push_str(&mut m, name);
    assert(m@ =~= cleared_lock_note(stale, name@));
    let ghost before = report.repairs@;
    report.repairs.push(string_from_chars(&m));
    assert(views(report.repairs@) =~= views(before).push(cleared_lock_note(stale, name@)));
}

/// Records that a task was moved between buckets.
pub fn note_moved_task(report: &mut DoctorReport, id: &str, from: &str, to: &str)
    ensures
        final(report).issues@ == old(report).issues@,
        views(final(report).repairs@) == views(old(report).repairs@).push(moved_task_note(id@, from@, to@)),
{
    let mut m = chars_of("Moved task ");
    push_str(&mut m, id);
    push_str(&mut m, " from ");
    push_str(&mut m, from);
    push_str(&mut m, " to ");
    push_str(&mut m, to);
    let ghost before = report.repairs@;
    report.repairs.push(string_from_chars(&m));
    assert(views(report.repairs@) =~= views(before).push(moved_task_note(id@, from@, to@)));
}

/// The commit message recording applied repairs.
pub open spec fn repair_commit_text(repairs: Seq<Seq<char>>) -> Seq<char> {
    "burl doctor: apply "@ + decimal(repairs.len()) + " repair(s)\n\n  - "@ + join(repairs, "\n  - "@)
}

/// Makes the commit message recording applied repairs.
pub fn repair_commit_message(repairs: &Vec<String>) -> (r: String)
    ensures
        r@ == repair_commit_text(views(repairs@)),
{
    let mut m = chars_of("burl doctor: apply ");
    push_decimal(&mut m, repairs.len() as u64);
    push_str(&mut m, " repair(s)\n\n  - ");
    let j = join_strings(repairs, "\n  - ");
    push_str(&mut m, j.as_str());
    assert(m@ =~= repair_commit_text(views(repairs@)));
    string_from_chars(&m)
}

// ---------------------------------------------------------------------------
// Outcome
// ---------------------------------------------------------------------------

/// The message refusing repairs without `--force`.
pub open spec fn repair_needs_force() -> Seq<char> {
    "refusing to repair without --force flag.\n\nRepairs may modify workflow state. Please review the issues first with `burl doctor`,\nthen run `burl doctor --repair --force` to apply safe repairs."@
}

/// Checks the doctor arguments: `--repair` requires `--force`.
pub fn check_doctor_args(args: &DoctorArgs) -> (r: Result<(), BurlError>)
    ensures
        r is Err <==> args.repair && !args.force,
        r matches Err(e) ==> e is UserError && e.text() == repair_needs_force(),
{
    if args.repair && !args.force {
        return Err(BurlError::UserError(owned(
            "refusing to repair without --force flag.\n\nRepairs may modify workflow state. Please review the issues first with `burl doctor`,\nthen run `burl doctor --repair --force` to apply safe repairs.",
        )));
    }
    Ok(())
}

/// Number of issues that cannot be auto-repaired.
pub open spec fn unrepairable_count(issues: Seq<Issue>) -> nat
    decreases issues.len(),
{
    if issues.len() == 0 {
        0
    } else {
        unrepairable_count(issues.drop_last()) + if issues.last().repairable {
            0nat
        } else {
            1nat
        }
    }
}

/// The outcome of a doctor run: without `--repair`, any issue is an error
/// (exit code 1); with `--repair`, the issues that cannot be auto-repaired are.
pub fn doctor_outcome(args: &DoctorArgs, report: &DoctorReport) -> (r: Result<(), BurlError>)
    ensures
        r is Err <==> (!args.repair && report.issues@.len() > 0) || (args.repair
            && unrepairable_count(report.issues@) > 0),
        r matches Err(e) ==> e is UserError,
        r matches Err(e) ==> !args.repair ==> e.text() == "Found "@ + decimal(
            report.issues@.len() as nat,
        ) + " issue(s). Run `burl doctor --repair --force` to apply safe repairs."@,
        r matches Err(e) ==> args.repair ==> e.text() == "Repairs applied, but "@ + decimal(
            unrepairable_count(report.issues@),
        ) + " issue(s) remain that cannot be auto-repaired."@,
{
    if !args.repair && report.issues.len() > 0 {
        let mut m = chars_of("Found ");
        push_decimal(&mut m, report.issues.len() as u64);
        push_str(&mut m, " issue(s). Run `burl doctor --repair --force` to apply safe repairs.");
        return Err(BurlError::UserError(string_from_chars(&m)));
    }
    let mut remaining: usize = 0;
    let mut i: usize = 0;
    while i < report.issues.len()
        invariant
            i <= report.issues@.len(),
            remaining == unrepairable_count(report.issues@.take(i as int)),
            remaining <= i,
        decreases report.issues@.len() - i,
    {
        assert(report.issues@.take(i + 1).drop_last() =~= report.issues@.take(i as int));
        if !report.issues[i].repairable {
            remaining = remaining + 1;
        }
        i = i + 1;
    }
    assert(report.issues@.take(report.issues@.len() as int) =~= report.issues@);
    if args.repair && remaining > 0 {
        let mut m = chars_of("Repairs applied, but ");
        push_decimal(&mut m, remaining as u64);
        push_str(&mut m, " issue(s) remain that cannot be auto-repaired.");
        return Err(BurlError::UserError(string_from_chars(&m)));
    }
    Ok(())
}

// ---------------------------------------------------------------------------
// The report as text
// ---------------------------------------------------------------------------

/// Number of issues of a severity.
pub open spec fn severity_count(issues: Seq<Issue>, sev: IssueSeverity) -> nat
    decreases issues.len(),
{
    if issues.len() == 0 {
        0
    } else {
        severity_count(issues.drop_last(), sev) + if issues.last().severity == sev {
            1nat
        } else {
            0nat
        }
    }
}

/// Number of auto-repairable issues.
pub open spec fn repairable_count(issues: Seq<Issue>) -> nat
    decreases issues.len(),
{
    if issues.len() == 0 {
        0
    } else {
        repairable_count(issues.drop_last()) + if issues.last().repairable {
            1nat
        } else {
            0nat
        }
    }
}

/// Each line prefixed with `prefix` and ended by a newline.
pub open spec fn prefixed_lines(ls: Seq<Seq<char>>, prefix: Seq<char>) -> Seq<char>
    decreases ls.len(),
{
    if ls.len() == 0 {
        Seq::empty()
    } else {
        prefixed_lines(ls.drop_last(), prefix) + prefix + ls.last() + "\n"@
    }
}

/// The lines of a remediation hint: the first after `Fix:`, the others aligned below it.
pub open spec fn remediation_text(rem: Seq<char>) -> Seq<char> {
    let ls = crate::context::lines(rem);
    "     Fix:  "@ + (if ls.len() > 0 { ls[0] } else { rem }) + "\n"@ + if ls.len() > 1 {
        prefixed_lines(ls.skip(1), "           "@)
    } else {
        Seq::empty()
    }
}

/// The lines describing issue number `n`.
pub open spec fn issue_text(n: nat, i: Issue, repair_mode: bool) -> Seq<char> {
    "  "@ + decimal(n) + ". ["@ + i.severity.label() + "] "@ + i.category@ + " - "@ + i.description@
        + "\n"@ + (match i.path {
        Some(p) => "     Path: "@ + p@ + "\n"@,
        None => Seq::empty(),
    }) + (match i.remediation {
        Some(r) => remediation_text(r@),
        None => Seq::empty(),
    }) + (if i.repairable && !repair_mode {
        "     (auto-repairable with --repair --force)\n"@
    } else {
        Seq::empty()
    }) + "\n"@
}

/// The lines describing all issues, numbered from 1.
pub open spec fn issues_text(issues: Seq<Issue>, repair_mode: bool) -> Seq<char>
    decreases issues.len(),
{
    if issues.len() == 0 {
        Seq::empty()
    } else {
        issues_text(issues.drop_last(), repair_mode) + issue_text(issues.len(), issues.last(), repair_mode)
    }
}

/// The closing summary of a report.
pub open spec fn summary_text(r: DoctorReport, repair_mode: bool) -> Seq<char> {
    let e = severity_count(r.issues@, IssueSeverity::Error);
    let w = severity_count(r.issues@, IssueSeverity::Warning);
    if repair_mode {
        let remaining = unrepairable_count(r.issues@);
        if remaining > 0 {
            "Summary: "@ + decimal(remaining) + " issue(s) remain that cannot be auto-repaired ("@
                + decimal(e) + " errors, "@ + decimal(w) + " warnings).\n"@
        } else if r.repairs@.len() > 0 {
            "All repairable issues have been fixed.\n"@
        } else {
            Seq::empty()
        }
    } else {
        let n = repairable_count(r.issues@);
        "Summary: "@ + decimal(e) + " errors, "@ + decimal(w) + " warnings, "@ + decimal(n)
            + " auto-repairable.\n"@ + if n > 0 {
            "\nRun `burl doctor --repair --force` to apply safe repairs.\n"@
        } else {
            Seq::empty()
        }
    }
}

/// The text of a doctor report as shown to the user.
pub open spec fn report_text(r: DoctorReport, repair_mode: bool) -> Seq<char> {
    if r.issues@.len() == 0 && r.repairs@.len() == 0 {
        "Workflow is healthy. No issues detected.\n"@
    } else {
        (if r.issues@.len() > 0 {
            "Issues detected ("@ + decimal(r.issues@.len() as nat) + "):\n\n"@ + issues_text(
                r.issues@,
                repair_mode,
            )
        } else {
            Seq::empty()
        }) + (if r.repairs@.len() > 0 {
            "Repairs applied ("@ + decimal(r.repairs@.len() as nat) + "):\n\n"@ + prefixed_lines(
                crate::context::views(r.repairs@),
                "  - "@,
            ) + "\n"@
        } else {
            Seq::empty()
        }) + summary_text(r, repair_mode)
    }
}

/// Appends every line of `ls` with `prefix`.
fn push_prefixed(out: &mut Vec<char>, ls: &Vec<Vec<char>>, from: usize, prefix: &str)
    requires
        from <= ls@.len(),
    ensures
        final(out)@ == old(out)@ + prefixed_lines(
            ls@.map_values(|l: Vec<char>| l@).skip(from as int),
            prefix@,
        ),
{
    let ghost all = ls@.map_values(|l: Vec<char>| l@).skip(from as int);
    let ghost start = out@;
    let mut i: usize = from;
    assert(all.take(0) =~= Seq::<Seq<char>>::empty());
    while i < ls.len()
        invariant
            from <= i <= ls@.len(),
            all == ls@.map_values(|l: Vec<char>| l@).skip(from as int),
            out@ == start + prefixed_lines(all.take(i - from), prefix@),
        decreases ls@.len() - i,
    {
        assert(all.take(i + 1 - from).drop_last() =~= all.take(i - from));
        assert(all.take(i + 1 - from).last() == ls@[i as int]@);
        push_str(out, prefix);
        crate::text::push_all(out, &ls[i]);
        push_str(out, "\n");
        i = i + 1;
    }
    assert(all.take(ls@.len() - from) =~= all);
}

/// Counts issues of a severity.
fn count_severity(issues: &Vec<Issue>, sev: IssueSeverity) -> (r: u64)
    ensures
        r == severity_count(issues@, sev),
{
    let mut c: u64 = 0;
    let mut i: usize = 0;
    while i < issues.len()
        invariant
            i <= issues@.len(),
            c == severity_count(issues@.take(i as int), sev),
            c <= i,
        decreases issues@.len() - i,
    {
        assert(issues@.take(i + 1).drop_last() =~= issues@.take(i as int));
        if issues[i].severity == sev {
            c = c + 1;
        }
        i = i + 1;
    }
    assert(issues@.take(issues@.len() as int) =~= issues@);
    c
}

/// Counts repairable (or, with `want` false, unrepairable) issues.
fn count_repairable(issues: &Vec<Issue>, want: bool) -> (r: u64)
    ensures
        want ==> r == repairable_count(issues@),
        !want ==> r == unrepairable_count(issues@),
{
    let mut c: u64 = 0;
    let mut i: usize = 0;
    while i < issues.len()
        invariant
            i <= issues@.len(),
            want ==> c == repairable_count(issues@.take(i as int)),
            !want ==> c == unrepairable_count(issues@.take(i as int)),
            c <= i,
        decreases issues@.len() - i,
    {
        assert(issues@.take(i + 1).drop_last() =~= issues@.take(i as int));
        if issues[i].repairable == want {
            c = c + 1;
        }
        i = i + 1;
    }
    assert(issues@.take(issues@.len() as int) =~= issues@);
    c
}

/// The first line of an issue.
pub open spec fn issue_head(n: nat, i: Issue) -> Seq<char> {
    "  "@ + decimal(n) + ". ["@ + i.severity.label() + "] "@ + i.category@ + " - "@ + i.description@
        + "\n"@
}

fn push_issue_head(out: &mut Vec<char>, n: u64, i: &Issue)
    ensures
        final(out)@ == old(out)@ + issue_head(n as nat, *i),
{
    let ghost start = out@;
    push_str(out, "  ");
    push_decimal(out, n);
    push_str(out, ". [");
    let label = i.severity.to_string();
    push_str(out, label.as_str());
    push_str(out, "] ");
    push_str(out, i.category.as_str());
    push_str(out, " - ");
    push_str(out, i.description.as_str());
    push_str(out, "\n");
    assert(out@ =~= start + issue_head(n as nat, *i));
}

fn push_remediation(out: &mut Vec<char>, r: &String)
    ensures
        final(out)@ == old(out)@ + remediation_text(r@),
{
    let ghost start = out@;
    let rc = chars_of(r.as_str());
    let ls = crate::context::split_lines(&rc);
    push_str(out, "     Fix:  ");
    if ls.len() > 0 {
        crate::text::push_all(out, &ls[0]);
    } else {
        push_str(out, r.as_str());
    }
    push_str(out, "\n");
    let ghost mid = out@;
    if ls.len() > 1 {
        push_prefixed(out, &ls, 1, "           ");
    } else {
        assert(out@ =~= mid + Seq::<char>::empty());
    }
    assert(out@ =~= start + remediation_text(r@));
}

/// The lines describing one issue.
fn push_issue(out: &mut Vec<char>, n: u64, i: &Issue, repair_mode: bool)
    ensures
        final(out)@ == old(out)@ + issue_text(n as nat, *i, repair_mode),
{
    let ghost start = out@;
    push_issue_head(out, n, i);
    let ghost a = out@;
    let ghost pt = match &i.path {
        Some(p) => "     Path: "@ + p@ + "\n"@,
        None => Seq::<char>::empty(),
    };
    if let Some(p) = &i.path {
        push_str(out, "     Path: ");
        push_str(out, p.as_str());
        push_str(out, "\n");
        assert(out@ =~= a + pt);
    } else {
        assert(out@ =~= a + pt);
    }
    let ghost b = out@;
    let ghost rt = match &i.remediation {
        Some(r) => remediation_text(r@),
        None => Seq::<char>::empty(),
    };
    if let Some(r) = &i.remediation {
        push_remediation(out, r);
    } else {
        assert(out@ =~= b + rt);
    }
    let ghost c = out@;
    let ghost mt = if i.repairable && !repair_mode {
        "     (auto-repairable with --repair --force)\n"@
    } else {
        Seq::<char>::empty()
    };
    if i.repairable && !repair_mode {
        push_str(out, "     (auto-repairable with --repair --force)\n");
    } else {
        assert(out@ =~= c + mt);
    }
    push_str(out, "\n");
    assert(issue_text(n as nat, *i, repair_mode) =~= issue_head(n as nat, *i) + pt + rt + mt + "\n"@);
    assert(out@ =~= start + issue_text(n as nat, *i, repair_mode));
}

fn push_summary(out: &mut Vec<char>, report: &DoctorReport, repair_mode: bool)
    ensures
        final(out)@ == old(out)@ + summary_text(*report, repair_mode),
{
    let ghost start = out@;
    let e = count_severity(&report.issues, IssueSeverity::Error);
    let w = count_severity(&report.issues, IssueSeverity::Warning);
    if repair_mode {
        let remaining = count_repairable(&report.issues, false);
        if remaining > 0 {
            push_str(out, "Summary: ");
            push_decimal(out, remaining);
            push_str(out, " issue(s) remain that cannot be auto-repaired (");
            push_decimal(out, e);
            push_str(out, " errors, ");
            push_decimal(out, w);
            push_str(out, " warnings).\n");
        } else if report.repairs.len() > 0 {
            push_str(out, "All repairable issues have been fixed.\n");
        }
    } else {
        let n = count_repairable(&report.issues, true);
        push_str(out, "Summary: ");
        push_decimal(out, e);
        push_str(out, " errors, ");
        push_decimal(out, w);
        push_str(out, " warnings, ");
        push_decimal(out, n);
        push_str(out, " auto-repairable.\n");
        if n > 0 {
            push_str(out, "\nRun `burl doctor --repair --force` to apply safe repairs.\n");
        }
    }
    assert(out@ =~= start + summary_text(*report, repair_mode));
}

/// Formats a doctor report as shown to the user.
pub fn format_report(report: &DoctorReport, repair_mode: bool) -> (r: String)
    ensures
        r@ == report_text(*report, repair_mode),
{
    if report.issues.len() == 0 && report.repairs.len() == 0 {
        return owned("Workflow is healthy. No issues detected.\n");
    }
    let mut out: Vec<char> = Vec::new();
    if report.issues.len() > 0 {
        push_str(&mut out, "Issues detected (");
        push_decimal(&mut out, report.issues.len() as u64);
        push_str(&mut out, "):\n\n");
        let ghost head = out@;
        let mut k: usize = 0;
        while k < report.issues.len()
            invariant
                k <= report.issues@.len(),
                out@ == head + issues_text(report.issues@.take(k as int), repair_mode),
            decreases report.issues@.len() - k,
        {
            assert(report.issues@.take(k + 1).drop_last() =~= report.issues@.take(k as int));
            push_issue(&mut out, (k + 1) as u64, &report.issues[k], repair_mode);
            k = k + 1;
        }
        assert(report.issues@.take(report.issues@.len() as int) =~= report.issues@);
    }
    let ghost after_issues = out@;
    if report.repairs.len() > 0 {
        push_str(&mut out, "Repairs applied (");
        push_decimal(&mut out, report.repairs.len() as u64);
        push_str(&mut out, "):\n\n");
        let ghost head = out@;
        let ghost rv = crate::context::views(report.repairs@);
        let mut k: usize = 0;
        while k < report.repairs.len()
            invariant
                k <= report.repairs@.len(),
                rv == crate::context::views(report.repairs@),
                out@ == head + prefixed_lines(rv.take(k as int), "  - "@),
            decreases report.repairs@.len() - k,
        {
            assert(rv.take(k + 1).drop_last() =~= rv.take(k as int));
            push_str(&mut out, "  - ");
            push_str(&mut out, report.repairs[k].as_str());
            push_str(&mut out, "\n");
            k = k + 1;
        }
        assert(rv.take(report.repairs@.len() as int) =~= rv);
        push_str(&mut out, "\n");
    }
    let ghost before_summary = out@;
    push_summary(&mut out, report, repair_mode);
    assert(out@ =~= before_summary + summary_text(*report, repair_mode));
    assert(out@ =~= report_text(*report, repair_mode));
    string_from_chars(&out)
}

// ---------------------------------------------------------------------------
// Laws of the checks and repairs
// ---------------------------------------------------------------------------

/// Every element of `select(s, p)` satisfies `p` and is an element of `s`.
pub proof fn lemma_select_members<T>(s: Seq<T>, p: spec_fn(T) -> bool)
    ensures
        select(s, p).len() <= s.len(),
        forall|k: int| 0 <= k < select(s, p).len() ==> p(#[trigger] select(s, p)[k]) && exists|i: int|
            0 <= i < s.len() && s[i] == select(s, p)[k],
    decreases s.len(),
{
    if s.len() > 0 {
        lemma_select_members(s.drop_last(), p);
        let d = s.drop_last();
        assert forall|k: int| 0 <= k < select(s, p).len() implies p(#[trigger] select(s, p)[k]) && exists|i: int|
            0 <= i < s.len() && s[i] == select(s, p)[k] by {
            if k < select(d, p).len() {
                assert(select(s, p)[k] == select(d, p)[k]);
                let i = choose|i: int| 0 <= i < d.len() && d[i] == select(d, p)[k];
                assert(s[i] == d[i]);
            } else {
                assert(select(s, p)[k] == s.last());
                assert(s[s.len() - 1] == s.last());
            }
        }
    }
}

proof fn lemma_issues_over_select<T>(
    items: Seq<T>,
    f: spec_fn(T) -> Seq<IssueView>,
    p: spec_fn(T) -> bool,
    g: spec_fn(T) -> IssueView,
)
    requires
        forall|x: T| #[trigger] f(x) == (if p(x) { seq![g(x)] } else { Seq::<IssueView>::empty() }),
    ensures
        issues_over(items, f) == select(items, p).map_values(g),
    decreases items.len(),
{
    if items.len() > 0 {
        let d = items.drop_last();
        let x = items.last();
        lemma_issues_over_select(d, f, p, g);
        assert(f(x) == (if p(x) { seq![g(x)] } else { Seq::<IssueView>::empty() }));
        if p(x) {
            assert(select(items, p).map_values(g) =~= select(d, p).map_values(g) + seq![g(x)]);
        } else {
            assert(issues_over(items, f) =~= issues_over(d, f));
        }
    }
}

/// Whether a task in DOING or QA records a worktree that does not exist.
pub open spec fn lacks_worktree(t: TaskRecord) -> bool {
    t.frontmatter.worktree is Some && in_progress(t.info.bucket@) && !t.worktree_exists
}

/// The missing-worktree check reports, in order, one issue for each task in
/// DOING or QA whose recorded worktree does not exist, and nothing else (a
/// task that records no worktree never yields one). Each issue is an error
/// of category `missing_worktree`, not repairable, whose path is the
/// recorded worktree resolved against the repository root (`Path::join`:
/// an absolute worktree path is taken as it is).
pub proof fn lemma_missing_worktree_law(repo_root: Seq<char>, tasks: Seq<TaskRecord>)
    ensures
        ({
            let found = issues_over(tasks, |t: TaskRecord| missing_worktree_issues(repo_root, t));
            let lacking = select(tasks, |t: TaskRecord| lacks_worktree(t));
            &&& found.len() == lacking.len()
            &&& forall|k: int| 0 <= k < lacking.len() ==> {
                let t = #[trigger] lacking[k];
                let w = t.frontmatter.worktree->0@;
                &&& lacks_worktree(t)
                &&& exists|i: int| 0 <= i < tasks.len() && tasks[i] == t
                &&& found[k].severity == IssueSeverity::Error
                &&& found[k].category == "missing_worktree"@
                &&& found[k].path == Some(join_path(repo_root, w))
                &&& (is_absolute(w) ==> found[k].path == Some(w))
                &&& !found[k].repairable
            }
        }),
{
    let f = |t: TaskRecord| missing_worktree_issues(repo_root, t);
    let p = |t: TaskRecord| lacks_worktree(t);
    let g = |t: TaskRecord| missing_worktree_issues(repo_root, t)[0];
    assert forall|x: TaskRecord| #[trigger] f(x) == (if p(x) { seq![g(x)] } else { Seq::<IssueView>::empty() }) by {
        if p(x) {
            assert(f(x) =~= seq![g(x)]);
        }
    }
    lemma_issues_over_select(tasks, f, p, g);
    lemma_select_members(tasks, p);
}

/// Whether a git worktree is an orphan: it lies under `.worktrees` and no
/// task references it, by its listed path or its canonical path.
pub open spec fn orphan_worktree(referenced: Seq<String>, w: WorktreeEntry) -> bool {
    contains(w.path@, ".worktrees"@) && !referenced_by(referenced, w.canonical@) && !referenced_by(referenced, w.path@)
}

/// The orphan-worktree check reports, in order, exactly one issue for each
/// listed worktree that is an orphan: a warning of category
/// `orphan_worktree` on the worktree's path, not repairable.
pub proof fn lemma_orphan_worktree_law(referenced: Seq<String>, worktrees: Seq<WorktreeEntry>)
    ensures
        ({
            let found = issues_over(worktrees, |w: WorktreeEntry| orphan_worktree_issues(referenced, w));
            let orphans = select(worktrees, |w: WorktreeEntry| orphan_worktree(referenced, w));
            &&& found.len() == orphans.len()
            &&& forall|k: int| 0 <= k < orphans.len() ==> {
                let w = #[trigger] orphans[k];
                &&& orphan_worktree(referenced, w)
                &&& exists|i: int| 0 <= i < worktrees.len() && worktrees[i] == w
                &&& found[k].severity == IssueSeverity::Warning
                &&& found[k].category == "orphan_worktree"@
                &&& found[k].path == Some(w.path@)
                &&& !found[k].repairable
            }
        }),
{
    let f = |w: WorktreeEntry| orphan_worktree_issues(referenced, w);
    let p = |w: WorktreeEntry| orphan_worktree(referenced, w);
    let g = |w: WorktreeEntry| orphan_worktree_issues(referenced, w)[0];
    assert forall|x: WorktreeEntry| #[trigger] f(x) == (if p(x) { seq![g(x)] } else { Seq::<IssueView>::empty() }) by {
        if p(x) {
            assert(f(x) =~= seq![g(x)]);
        }
    }
    lemma_issues_over_select(worktrees, f, p, g);
    lemma_select_members(worktrees, p);
}

/// Whether repair `r` is the one issue `i` calls for.
pub open spec fn repair_source(i: Issue, r: (RepairKind, Seq<char>)) -> bool {
    i.repairable && i.path is Some && i.path->0@ == r.1 && (r.0 == RepairKind::FixBucket ==> i.category@
        == "bucket_mismatch"@)
}

/// Repairing touches only what repairable issues name: with no repairable
/// issue nothing is planned; each planned repair comes, in order, from a
/// repairable issue with a path, and a bucket move from a `bucket_mismatch`
/// issue. A bucket move takes its task to DONE when it is completed, else to
/// QA when submitted, else to DOING when it carries work-in-progress
/// metadata, and only when the bucket its file lies in is known and differs.
pub proof fn lemma_repair_law(issues: Seq<Issue>, path: Seq<char>, fm: TaskFrontmatter)
    ensures
        (forall|i: int| 0 <= i < issues.len() ==> !(#[trigger] issues[i]).repairable) ==> planned_repairs(issues).len()
            == 0,
        planned_repairs(issues).len() <= issues.len(),
        forall|k: int| 0 <= k < planned_repairs(issues).len() ==> exists|i: int|
            0 <= i < issues.len() && repair_source(issues[i], #[trigger] planned_repairs(issues)[k]),
        metadata_bucket(fm) == (if fm.completed_at is Some {
            Some("DONE"@)
        } else if fm.submitted_at is Some {
            Some("QA"@)
        } else if fm.started_at is Some || fm.branch is Some || fm.worktree is Some || fm.base_sha is Some {
            Some("DOING"@)
        } else {
            None
        }),
    decreases issues.len(),
{
    if issues.len() > 0 {
        let d = issues.drop_last();
        lemma_repair_law(d, path, fm);
        assert forall|i: int| 0 <= i < d.len() implies #[trigger] d[i] == issues[i] by {}
        let x = issues.last();
        assert(x == issues[issues.len() - 1]);
        assert forall|k: int| 0 <= k < planned_repairs(issues).len() implies exists|i: int|
            0 <= i < issues.len() && repair_source(issues[i], #[trigger] planned_repairs(issues)[k]) by {
            if k < planned_repairs(d).len() {
                assert(planned_repairs(issues)[k] == planned_repairs(d)[k]);
                let i = choose|i: int| 0 <= i < d.len() && repair_source(d[i], #[trigger] planned_repairs(d)[k]);
                assert(issues[i] == d[i]);
            } else {
                assert(repair_kind(x) is Some);
                assert(issues[issues.len() - 1] == x);
            }
        }
    }
}

} // verus!
