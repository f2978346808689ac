//! Task file model: frontmatter metadata plus markdown body.

use crate::text::{chars_eq, chars_of};
use vstd::prelude::*;

verus! {

/// Metadata recorded in a task file's frontmatter.
///
/// Timestamps are seconds since the Unix epoch (UTC).
#[derive(Debug, Clone, Default)]
pub struct TaskFrontmatter {
    /// Task identifier (e.g. `TASK-001`).
    pub id: String,
    /// Task title.
    pub title: String,
    /// Priority level (`high`, `medium`, `low`).
    pub priority: String,
    /// Creation time.
    pub created: Option<i64>,
    /// Who claimed the task.
    pub assigned_to: Option<String>,
    /// Number of QA rejections so far.
    pub qa_attempts: u32,
    /// When work started (claim time).
    pub started_at: Option<i64>,
    /// When the task was submitted to QA.
    pub submitted_at: Option<i64>,
    /// When the task was approved.
    pub completed_at: Option<i64>,
    /// Worktree path (absolute, or relative to the repository root).
    pub worktree: Option<String>,
    /// Task branch name.
    pub branch: Option<String>,
    /// Base commit for diff validation.
    pub base_sha: Option<String>,
    /// Explicit paths the task affects.
    pub affects: Vec<String>,
    /// Glob patterns for affected paths.
    pub affects_globs: Vec<String>,
    /// Paths the task must not touch.
    pub must_not_touch: Vec<String>,
    /// Task IDs the task depends on.
    pub depends_on: Vec<String>,
    /// Tags for categorization.
    pub tags: Vec<String>,
    /// Agent assigned to the task.
    pub agent: Option<String>,
    /// Validation profile to run on the task.
    pub validation_profile: Option<String>,
}

/// A task file: frontmatter and markdown body.
#[derive(Debug, Clone, Default)]
pub struct TaskFile {
    /// Parsed frontmatter.
    pub frontmatter: TaskFrontmatter,
    /// Markdown body after the frontmatter.
    pub body: String,
}

/// Where a task file was found.
#[derive(Debug, Clone)]
pub struct TaskInfo {
    /// Task identifier.
    pub id: String,
    /// Numeric part of the identifier.
    pub number: u32,
    /// Bucket holding the task file.
    pub bucket: String,
    /// Path of the task file.
    pub path: String,
}

/// The tasks found across all buckets.
#[derive(Debug, Clone)]
pub struct TaskIndex {
    /// Every task found, in scan order.
    pub tasks: Vec<TaskInfo>,
}

/// Position of the first task with identifier `id`, if any.
pub open spec fn find_index(tasks: Seq<TaskInfo>, id: Seq<char>) -> Option<int> {
    if exists|i: int| 0 <= i < tasks.len() && tasks[i].id@ == id {
        Some(choose|i: int| 0 <= i < tasks.len() && tasks[i].id@ == id && forall|j: int| 0 <= j < i ==> tasks[j].id@ != id)
    } else {
        None
    }
}

/// The first task with identifier `id`, if any.
pub open spec fn find_task(tasks: Seq<TaskInfo>, id: Seq<char>) -> Option<TaskInfo> {
    match find_index(tasks, id) {
        Some(i) => Some(tasks[i]),
        None => None,
    }
}

impl TaskIndex {
    /// Finds a task by identifier.
    pub fn find(&self, id: &str) -> (r: Option<&TaskInfo>)
        ensures
            match r {
                Some(t) => find_task(self.tasks@, id@) == Some(*t),
                None => find_task(self.tasks@, id@) is None,
            },
    {
        let idc = chars_of(id);
        let mut i: usize = 0;
        while i < self.tasks.len()
            invariant
                i <= self.tasks@.len(),
                idc@ == id@,
                forall|j: int| 0 <= j < i ==> self.tasks@[j].id@ != id@,
            decreases self.tasks@.len() - i,
        {
            let cand = chars_of(self.tasks[i].id.as_str());
            if chars_eq(&cand, &idc) {
                let ghost k = find_index(self.tasks@, id@)->0;
                assert(self.tasks@[i as int].id@ == id@);
                assert(k == i) by {
                    if k < i {
                    } else if k > i {
                    }
                }
                return Some(&self.tasks[i]);
            }
            i = i + 1;
        }
        None
    }
}

} // verus!
