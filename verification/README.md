# burl

`burl` is a file-based workflow orchestrator for coding and review
pipelines: tasks are markdown files with YAML frontmatter that move between
bucket folders (`READY`, `DOING`, `QA`, `DONE`, `BLOCKED`) in a dedicated git
worktree, and each claimed task gets its own worktree and branch.

## Layout

- `src/` is the library, written and proved with Verus. It holds the
  workflow's logic: the command-line grammar, task selection and claiming
  rules, scope conflicts, the transitions of claim, submit, approve and
  reject, the approval state machine, prompt templates and agent
  resolution, the doctor's checks and repairs, cleanup planning and the
  safety checks before a removal, the diff-based scope and stub gates and
  the reading of `git diff` output they work on, the checks on a task's
  recorded worktree, branch and base commit (re-claims included), the
  decisions of the `watch` loop, validation summaries, and the texts the
  commands print. Each public function states its result in its contract;
  the laws that relate several functions are public proof functions.
- `tests/` exercises the library on concrete values.
- `app/` is the `burl` program around the library: it reads and writes
  task files, configuration and lock files, runs git and agent processes,
  and hands the library plain values.

Verify with `verus`, the crate root being `src/lib.rs`.
