//! Decisions of `burl init`: what the ignore files must gain, and whether an
//! existing workflow directory can be used.

use crate::context::{lines, split_lines};
use crate::error::BurlError;
use crate::text::{
    chars_contains, chars_eq, chars_of, contains, push_all, push_str, starts_with, string_from_chars, trim, trim_chars,
};
use vstd::prelude::*;

verus! {

broadcast use vstd::string::group_string_axioms;

/// The branch of the workflow worktree.
pub const DEFAULT_WORKFLOW_BRANCH: &'static str = "burl";

/// Whether some line of `content`, trimmed, is `entry`.
pub open spec fn has_line(content: Seq<char>, entry: Seq<char>) -> bool {
    exists|k: int| 0 <= k < lines(content).len() && trim(#[trigger] lines(content)[k]) == entry
}

/// The entries that `content` lacks, in order.
pub open spec fn missing_entries(content: Seq<char>, entries: Seq<Seq<char>>) -> Seq<Seq<char>>
    decreases entries.len(),
{
    if entries.len() == 0 {
        Seq::empty()
    } else {
        let rest = missing_entries(content, entries.drop_last());
        if has_line(content, entries.last()) {
            rest
        } else {
            rest.push(entries.last())
        }
    }
}

/// One line per entry.
pub open spec fn entry_lines(entries: Seq<Seq<char>>) -> Seq<char>
    decreases entries.len(),
{
    if entries.len() == 0 {
        Seq::empty()
    } else {
        entry_lines(entries.drop_last()) + entries.last() + "\n"@
    }
}

/// `content` ending with a line break when it is not empty.
pub open spec fn with_final_newline(content: Seq<char>) -> Seq<char> {
    if content.len() > 0 && content.last() != '\n' {
        content.push('\n')
    } else {
        content
    }
}

/// The machine-local entries of the workflow's `.gitignore`.
pub open spec fn gitignore_entries() -> Seq<Seq<char>> {
    seq!["locks/"@, "agent-logs/"@]
}

/// The new `.gitignore` of the workflow state directory, given the current
/// one (`None` when there is none): `None` when nothing is missing, else the
/// content with a heading (once) and the missing entries appended.
pub open spec fn gitignore_update(existing: Option<Seq<char>>) -> Option<Seq<char>> {
    let content = match existing {
        Some(c) => c,
        None => Seq::empty(),
    };
    let missing = missing_entries(content, gitignore_entries());
    if existing is Some && missing.len() == 0 {
        None
    } else {
        let base = with_final_newline(content);
        Some(
            base + (if contains(content, "# Machine-local files"@) {
                Seq::empty()
            } else {
                (if base.len() > 0 {
                    "\n"@
                } else {
                    Seq::empty()
                }) + "# Machine-local files (never commit)\n"@
            }) + entry_lines(missing),
        )
    }
}

/// The entries burl adds to `.git/info/exclude`.
pub open spec fn exclude_entries() -> Seq<Seq<char>> {
    seq![".burl/"@, ".worktrees/"@]
}

/// The new `.git/info/exclude`, given the current one: `None` when nothing
/// is missing, else the content with a heading (once) and the missing entries.
pub open spec fn exclude_update(content: Seq<char>) -> Option<Seq<char>> {
    let missing = missing_entries(content, exclude_entries());
    if missing.len() == 0 {
        None
    } else {
        Some(
            with_final_newline(content) + (if contains(content, "# burl workflow directories"@) {
                Seq::empty()
            } else {
                "\n# burl workflow directories\n"@
            }) + entry_lines(missing),
        )
    }
}

/// Whether a line of `content`, trimmed, is `entry`.
fn has_entry(content: &Vec<char>, entry: &str) -> (r: bool)
    ensures
        r == has_line(content@, entry@),
{
    let ls = split_lines(content);
    let ghost lsv = ls@.map_values(|l: Vec<char>| l@);
    let e = chars_of(entry);
    let mut i: usize = 0;
    while i < ls.len()
        invariant
            i <= ls@.len(),
            lsv == ls@.map_values(|l: Vec<char>| l@),
            lsv == lines(content@),
            e@ == entry@,
            forall|k: int| 0 <= k < i ==> trim(#[trigger] lsv[k]) != entry@,
        decreases ls@.len() - i,
    {
        let t = trim_chars(&ls[i]);
        assert(lsv[i as int] == ls@[i as int]@);
        if chars_eq(&t, &e) {
            return true;
        }
        i = i + 1;
    }
    false
}

/// Appends the lines of the entries that `content` lacks.
fn push_missing(out: &mut Vec<char>, content: &Vec<char>, entries: &[&str]) -> (any: bool)
    ensures
        final(out)@ == old(out)@ + entry_lines(missing_entries(content@, entries@.map_values(|e: &str| e@))),
        any == (missing_entries(content@, entries@.map_values(|e: &str| e@)).len() > 0),
{
    let ghost ev = entries@.map_values(|e: &str| e@);
    let ghost start = out@;
    let mut any = false;
    let mut i: usize = 0;
    while i < entries.len()
        invariant
            i <= entries@.len(),
            ev == entries@.map_values(|e: &str| e@),
            out@ == start + entry_lines(missing_entries(content@, ev.take(i as int))),
            any == (missing_entries(content@, ev.take(i as int)).len() > 0),
        decreases entries@.len() - i,
    {
        assert(ev.take(i + 1).drop_last() =~= ev.take(i as int));
        assert(ev.take(i + 1).last() == entries@[i as int]@);
        let ghost m0 = missing_entries(content@, ev.take(i as int));
        let ghost x = entries@[i as int]@;
        if !has_entry(content, entries[i]) {
            push_str(out, entries[i]);
            push_str(out, "\n");
            any = true;
            assert(missing_entries(content@, ev.take(i + 1)) == m0.push(x));
            assert(m0.push(x).drop_last() =~= m0);
            assert(entry_lines(m0.push(x)) == entry_lines(m0) + x + "\n"@);
            assert(out@ =~= start + entry_lines(missing_entries(content@, ev.take(i + 1))));
        } else {
            assert(missing_entries(content@, ev.take(i + 1)) == m0);
        }
        i = i + 1;
    }
    assert(ev.take(entries@.len() as int) =~= ev);
    any
}

fn push_with_final_newline(out: &mut Vec<char>, content: &Vec<char>)
    ensures
        final(out)@ == old(out)@ + with_final_newline(content@),
{
    push_all(out, content);
    if content.len() > 0 && content[content.len() - 1] != '\n' {
        out.push('\n');
    }
    assert(out@ =~= old(out)@ + with_final_newline(content@));
}

/// The text of an optional string slice.
pub open spec fn text_of(o: Option<&str>) -> Option<Seq<char>> {
    match o {
        Some(s) => Some(s@),
        None => None,
    }
}

/// Decides the new `.gitignore` of the workflow state directory.
pub fn gitignore_content(existing: Option<&str>) -> (r: Option<String>)
    ensures
        match r {
            Some(s) => gitignore_update(text_of(existing)) == Some(s@),
            None => gitignore_update(text_of(existing)) is None,
        },
{
    let content = match existing {
        Some(c) => chars_of(c),
        None => Vec::new(),
    };
    let entries: [&str; 2] = ["locks/", "agent-logs/"];
    assert(entries@.map_values(|e: &str| e@) =~= gitignore_entries());
    let mut tail: Vec<char> = Vec::new();
    let any = push_missing(&mut tail, &content, &entries);
    if existing.is_some() && !any {
        return None;
    }
    let mut out: Vec<char> = Vec::new();
    push_with_final_newline(&mut out, &content);
    let ghost base = out@;
    let marker = chars_of("# Machine-local files");
    if !chars_contains(&content, &marker) {
        if out.len() > 0 {
            push_str(&mut out, "\n");
        }
        push_str(&mut out, "# Machine-local files (never commit)\n");
    }
    let ghost head = out@;
    push_all(&mut out, &tail);
    assert(content@ == match text_of(existing) { Some(c) => c, None => Seq::<char>::empty() });
    assert(out@ =~= gitignore_update(text_of(existing))->0);
    Some(string_from_chars(&out))
}

/// Decides the new `.git/info/exclude` (an unreadable file counts as empty).
pub fn git_exclude_content(existing: &str) -> (r: Option<String>)
    ensures
        match r {
            Some(s) => exclude_update(existing@) == Some(s@),
            None => exclude_update(existing@) is None,
        },
{
    let content = chars_of(existing);
    let entries: [&str; 2] = [".burl/", ".worktrees/"];
    assert(entries@.map_values(|e: &str| e@) =~= exclude_entries());
    let mut tail: Vec<char> = Vec::new();
    let any = push_missing(&mut tail, &content, &entries);
    if !any {
        return None;
    }
    let mut out: Vec<char> = Vec::new();
    push_with_final_newline(&mut out, &content);
    let marker = chars_of("# burl workflow directories");
    if !chars_contains(&content, &marker) {
        push_str(&mut out, "\n# burl workflow directories\n");
    }
    push_all(&mut out, &tail);
    assert(out@ =~= exclude_update(existing@)->0);
    Some(string_from_chars(&out))
}


/// What stands at `<workflow dir>/.git`.
#[derive(Debug, Clone)]
pub enum GitMarker {
    /// Nothing.
    Absent,
    /// A file, with its content.
    File(String),
    /// A directory.
    Directory,
}

/// What an unusable workflow directory is answered, if it is unusable.
pub open spec fn workflow_dir_refusal(path: Seq<char>, git: GitMarker) -> Option<Seq<char>> {
    match git {
        GitMarker::Absent => Some(
            "directory '"@ + path + "' exists but is not a git worktree.\n\nTo fix this, either:\n1. Delete or rename '"@
                + path + "' and run `burl init` again\n2. Or manually set up the worktree with:\ngit worktree add "@
                + path + " burl"@,
        ),
        GitMarker::File(c) => if starts_with(c@, "gitdir:"@) {
            None
        } else {
            Some(
                "directory '"@ + path + "' has an invalid .git file.\n\nTo fix this, delete or rename '"@ + path
                    + "' and run `burl init` again."@,
            )
        },
        GitMarker::Directory => Some(
            "directory '"@ + path
                + "' contains a full git repository, not a worktree.\n\nThe workflow directory should be a git worktree, not a separate repository.\nTo fix this, delete or rename '"@
                + path + "' and run `burl init` again."@,
        ),
    }
}

/// Checks an existing workflow directory (nothing to check when it does not
/// exist). `Ok(true)`: it is a worktree whose branch must be checked next.
pub fn check_workflow_dir(path: &str, exists: bool, git: &GitMarker) -> (r: Result<bool, BurlError>)
    ensures
        !exists ==> r == Ok::<bool, BurlError>(false),
        exists ==> match workflow_dir_refusal(path@, *git) {
            None => r == Ok::<bool, BurlError>(true),
            Some(m) => r matches Err(BurlError::UserError(e)) && e@ == m,
        },
{
    if !exists {
        return Ok(false);
    }
    let mut m: Vec<char> = Vec::new();
    match git {
        GitMarker::Absent => {
            push_str(&mut m, "directory '");
            push_str(&mut m, path);
            push_str(&mut m, "' exists but is not a git worktree.\n\nTo fix this, either:\n1. Delete or rename '");
            push_str(&mut m, path);
            push_str(&mut m, "' and run `burl init` again\n2. Or manually set up the worktree with:\ngit worktree add ");
            push_str(&mut m, path);
            push_str(&mut m, " burl");
        },
        GitMarker::File(c) => {
            let cc = chars_of(c.as_str());
            let pre = chars_of("gitdir:");
            if crate::text::chars_starts_with(&cc, &pre) {
                return Ok(true);
            }
            push_str(&mut m, "directory '");
            push_str(&mut m, path);
            push_str(&mut m, "' has an invalid .git file.\n\nTo fix this, delete or rename '");
            push_str(&mut m, path);
            push_str(&mut m, "' and run `burl init` again.");
        },
        GitMarker::Directory => {
            push_str(&mut m, "directory '");
            push_str(&mut m, path);
            push_str(
                &mut m,
                "' contains a full git repository, not a worktree.\n\nThe workflow directory should be a git worktree, not a separate repository.\nTo fix this, delete or rename '",
            );
            push_str(&mut m, path);
            push_str(&mut m, "' and run `burl init` again.");
        },
    }
    assert(m@ =~= workflow_dir_refusal(path@, *git)->0);
    Err(BurlError::UserError(string_from_chars(&m)))
}

/// What a workflow worktree on another branch is answered.
pub open spec fn wrong_branch_text(path: Seq<char>, current: Seq<char>) -> Seq<char> {
    "workflow worktree is checked out to '"@ + current
        + "', expected 'burl'.\n\nTo fix this, either:\n1. Checkout the correct branch: git -C "@ + path
        + " checkout burl\n2. Or delete '"@ + path + "' and run `burl init` again."@
}

/// Checks the branch of the workflow worktree, given what
/// `git rev-parse --abbrev-ref HEAD` printed there.
pub fn check_workflow_branch(path: &str, head_output: &str) -> (r: Result<(), BurlError>)
    ensures
        trim(head_output@) == "burl"@ ==> r is Ok,
        trim(head_output@) != "burl"@ ==> (r matches Err(BurlError::UserError(e)) && e@ == wrong_branch_text(
            path@,
            trim(head_output@),
        )),
{
    let out = chars_of(head_output);
    let cur = trim_chars(&out);
    let want = chars_of(DEFAULT_WORKFLOW_BRANCH);
    if chars_eq(&cur, &want) {
        return Ok(());
    }
    let mut m = chars_of("workflow worktree is checked out to '");
    push_all(&mut m, &cur);
    push_str(&mut m, "', expected 'burl'.\n\nTo fix this, either:\n1. Checkout the correct branch: git -C ");
    push_str(&mut m, path);
    push_str(&mut m, " checkout burl\n2. Or delete '");
    push_str(&mut m, path);
    push_str(&mut m, "' and run `burl init` again.");
    assert(m@ =~= wrong_branch_text(path@, trim(head_output@)));
    Err(BurlError::UserError(string_from_chars(&m)))
}

} // verus!
