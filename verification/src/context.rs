//! Task context extraction for prompt generation.
//!
//! Task metadata and the markdown sections of a task body are gathered into a
//! [`TaskContext`], which converts to template variables.
//!
//! Recognized sections use `##` or `###` headings, matched case-insensitively:
//! Objective, Acceptance Criteria, Context, Implementation Notes, Test Plan.

use crate::strmap::StrMap;
use crate::task::TaskFile;
use crate::text::{
    chars_of, lowercase, lowercase_chars, push_all, slice_chars, string_from_chars, trim,
    trim_chars, lemma_trim_idempotent,
};
use vstd::prelude::*;

verus! {

broadcast use vstd::string::group_string_axioms;

// ---------------------------------------------------------------------------
// Lines (`str::lines`)
// ---------------------------------------------------------------------------

/// Index of the first `'\n'` at or after `i`, or the length when there is none.
pub open spec fn line_end(s: Seq<char>, i: int) -> int
    decreases s.len() - i,
{
    if i < 0 || i >= s.len() {
        s.len() as int
    } else if s[i] == '\n' {
        i
    } else {
        line_end(s, i + 1)
    }
}

/// The line starting at `i`: up to the next `'\n'`, without a `'\r'` that
/// directly precedes that `'\n'`.
pub open spec fn line_at(s: Seq<char>, i: int) -> Seq<char> {
    let e = line_end(s, i);
    let raw = s.subrange(i, e);
    if e < s.len() && raw.len() > 0 && raw.last() == '\r' {
        raw.drop_last()
    } else {
        raw
    }
}

pub proof fn lemma_line_end(s: Seq<char>, i: int)
    requires
        0 <= i <= s.len(),
    ensures
        i <= line_end(s, i) <= s.len(),
        line_end(s, i) < s.len() ==> s[line_end(s, i)] == '\n',
        forall|k: int| i <= k < line_end(s, i) ==> s[k] != '\n',
    decreases s.len() - i,
{
    if i < s.len() && s[i] != '\n' {
        lemma_line_end(s, i + 1);
    }
}

/// The lines of `s` from index `i` on (`str::lines`: a final line ending adds no empty line).
pub open spec fn lines_from(s: Seq<char>, i: int) -> Seq<Seq<char>>
    decreases s.len() - i,
{
    if i < 0 || i >= s.len() {
        Seq::empty()
    } else {
        proof {
            lemma_line_end(s, i);
        }
        if line_end(s, i) >= s.len() {
            seq![line_at(s, i)]
        } else {
            seq![line_at(s, i)] + lines_from(s, line_end(s, i) + 1)
        }
    }
}

/// The lines of `s`.
pub open spec fn lines(s: Seq<char>) -> Seq<Seq<char>> {
    lines_from(s, 0)
}

/// Splits text into lines (`str::lines`).
pub fn split_lines(s: &Vec<char>) -> (r: Vec<Vec<char>>)
    ensures
        r@.map_values(|l: Vec<char>| l@) == lines(s@),
{
    let mut r: Vec<Vec<char>> = Vec::new();
    let mut i: usize = 0;
    let n = s.len();
    while i < n
        invariant
            n == s@.len(),
            i <= n,
            lines(s@) == r@.map_values(|l: Vec<char>| l@) + lines_from(s@, i as int),
        decreases n - i,
    {
        let mut e: usize = i;
        while e < n && s[e] != '\n'
            invariant
                n == s@.len(),
                i <= e <= n,
                line_end(s@, i as int) == line_end(s@, e as int),
            decreases n - e,
        {
            e = e + 1;
        }
        proof {
            lemma_line_end(s@, i as int);
        }
        let end = if e < n && e > i && s[e - 1] == '\r' {
            e - 1
        } else {
            e
        };
        let line = slice_chars(s, i, end);
        let ghost before = r@.map_values(|l: Vec<char>| l@);
        assert(line@ == line_at(s@, i as int)) by {
            if e < n && e > i && s@[e - 1] == '\r' {
                assert(s@.subrange(i as int, e as int).drop_last() =~= s@.subrange(
                    i as int,
                    e - 1,
                ));
            }
        }
        r.push(line);
        assert(r@.map_values(|l: Vec<char>| l@) =~= before + seq![line@]);
        if e >= n {
            assert(before + lines_from(s@, i as int) =~= before + seq![line@]);
            i = n;
        } else {
            assert(lines_from(s@, i as int) == seq![line_at(s@, i as int)] + lines_from(
                s@,
                e + 1,
            ));
            assert(before + lines_from(s@, i as int) =~= (before + seq![line@]) + lines_from(
                s@,
                e + 1,
            ));
            i = e + 1;
        }
    }
    assert(r@.map_values(|l: Vec<char>| l@) + lines_from(s@, n as int) =~= r@.map_values(
        |l: Vec<char>| l@,
    ));
    r
}

// ---------------------------------------------------------------------------
// Headings and sections
// ---------------------------------------------------------------------------

/// Replaces every space with an underscore.
pub open spec fn underscored(s: Seq<char>) -> Seq<char> {
    s.map_values(|c: char| if c == ' ' { '_' } else { c })
}

/// The text after a `###` or `##` marker at the start of a trimmed line.
pub open spec fn heading_rest(t: Seq<char>) -> Option<Seq<char>> {
    if t.len() >= 3 && t[0] == '#' && t[1] == '#' && t[2] == '#' {
        Some(t.skip(3))
    } else if t.len() >= 2 && t[0] == '#' && t[1] == '#' {
        Some(t.skip(2))
    } else {
        None
    }
}

/// The normalized section name of a heading line: `## Name` or `### Name`,
/// lowercased, with spaces turned into underscores.
pub open spec fn heading(line: Seq<char>) -> Option<Seq<char>> {
    match heading_rest(trim(line)) {
        None => None,
        Some(rest) => {
            let content = trim(rest);
            if content.len() == 0 {
                None
            } else {
                Some(underscored(lowercase(content)))
            }
        },
    }
}

fn heading_chars(line: &Vec<char>) -> (r: Option<Vec<char>>)
    ensures
        match r {
            Some(h) => heading(line@) == Some(h@),
            None => heading(line@) is None,
        },
{
    let t = trim_chars(line);
    let rest = if t.len() >= 3 && t[0] == '#' && t[1] == '#' && t[2] == '#' {
        slice_chars(&t, 3, t.len())
    } else if t.len() >= 2 && t[0] == '#' && t[1] == '#' {
        slice_chars(&t, 2, t.len())
    } else {
        return None;
    };
    assert(heading_rest(t@) == Some(rest@)) by {
        if t@.len() >= 3 && t@[0] == '#' && t@[1] == '#' && t@[2] == '#' {
            assert(rest@ =~= t@.skip(3));
        } else {
            assert(rest@ =~= t@.skip(2));
        }
    }
    let content = trim_chars(&rest);
    if content.len() == 0 {
        return None;
    }
    let low = lowercase_chars(&content);
    let mut out: Vec<char> = Vec::new();
    let mut i: usize = 0;
    while i < low.len()
        invariant
            i <= low@.len(),
            out@ == underscored(low@).take(i as int),
        decreases low@.len() - i,
    {
        let c = low[i];
        if c == ' ' {
            out.push('_');
        } else {
            out.push(c);
        }
        i = i + 1;
        assert(out@ =~= underscored(low@).take(i as int));
    }
    assert(out@ =~= underscored(low@));
    Some(out)
}

/// Parses a markdown heading line into its normalized section name.
///
/// Accepts `## Section Name` or `### Section Name`; the name is lowercased and
/// its spaces become underscores.
pub fn parse_heading(line: &str) -> (r: Option<String>)
    ensures
        match r {
            Some(h) => heading(line@) == Some(h@),
            None => heading(line@) is None,
        },
{
    let cs = chars_of(line);
    match heading_chars(&cs) {
        Some(h) => Some(string_from_chars(&h)),
        None => None,
    }
}

/// Records a finished section: its trimmed content, unless that is empty.
pub open spec fn flush(m: Map<Seq<char>, Seq<char>>, current: Option<Seq<char>>, content: Seq<
    char,
>) -> Map<Seq<char>, Seq<char>> {
    match current {
        Some(name) => if trim(content).len() > 0 {
            m.insert(name, trim(content))
        } else {
            m
        },
        None => m,
    }
}

/// The sections found in the first lines of a body: the finished sections, the
/// section being read, and the text read for it so far.
pub open spec fn scan_sections(ls: Seq<Seq<char>>) -> (Map<Seq<char>, Seq<char>>, Option<Seq<char>>, Seq<char>)
    decreases ls.len(),
{
    if ls.len() == 0 {
        (Map::empty(), None, Seq::empty())
    } else {
        let (m, current, content) = scan_sections(ls.drop_last());
        let line = ls.last();
        match heading(line) {
            Some(h) => (flush(m, current, content), Some(h), Seq::empty()),
            None => if current is Some {
                (m, current, content + line + seq!['\n'])
            } else {
                (m, current, content)
            },
        }
    }
}

/// The sections of a markdown body, keyed by normalized heading: each maps to
/// the trimmed text between its heading and the next one; sections whose text
/// is empty are left out, and a later section replaces an earlier one of the
/// same name.
pub open spec fn sections(body: Seq<char>) -> Map<Seq<char>, Seq<char>> {
    let (m, current, content) = scan_sections(lines(body));
    flush(m, current, content)
}

fn flush_into(m: &mut StrMap, current: &Option<Vec<char>>, content: &Vec<char>)
    requires
        old(m).wf(),
    ensures
        final(m).wf(),
        final(m)@ == flush(
            old(m)@,
            match current {
                Some(n) => Some(n@),
                None => None,
            },
            content@,
        ),
{
    match current {
        Some(name) => {
            let t = trim_chars(content);
            if t.len() > 0 {
                m.insert_chars(name, &t);
            }
        },
        None => {},
    }
}

/// Extracts the sections of a markdown body (see [`sections`]).
pub fn extract_sections(body: &str) -> (r: StrMap)
    ensures
        r.wf(),
        r@ == sections(body@),
{
    let cs = chars_of(body);
    let ls = split_lines(&cs);
    let ghost lsv = ls@.map_values(|l: Vec<char>| l@);
    let mut m = StrMap::new();
    let mut current: Option<Vec<char>> = None;
    let mut content: Vec<char> = Vec::new();
    let mut i: usize = 0;
    assert(lsv.take(0) =~= Seq::<Seq<char>>::empty());
    while i < ls.len()
        invariant
            lsv == ls@.map_values(|l: Vec<char>| l@),
            lsv == lines(body@),
            i <= ls@.len(),
            m.wf(),
            scan_sections(lsv.take(i as int)) == (
                m@,
                match current {
                    Some(n) => Some(n@),
                    None => None,
                },
                content@,
            ),
        decreases ls@.len() - i,
    {
        let line = &ls[i];
        assert(lsv.take(i + 1).drop_last() =~= lsv.take(i as int));
        assert(lsv.take(i + 1).last() == line@);
        match heading_chars(line) {
            Some(h) => {
                flush_into(&mut m, &current, &content);
                current = Some(h);
                content = Vec::new();
            },
            None => {
                if current.is_some() {
                    push_all(&mut content, line);
                    content.push('\n');
                }
            },
        }
        i = i + 1;
    }
    assert(lsv.take(ls@.len() as int) =~= lsv);
    flush_into(&mut m, &current, &content);
    m
}

// ---------------------------------------------------------------------------
// Task context
// ---------------------------------------------------------------------------

/// Extracted context from a task file for prompt generation.
#[derive(Debug, Clone, Default)]
pub struct TaskContext {
    /// Task identifier (e.g. "TASK-001").
    pub task_id: String,
    /// Task title.
    pub title: String,
    /// Priority level.
    pub priority: String,
    /// Explicit file paths the task affects.
    pub affects: Vec<String>,
    /// Glob patterns for affected paths.
    pub affects_globs: Vec<String>,
    /// Paths the task must not touch.
    pub must_not_touch: Vec<String>,
    /// Tags for categorization.
    pub tags: Vec<String>,
    /// Task dependencies.
    pub depends_on: Vec<String>,
    /// Path to the task worktree.
    pub worktree: Option<String>,
    /// Name of the task branch.
    pub branch: Option<String>,
    /// Base SHA for diff validation.
    pub base_sha: Option<String>,
    /// The Objective section content.
    pub objective: String,
    /// The Acceptance Criteria section content.
    pub acceptance_criteria: String,
    /// The Context section content.
    pub context: String,
    /// The Implementation Notes section content.
    pub implementation_notes: String,
    /// The Test Plan section content.
    pub test_plan: String,
    /// The full body content.
    pub full_body: String,
}

/// A section's text, or empty when the section is absent.
pub open spec fn section_text(m: Map<Seq<char>, Seq<char>>, name: Seq<char>) -> Seq<char> {
    if m.contains_key(name) {
        m[name]
    } else {
        Seq::empty()
    }
}

/// A section's text under `name`, else under `alt`, else empty.
pub open spec fn section_text_or(m: Map<Seq<char>, Seq<char>>, name: Seq<char>, alt: Seq<char>) -> Seq<char> {
    if m.contains_key(name) {
        m[name]
    } else {
        section_text(m, alt)
    }
}

fn section_or(m: &StrMap, name: &str, alt: &str) -> (r: String)
    requires
        m.wf(),
    ensures
        r@ == section_text_or(m@, name@, alt@),
{
    match m.get(name) {
        Some(v) => v.clone(),
        None => match m.get(alt) {
            Some(v) => v.clone(),
            None => String::new(),
        },
    }
}

/// Copies an optional string.
pub fn clone_opt(o: &Option<String>) -> (r: Option<String>)
    ensures
        r == *o,
{
    match o {
        Some(s) => Some(s.clone()),
        None => None,
    }
}

/// Copies a list of strings.
pub fn clone_strings(v: &Vec<String>) -> (r: Vec<String>)
    ensures
        r@ == v@,
{
    let mut r: Vec<String> = Vec::new();
    let mut i: usize = 0;
    while i < v.len()
        invariant
            i <= v@.len(),
            r@ == v@.take(i as int),
        decreases v@.len() - i,
    {
        r.push(v[i].clone());
        i = i + 1;
        assert(r@ =~= v@.take(i as int));
    }
    assert(v@.take(v@.len() as int) =~= v@);
    r
}

/// The views of a list of strings.
pub open spec fn views(v: Seq<String>) -> Seq<Seq<char>> {
    v.map_values(|s: String| s@)
}

/// Items joined with a separator.
pub open spec fn join(items: Seq<Seq<char>>, sep: Seq<char>) -> Seq<char>
    decreases items.len(),
{
    if items.len() == 0 {
        Seq::empty()
    } else if items.len() == 1 {
        items[0]
    } else {
        join(items.drop_last(), sep) + sep + items.last()
    }
}

/// Joins strings with a separator (`[String]::join`).
pub fn join_strings(items: &Vec<String>, sep: &str) -> (r: String)
    ensures
        r@ == join(views(items@), sep@),
{
    let sepc = chars_of(sep);
    let mut out: Vec<char> = Vec::new();
    let mut i: usize = 0;
    while i < items.len()
        invariant
            i <= items@.len(),
            sepc@ == sep@,
            out@ == join(views(items@).take(i as int), sep@),
        decreases items@.len() - i,
    {
        let item = chars_of(items[i].as_str());
        if i > 0 {
            push_all(&mut out, &sepc);
        }
        push_all(&mut out, &item);
        i = i + 1;
        assert(views(items@).take(i as int).drop_last() =~= views(items@).take(i - 1));
        assert(out@ =~= join(views(items@).take(i as int), sep@)) by {
            if i == 1 {
                assert(views(items@).take(0) =~= Seq::<Seq<char>>::empty());
            }
        }
    }
    assert(views(items@).take(items@.len() as int) =~= views(items@));
    string_from_chars(&out)
}

impl TaskContext {
    /// Extracts the context of a task: its metadata and the recognized body sections.
    pub fn from_task(task: &TaskFile) -> (r: TaskContext)
        ensures
            r.task_id@ == task.frontmatter.id@,
            r.title@ == task.frontmatter.title@,
            r.priority@ == task.frontmatter.priority@,
            r.affects@ == task.frontmatter.affects@,
            r.affects_globs@ == task.frontmatter.affects_globs@,
            r.must_not_touch@ == task.frontmatter.must_not_touch@,
            r.tags@ == task.frontmatter.tags@,
            r.depends_on@ == task.frontmatter.depends_on@,
            r.worktree == task.frontmatter.worktree,
            r.branch == task.frontmatter.branch,
            r.base_sha == task.frontmatter.base_sha,
            r.objective@ == section_text(sections(task.body@), "objective"@),
            r.acceptance_criteria@ == section_text_or(
                sections(task.body@),
                "acceptance_criteria"@,
                "acceptance criteria"@,
            ),
            r.context@ == section_text(sections(task.body@), "context"@),
            r.implementation_notes@ == section_text_or(
                sections(task.body@),
                "implementation_notes"@,
                "implementation notes"@,
            ),
            r.test_plan@ == section_text_or(sections(task.body@), "test_plan"@, "test plan"@),
            r.full_body@ == task.body@,
    {
        let fm = &task.frontmatter;
        let secs = extract_sections(task.body.as_str());
        TaskContext {
            task_id: fm.id.clone(),
            title: fm.title.clone(),
            priority: fm.priority.clone(),
            affects: clone_strings(&fm.affects),
            affects_globs: clone_strings(&fm.affects_globs),
            must_not_touch: clone_strings(&fm.must_not_touch),
            tags: clone_strings(&fm.tags),
            depends_on: clone_strings(&fm.depends_on),
            worktree: clone_opt(&fm.worktree),
            branch: clone_opt(&fm.branch),
            base_sha: clone_opt(&fm.base_sha),
            objective: section_or(&secs, "objective", "objective"),
            acceptance_criteria: section_or(&secs, "acceptance_criteria", "acceptance criteria"),
            context: section_or(&secs, "context", "context"),
            implementation_notes: section_or(&secs, "implementation_notes", "implementation notes"),
            test_plan: section_or(&secs, "test_plan", "test plan"),
            full_body: task.body.clone(),
        }
    }

    /// The template variables of this context.
    pub open spec fn spec_vars(&self) -> Map<Seq<char>, Seq<char>> {
        Map::empty()
            .insert("task_id"@, self.task_id@)
            .insert("title"@, self.title@)
            .insert("priority"@, self.priority@)
            .insert("affects"@, join(views(self.affects@), ", "@))
            .insert("affects_globs"@, join(views(self.affects_globs@), ", "@))
            .insert("must_not_touch"@, join(views(self.must_not_touch@), ", "@))
            .insert("tags"@, join(views(self.tags@), ", "@))
            .insert("depends_on"@, join(views(self.depends_on@), ", "@))
            .insert("worktree"@, opt_text(self.worktree))
            .insert("branch"@, opt_text(self.branch))
            .insert("base_sha"@, opt_text(self.base_sha))
            .insert("objective"@, self.objective@)
            .insert("acceptance_criteria"@, self.acceptance_criteria@)
            .insert("context"@, self.context@)
            .insert("implementation_notes"@, self.implementation_notes@)
            .insert("test_plan"@, self.test_plan@)
            .insert("body"@, self.full_body@)
    }

    /// Converts the context to template variables: metadata fields, lists
    /// joined with `", "`, absent git fields as empty strings, body sections,
    /// and the full body as `body`.
    pub fn to_template_vars(&self) -> (r: StrMap)
        ensures
            r.wf(),
            r@ == self.spec_vars(),
    {
        let mut vars = StrMap::new();
        vars.insert("task_id", self.task_id.as_str());
        vars.insert("title", self.title.as_str());
        vars.insert("priority", self.priority.as_str());
        let s = join_strings(&self.affects, ", ");
        vars.insert("affects", s.as_str());
        let s = join_strings(&self.affects_globs, ", ");
        vars.insert("affects_globs", s.as_str());
        let s = join_strings(&self.must_not_touch, ", ");
        vars.insert("must_not_touch", s.as_str());
        let s = join_strings(&self.tags, ", ");
        vars.insert("tags", s.as_str());
        let s = join_strings(&self.depends_on, ", ");
        vars.insert("depends_on", s.as_str());
        let s = opt_or_empty(&self.worktree);
        vars.insert("worktree", s.as_str());
        let s = opt_or_empty(&self.branch);
        vars.insert("branch", s.as_str());
        let s = opt_or_empty(&self.base_sha);
        vars.insert("base_sha", s.as_str());
        vars.insert("objective", self.objective.as_str());
        vars.insert("acceptance_criteria", self.acceptance_criteria.as_str());
        vars.insert("context", self.context.as_str());
        vars.insert("implementation_notes", self.implementation_notes.as_str());
        vars.insert("test_plan", self.test_plan.as_str());
        vars.insert("body", self.full_body.as_str());
        vars
    }

    /// Adds the runtime path variables `task_file` and `prompt_file` when given.
    pub fn add_runtime_vars(
        &self,
        vars: &mut StrMap,
        task_file_path: Option<&str>,
        prompt_file_path: Option<&str>,
    )
        requires
            old(vars).wf(),
        ensures
            final(vars).wf(),
            final(vars)@ == with_opt(
                with_opt(old(vars)@, "task_file"@, task_file_path),
                "prompt_file"@,
                prompt_file_path,
            ),
    {
        if let Some(path) = task_file_path {
            vars.insert("task_file", path);
        }
        if let Some(path) = prompt_file_path {
            vars.insert("prompt_file", path);
        }
    }
}

/// `m` with `key` set to the given value, if any.
pub open spec fn with_opt(m: Map<Seq<char>, Seq<char>>, key: Seq<char>, v: Option<&str>) -> Map<
    Seq<char>,
    Seq<char>,
> {
    match v {
        Some(s) => m.insert(key, s@),
        None => m,
    }
}

/// The text of an optional string, empty when absent.
pub open spec fn opt_text(o: Option<String>) -> Seq<char> {
    match o {
        Some(s) => s@,
        None => Seq::empty(),
    }
}

/// The text of an optional string, empty when absent.
pub fn opt_or_empty(o: &Option<String>) -> (r: String)
    ensures
        r@ == opt_text(*o),
{
    match o {
        Some(s) => s.clone(),
        None => String::new(),
    }
}

// ---------------------------------------------------------------------------
// What the sections hold
// ---------------------------------------------------------------------------

/// Whether every text in `m` is trimmed and non-empty.
pub open spec fn all_trimmed(m: Map<Seq<char>, Seq<char>>) -> bool {
    forall|k: Seq<char>| #[trigger] m.contains_key(k) ==> trim(m[k]) == m[k] && m[k].len() > 0
}

proof fn lemma_scan_sections(ls: Seq<Seq<char>>)
    ensures
        all_trimmed(scan_sections(ls).0),
        (forall|j: int| 0 <= j < ls.len() ==> #[trigger] heading(ls[j]) is None) ==> scan_sections(ls).0 == Map::<
            Seq<char>,
            Seq<char>,
        >::empty() && scan_sections(ls).1 is None,
    decreases ls.len(),
{
    if ls.len() > 0 {
        let prefix = ls.drop_last();
        lemma_scan_sections(prefix);
        let (m, current, content) = scan_sections(prefix);
        lemma_trim_idempotent(content);
        if forall|j: int| 0 <= j < ls.len() ==> #[trigger] heading(ls[j]) is None {
            assert forall|j: int| 0 <= j < prefix.len() implies #[trigger] heading(prefix[j]) is None by {
                assert(prefix[j] == ls[j]);
            }
            assert(heading(ls[ls.len() - 1]) is None);
        }
    }
}

/// The sections of a body hold trimmed, non-empty texts, so a section's
/// text in a task context is trimmed; a body with no heading line has no
/// section, so every section text of its context is empty.
pub proof fn lemma_sections_trimmed(body: Seq<char>, name: Seq<char>, alt: Seq<char>)
    ensures
        all_trimmed(sections(body)),
        trim(section_text(sections(body), name)) == section_text(sections(body), name),
        trim(section_text_or(sections(body), name, alt)) == section_text_or(sections(body), name, alt),
        (forall|j: int| 0 <= j < lines(body).len() ==> #[trigger] heading(lines(body)[j]) is None)
            ==> sections(body) == Map::<Seq<char>, Seq<char>>::empty() && section_text_or(sections(body), name, alt)
            == Seq::<char>::empty(),
{
    let (m, current, content) = scan_sections(lines(body));
    lemma_scan_sections(lines(body));
    lemma_trim_idempotent(content);
    let empty = Seq::<char>::empty();
    assert(trim(empty) =~= empty);
}

} // verus!
