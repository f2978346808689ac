//! Agent profiles (`agents.yaml`), their validation, and the binding of a task
//! to the agent that executes it.

use crate::context::{join, join_strings, views};
use crate::error::{user_error, BurlError};
use crate::keyed::{
    insert_entry, key_index, keys_of, keys_sorted, lemma_key_index_at, lemma_lex_total, lex_lt,
    lookup_entry, value_of,
};
use crate::strmap::StrMap;
use crate::template::{
    byte_prefix, char_boundary, lemma_encode_len, lemma_placeholder_renders, lemma_plain_template_renders_itself,
    lemma_render_concat, placeholder, prefix_at_byte, render, render_template, utf8_len, TemplateError,
    TemplateFault,
};
use crate::context::TaskContext;
use crate::task::{find_task, TaskFile, TaskFrontmatter, TaskIndex, TaskInfo};
use crate::text::{
    chars_of, decimal, owned, push_decimal, push_str, str_eq, string_from_chars,
};
use vstd::prelude::*;

verus! {

broadcast use vstd::string::group_string_axioms;

/// Default timeout for agent execution in seconds.
pub const DEFAULT_TIMEOUT_SECONDS: u64 = 600;

/// The default timeout, in seconds.
pub fn default_timeout_seconds() -> (r: u64)
    ensures
        r == DEFAULT_TIMEOUT_SECONDS,
{
    DEFAULT_TIMEOUT_SECONDS
}

/// The name of the default prompt template.
pub fn default_prompt_template() -> (r: String)
    ensures
        r@ == "default"@,
{
    owned("default")
}

/// Default settings for agent execution.
#[derive(Debug, Clone)]
pub struct AgentDefaults {
    /// Default timeout in seconds.
    pub timeout_seconds: u64,
    /// Default prompt template name.
    pub prompt_template: String,
}

impl Default for AgentDefaults {
    fn default() -> (r: Self)
        ensures
            r.timeout_seconds == DEFAULT_TIMEOUT_SECONDS,
            r.prompt_template@ == "default"@,
    {
        AgentDefaults {
            timeout_seconds: default_timeout_seconds(),
            prompt_template: default_prompt_template(),
        }
    }
}

/// Profile for a single agent.
#[derive(Debug, Clone, Default)]
pub struct AgentProfile {
    /// Human-readable name for the agent.
    pub name: String,
    /// Command template with `{variable}` placeholders.
    pub command: String,
    /// Timeout in seconds (overrides the default when set).
    pub timeout_seconds: Option<u64>,
    /// Environment variables to set for the agent process.
    pub environment: Vec<(String, String)>,
    /// Agent capabilities (informational).
    pub capabilities: Vec<String>,
    /// Whether this is the default agent.
    pub default: bool,
    /// Prompt template to use (overrides the default when set).
    pub prompt_template: Option<String>,
}

impl AgentProfile {
    /// The timeout for this agent: its own, else the default one.
    pub fn effective_timeout(&self, defaults: &AgentDefaults) -> (r: u64)
        ensures
            r == match self.timeout_seconds {
                Some(t) => t,
                None => defaults.timeout_seconds,
            },
    {
        match self.timeout_seconds {
            Some(t) => t,
            None => defaults.timeout_seconds,
        }
    }

    /// The prompt template name for this agent: its own, else the default one.
    pub fn effective_prompt_template<'a>(&'a self, defaults: &'a AgentDefaults) -> (r: &'a str)
        ensures
            r@ == match self.prompt_template {
                Some(t) => t@,
                None => defaults.prompt_template@,
            },
    {
        match &self.prompt_template {
            Some(t) => t.as_str(),
            None => defaults.prompt_template.as_str(),
        }
    }
}

/// Configuration of all agents, as read from `agents.yaml`.
///
/// Agents and prompt templates are kept in key order, each key once.
#[derive(Debug, Clone)]
pub struct AgentsConfig {
    /// Agent profiles keyed by identifier, in key order.
    pub agents: Vec<(String, AgentProfile)>,
    /// Default settings applied to all agents.
    pub defaults: AgentDefaults,
    /// Prompt templates keyed by name, in key order.
    pub prompt_templates: Vec<(String, String)>,
}

/// Prefix of every validation message.
pub open spec fn invalid(rest: Seq<char>) -> Seq<char> {
    "agents.yaml validation failed: "@ + rest
}

/// A validation message.
fn invalid_msg(rest: &str) -> (r: String)
    ensures
        r@ == invalid(rest@),
{
    let mut out: Vec<char> = Vec::new();
    push_str(&mut out, "agents.yaml validation failed: ");
    push_str(&mut out, rest);
    string_from_chars(&out)
}

/// What is wrong with one agent entry, if anything.
pub open spec fn agent_fault(id: Seq<char>, a: AgentProfile, templates: Seq<(String, String)>) -> Option<
    Seq<char>,
> {
    if id.len() == 0 {
        Some(invalid("agent identifier cannot be empty"@))
    } else if a.command@.len() == 0 {
        Some(invalid("agent '"@ + id + "' has empty command"@))
    } else if a.timeout_seconds == Some(0u64) {
        Some(invalid("agent '"@ + id + "' has timeout_seconds of 0"@))
    } else if a.prompt_template is Some && a.prompt_template->0@.len() > 0
        && a.prompt_template->0@ != "default"@ && value_of(templates, a.prompt_template->0@) is None {
        Some(
            invalid(
                "agent '"@ + id + "' references unknown prompt_template '"@ + a.prompt_template->0@
                    + "'"@,
            ),
        )
    } else {
        None
    }
}

/// The first fault among the agent entries, in key order.
pub open spec fn first_agent_fault(agents: Seq<(String, AgentProfile)>, templates: Seq<(String, String)>) -> Option<
    Seq<char>,
>
    decreases agents.len(),
{
    if agents.len() == 0 {
        None
    } else {
        match agent_fault(agents[0].0@, agents[0].1, templates) {
            Some(m) => Some(m),
            None => first_agent_fault(agents.drop_first(), templates),
        }
    }
}

/// Number of agents marked as default.
pub open spec fn count_defaults(agents: Seq<(String, AgentProfile)>) -> nat
    decreases agents.len(),
{
    if agents.len() == 0 {
        0
    } else {
        (if agents.last().1.default { 1nat } else { 0nat }) + count_defaults(agents.drop_last())
    }
}

/// Position of the first agent marked as default, in key order.
pub open spec fn first_default(agents: Seq<(String, AgentProfile)>) -> Option<int> {
    if exists|i: int| 0 <= i < agents.len() && agents[i].1.default {
        Some(
            choose|i: int|
                0 <= i < agents.len() && agents[i].1.default && forall|j: int|
                    0 <= j < i ==> !agents[j].1.default,
        )
    } else {
        None
    }
}

impl AgentsConfig {
    /// The agent entries, in key order.
    pub open spec fn entries(&self) -> Seq<(String, AgentProfile)> {
        self.agents@
    }

    /// The prompt templates, in key order.
    pub open spec fn templates(&self) -> Seq<(String, String)> {
        self.prompt_templates@
    }

    /// Keys are kept in order, each once.
    pub open spec fn wf(&self) -> bool {
        keys_sorted(self.entries()) && keys_sorted(self.templates())
    }

    /// What makes this configuration invalid, if anything.
    pub open spec fn fault(&self) -> Option<Seq<char>> {
        if self.defaults.timeout_seconds == 0 {
            Some(invalid("defaults.timeout_seconds must be greater than 0"@))
        } else if count_defaults(self.entries()) > 1 {
            Some(invalid("at most one agent can be marked as default"@))
        } else {
            first_agent_fault(self.entries(), self.templates())
        }
    }

    /// A configuration with no agents, no templates and default settings.
    pub fn new() -> (r: AgentsConfig)
        ensures
            r.wf(),
            r.entries() == Seq::<(String, AgentProfile)>::empty(),
            r.templates() == Seq::<(String, String)>::empty(),
            r.defaults.timeout_seconds == DEFAULT_TIMEOUT_SECONDS,
            r.defaults.prompt_template@ == "default"@,
    {
        AgentsConfig {
            agents: Vec::new(),
            defaults: AgentDefaults::default(),
            prompt_templates: Vec::new(),
        }
    }

    /// Adds (or replaces) the agent with identifier `id`.
    pub fn insert_agent(&mut self, id: &str, profile: AgentProfile)
        requires
            old(self).wf(),
        ensures
            final(self).wf(),
            final(self).defaults == old(self).defaults,
            final(self).templates() == old(self).templates(),
            forall|k: Seq<char>| #[trigger] value_of(final(self).entries(), k) == if k == id@ {
                Some(profile)
            } else {
                value_of(old(self).entries(), k)
            },
    {
        insert_entry(&mut self.agents, id, profile);
    }

    /// Adds (or replaces) the prompt template called `name`.
    pub fn insert_prompt_template(&mut self, name: &str, text: &str)
        requires
            old(self).wf(),
        ensures
            final(self).wf(),
            final(self).defaults == old(self).defaults,
            final(self).entries() == old(self).entries(),
            value_of(final(self).templates(), name@) matches Some(t) && t@ == text@,
            forall|k: Seq<char>|
                k != name@ ==> #[trigger] value_of(final(self).templates(), k) == value_of(
                    old(self).templates(),
                    k,
                ),
    {
        let t = owned(text);
        insert_entry(&mut self.prompt_templates, name, t);
    }

    /// Gets an agent by identifier.
    pub fn get(&self, id: &str) -> (r: Option<&AgentProfile>)
        requires
            self.wf(),
        ensures
            match r {
                Some(p) => value_of(self.entries(), id@) == Some(*p),
                None => value_of(self.entries(), id@) is None,
            },
    {
        lookup_entry(&self.agents, id)
    }

    /// Gets a prompt template by name, falling back to the `default`
    /// template when there is none of that name.
    pub fn get_prompt_template(&self, name: &str) -> (r: Option<&str>)
        requires
            self.wf(),
        ensures
            match value_of(self.templates(), name@) {
                Some(s) => r matches Some(t) && t@ == s@,
                None => match value_of(self.templates(), "default"@) {
                    Some(d) => r matches Some(t) && t@ == d@,
                    None => r is None,
                },
            },
    {
        match lookup_entry(&self.prompt_templates, name) {
            Some(t) => Some(t.as_str()),
            None => match lookup_entry(&self.prompt_templates, "default") {
                Some(d) => Some(d.as_str()),
                None => None,
            },
        }
    }

    /// Whether any agents are configured.
    pub fn has_agents(&self) -> (r: bool)
        ensures
            r == (self.entries().len() > 0),
    {
        self.agents.len() > 0
    }

    /// The number of configured agents.
    pub fn agent_count(&self) -> (r: usize)
        ensures
            r == self.entries().len(),
    {
        self.agents.len()
    }

    /// All agents with their identifiers, in key order.
    pub fn iter(&self) -> (r: &[(String, AgentProfile)])
        ensures
            r@ == self.entries(),
    {
        self.agents.as_slice()
    }

    /// The default agent, if one is marked: the first in key order.
    pub fn default_agent(&self) -> (r: Option<(&str, &AgentProfile)>)
        ensures
            match r {
                Some((id, p)) => first_default(self.entries()) matches Some(i) && id@
                    == self.entries()[i].0@ && *p == self.entries()[i].1,
                None => first_default(self.entries()) is None,
            },
    {
        let mut i: usize = 0;
        while i < self.agents.len()
            invariant
                i <= self.agents@.len(),
                forall|j: int| 0 <= j < i ==> !self.agents@[j].1.default,
            decreases self.agents@.len() - i,
        {
            if self.agents[i].1.default {
                let ghost k = first_default(self.agents@)->0;
                assert(self.agents@[i as int].1.default);
                assert(k == i) by {
                    if k < i {
                    } else if k > i {
                    }
                }
                return Some((self.agents[i].0.as_str(), &self.agents[i].1));
            }
            i = i + 1;
        }
        None
    }

    /// Checks the configuration: a positive default timeout, at most one
    /// default agent, and for each agent (in key order) a non-empty
    /// identifier, a non-empty command, a positive timeout when one is set,
    /// and a prompt template that exists when one other than `default` is named.
    pub fn validate(&self) -> (r: Result<(), BurlError>)
        requires
            self.wf(),
        ensures
            match r {
                Ok(()) => self.fault() is None,
                Err(e) => self.fault() matches Some(m) && user_error(e, m),
            },
    {
        if self.defaults.timeout_seconds == 0 {
            return Err(
                BurlError::UserError(
                    invalid_msg("defaults.timeout_seconds must be greater than 0"),
                ),
            );
        }
        let mut count: usize = 0;
        let mut i: usize = 0;
        while i < self.agents.len()
            invariant
                i <= self.agents@.len(),
                count == count_defaults(self.agents@.take(i as int)),
                count <= i,
            decreases self.agents@.len() - i,
        {
            assert(self.agents@.take(i + 1).drop_last() =~= self.agents@.take(i as int));
            if self.agents[i].1.default {
                count = count + 1;
            }
            i = i + 1;
        }
        assert(self.agents@.take(self.agents@.len() as int) =~= self.agents@);
        if count > 1 {
            return Err(
                BurlError::UserError(
                    invalid_msg("at most one agent can be marked as default"),
                ),
            );
        }
        let mut i: usize = 0;
        assert(self.agents@.skip(0) =~= self.agents@);
        while i < self.agents.len()
            invariant
                self.wf(),
                self.defaults.timeout_seconds != 0,
                count_defaults(self.agents@) <= 1,
                i <= self.agents@.len(),
                first_agent_fault(self.agents@, self.prompt_templates@) == first_agent_fault(
                    self.agents@.skip(i as int),
                    self.prompt_templates@,
                ),
            decreases self.agents@.len() - i,
        {
            let ghost rest = self.agents@.skip(i as int);
            assert(rest[0] == self.agents@[i as int]);
            assert(rest.drop_first() =~= self.agents@.skip(i + 1));
            match self.agent_error(&self.agents[i].0, &self.agents[i].1) {
                Some(m) => {
                    return Err(BurlError::UserError(m));
                },
                None => {},
            }
            i = i + 1;
        }
        Ok(())
    }

    /// The validation message for one agent entry, if it is at fault.
    fn agent_error(&self, id: &String, a: &AgentProfile) -> (r: Option<String>)
        requires
            self.wf(),
        ensures
            match r {
                Some(m) => agent_fault(id@, *a, self.templates()) == Some(m@),
                None => agent_fault(id@, *a, self.templates()) is None,
            },
    {
        let idc = chars_of(id.as_str());
        let mut out: Vec<char> = Vec::new();
        push_str(&mut out, "agents.yaml validation failed: ");
        if idc.len() == 0 {
            push_str(&mut out, "agent identifier cannot be empty");
            return Some(string_from_chars(&out));
        }
        push_str(&mut out, "agent '");
        push_str(&mut out, id.as_str());
        let cmd = chars_of(a.command.as_str());
        if cmd.len() == 0 {
            push_str(&mut out, "' has empty command");
            return Some(string_from_chars(&out));
        }
        if a.timeout_seconds == Some(0u64) {
            push_str(&mut out, "' has timeout_seconds of 0");
            return Some(string_from_chars(&out));
        }
        match &a.prompt_template {
            Some(t) => {
                let tc = chars_of(t.as_str());
                if tc.len() > 0 && !str_eq(t.as_str(), "default") && lookup_entry(
                    &self.prompt_templates,
                    t.as_str(),
                ).is_none() {
                    push_str(&mut out, "' references unknown prompt_template '");
                    push_str(&mut out, t.as_str());
                    push_str(&mut out, "'");
                    return Some(string_from_chars(&out));
                }
            },
            None => {},
        }
        None
    }
}

/// The built-in prompt template.
pub fn default_prompt_template_content() -> (r: &'static str)
    ensures
        r@ == DEFAULT_PROMPT@,
{
    DEFAULT_PROMPT
}

/// Text of the built-in prompt template.
pub const DEFAULT_PROMPT: &'static str = "# Task: {title}

## Objective
{objective}

## Acceptance Criteria
{acceptance_criteria}

## Context
{context}

## Constraints
- Affected files: {affects}
- Must not touch: {must_not_touch}

## Instructions
Complete the task according to the acceptance criteria above.
When finished, run `burl submit {task_id}` to submit for review.
";

/// What the built-in prompt template renders to: its text with each
/// placeholder replaced by its variable.
pub open spec fn default_prompt_text(vars: Map<Seq<char>, Seq<char>>) -> Seq<char> {
    "# Task: "@
        + vars["title"@]
        + "\n\n## Objective\n"@
        + vars["objective"@]
        + "\n\n## Acceptance Criteria\n"@
        + vars["acceptance_criteria"@]
        + "\n\n## Context\n"@
        + vars["context"@]
        + "\n\n## Constraints\n- Affected files: "@
        + vars["affects"@]
        + "\n- Must not touch: "@
        + vars["must_not_touch"@]
        + "\n\n## Instructions\nComplete the task according to the acceptance criteria above.\nWhen finished, run `burl submit "@
        + vars["task_id"@]
        + "` to submit for review.\n"@
}

/// The built-in prompt template renders without error whenever its
/// placeholders are defined, and then gives its text with each placeholder
/// replaced by its variable (so it begins `# Task: ` and the title).
#[verifier::spinoff_prover]
#[verifier::rlimit(60)]
pub proof fn lemma_default_template_renders(vars: Map<Seq<char>, Seq<char>>)
    requires
        vars.contains_key("title"@),
        vars.contains_key("objective"@),
        vars.contains_key("acceptance_criteria"@),
        vars.contains_key("context"@),
        vars.contains_key("affects"@),
        vars.contains_key("must_not_touch"@),
        vars.contains_key("task_id"@),
    ensures
        render(DEFAULT_PROMPT@, vars) == Ok::<Seq<char>, TemplateFault>(default_prompt_text(vars)),
{
    reveal_strlit("# Task: {title}

## Objective
{objective}

## Acceptance Criteria
{acceptance_criteria}

## Context
{context}

## Constraints
- Affected files: {affects}
- Must not touch: {must_not_touch}

## Instructions
Complete the task according to the acceptance criteria above.
When finished, run `burl submit {task_id}` to submit for review.
");
    reveal_strlit("# Task: ");
    reveal_strlit("title");
    reveal_strlit("\n\n## Objective\n");
    reveal_strlit("objective");
    reveal_strlit("\n\n## Acceptance Criteria\n");
    reveal_strlit("acceptance_criteria");
    reveal_strlit("\n\n## Context\n");
    reveal_strlit("context");
    reveal_strlit("\n\n## Constraints\n- Affected files: ");
    reveal_strlit("affects");
    reveal_strlit("\n- Must not touch: ");
    reveal_strlit("must_not_touch");
    reveal_strlit("\n\n## Instructions\nComplete the task according to the acceptance criteria above.\nWhen finished, run `burl submit ");
    reveal_strlit("task_id");
    reveal_strlit("` to submit for review.\n");
    let a0 = "# Task: "@;
    let a1 = placeholder("title"@);
    let a2 = "\n\n## Objective\n"@;
    let a3 = placeholder("objective"@);
    let a4 = "\n\n## Acceptance Criteria\n"@;
    let a5 = placeholder("acceptance_criteria"@);
    let a6 = "\n\n## Context\n"@;
    let a7 = placeholder("context"@);
    let a8 = "\n\n## Constraints\n- Affected files: "@;
    let a9 = placeholder("affects"@);
    let a10 = "\n- Must not touch: "@;
    let a11 = placeholder("must_not_touch"@);
    let a12 = "\n\n## Instructions\nComplete the task according to the acceptance criteria above.\nWhen finished, run `burl submit "@;
    let a13 = placeholder("task_id"@);
    let a14 = "` to submit for review.\n"@;
    let r14 = a14;
    let r13 = a13 + r14;
    let r12 = a12 + r13;
    let r11 = a11 + r12;
    let r10 = a10 + r11;
    let r9 = a9 + r10;
    let r8 = a8 + r9;
    let r7 = a7 + r8;
    let r6 = a6 + r7;
    let r5 = a5 + r6;
    let r4 = a4 + r5;
    let r3 = a3 + r4;
    let r2 = a2 + r3;
    let r1 = a1 + r2;
    let r0 = a0 + r1;
    assert(DEFAULT_PROMPT@ =~= r0);
    lemma_plain_template_renders_itself(a0, vars);
    lemma_placeholder_renders("title"@, vars);
    lemma_plain_template_renders_itself(a2, vars);
    lemma_placeholder_renders("objective"@, vars);
    lemma_plain_template_renders_itself(a4, vars);
    lemma_placeholder_renders("acceptance_criteria"@, vars);
    lemma_plain_template_renders_itself(a6, vars);
    lemma_placeholder_renders("context"@, vars);
    lemma_plain_template_renders_itself(a8, vars);
    lemma_placeholder_renders("affects"@, vars);
    lemma_plain_template_renders_itself(a10, vars);
    lemma_placeholder_renders("must_not_touch"@, vars);
    lemma_plain_template_renders_itself(a12, vars);
    lemma_placeholder_renders("task_id"@, vars);
    lemma_plain_template_renders_itself(a14, vars);
    assert(r14[0] == a14[0]);
    lemma_render_concat(a13, r14, vars);
    assert(r13[0] == a13[0]);
    lemma_render_concat(a12, r13, vars);
    assert(r12[0] == a12[0]);
    lemma_render_concat(a11, r12, vars);
    assert(r11[0] == a11[0]);
    lemma_render_concat(a10, r11, vars);
    assert(r10[0] == a10[0]);
    lemma_render_concat(a9, r10, vars);
    assert(r9[0] == a9[0]);
    lemma_render_concat(a8, r9, vars);
    assert(r8[0] == a8[0]);
    lemma_render_concat(a7, r8, vars);
    assert(r7[0] == a7[0]);
    lemma_render_concat(a6, r7, vars);
    assert(r6[0] == a6[0]);
    lemma_render_concat(a5, r6, vars);
    assert(r5[0] == a5[0]);
    lemma_render_concat(a4, r5, vars);
    assert(r4[0] == a4[0]);
    lemma_render_concat(a3, r4, vars);
    assert(r3[0] == a3[0]);
    lemma_render_concat(a2, r3, vars);
    assert(r2[0] == a2[0]);
    lemma_render_concat(a1, r2, vars);
    assert(r1[0] == a1[0]);
    lemma_render_concat(a0, r1, vars);
    assert(default_prompt_text(vars) =~= a0 + (vars["title"@] + (a2 + (vars["objective"@] + (a4 + (vars["acceptance_criteria"@] + (a6 + (vars["context"@] + (a8 + (vars["affects"@] + (a10 + (vars["must_not_touch"@] + (a12 + (vars["task_id"@] + (a14)))))))))))))));
}

/// The built-in template renders for the variables of every task context,
/// and what it gives begins `# Task: ` and the task's title.
pub proof fn lemma_default_template_renders_context(ctx: TaskContext)
    ensures
        render(DEFAULT_PROMPT@, ctx.spec_vars()) is Ok,
        crate::text::starts_with(render(DEFAULT_PROMPT@, ctx.spec_vars())->Ok_0, "# Task: "@ + ctx.title@),
{
    reveal_strlit("task_id");
    reveal_strlit("title");
    reveal_strlit("priority");
    reveal_strlit("affects");
    reveal_strlit("affects_globs");
    reveal_strlit("must_not_touch");
    reveal_strlit("tags");
    reveal_strlit("depends_on");
    reveal_strlit("worktree");
    reveal_strlit("branch");
    reveal_strlit("base_sha");
    reveal_strlit("objective");
    reveal_strlit("acceptance_criteria");
    reveal_strlit("context");
    reveal_strlit("implementation_notes");
    reveal_strlit("test_plan");
    reveal_strlit("body");
    reveal_strlit("# Task: ");
    assert("priority"@ != "title"@) by {
        assert("priority"@.len() != "title"@.len() || "priority"@[0] != 't' || "priority"@[1] != 'i');
    }
    assert("affects"@ != "title"@) by {
        assert("affects"@.len() != "title"@.len() || "affects"@[0] != 't' || "affects"@[1] != 'i');
    }
    assert("affects_globs"@ != "title"@) by {
        assert("affects_globs"@.len() != "title"@.len() || "affects_globs"@[0] != 't' || "affects_globs"@[1] != 'i');
    }
    assert("must_not_touch"@ != "title"@) by {
        assert("must_not_touch"@.len() != "title"@.len() || "must_not_touch"@[0] != 't' || "must_not_touch"@[1] != 'i');
    }
    assert("tags"@ != "title"@) by {
        assert("tags"@.len() != "title"@.len() || "tags"@[0] != 't' || "tags"@[1] != 'i');
    }
    assert("depends_on"@ != "title"@) by {
        assert("depends_on"@.len() != "title"@.len() || "depends_on"@[0] != 't' || "depends_on"@[1] != 'i');
    }
    assert("worktree"@ != "title"@) by {
        assert("worktree"@.len() != "title"@.len() || "worktree"@[0] != 't' || "worktree"@[1] != 'i');
    }
    assert("branch"@ != "title"@) by {
        assert("branch"@.len() != "title"@.len() || "branch"@[0] != 't' || "branch"@[1] != 'i');
    }
    assert("base_sha"@ != "title"@) by {
        assert("base_sha"@.len() != "title"@.len() || "base_sha"@[0] != 't' || "base_sha"@[1] != 'i');
    }
    assert("objective"@ != "title"@) by {
        assert("objective"@.len() != "title"@.len() || "objective"@[0] != 't' || "objective"@[1] != 'i');
    }
    assert("acceptance_criteria"@ != "title"@) by {
        assert("acceptance_criteria"@.len() != "title"@.len() || "acceptance_criteria"@[0] != 't' || "acceptance_criteria"@[1] != 'i');
    }
    assert("context"@ != "title"@) by {
        assert("context"@.len() != "title"@.len() || "context"@[0] != 't' || "context"@[1] != 'i');
    }
    assert("implementation_notes"@ != "title"@) by {
        assert("implementation_notes"@.len() != "title"@.len() || "implementation_notes"@[0] != 't' || "implementation_notes"@[1] != 'i');
    }
    assert("test_plan"@ != "title"@) by {
        assert("test_plan"@.len() != "title"@.len() || "test_plan"@[0] != 't' || "test_plan"@[1] != 'i');
    }
    assert("body"@ != "title"@) by {
        assert("body"@.len() != "title"@.len() || "body"@[0] != 't' || "body"@[1] != 'i');
    }
    let vars = ctx.spec_vars();
    assert(vars["title"@] == ctx.title@);
    lemma_default_template_renders(vars);
    let head = "# Task: "@ + ctx.title@;
    assert(default_prompt_text(vars).take(head.len() as int) =~= head);
}

// ---------------------------------------------------------------------------
// Binding a task to an agent
// ---------------------------------------------------------------------------

/// How an agent binding was resolved.
#[derive(Debug, Clone, Copy, PartialEq, Eq, Structural)]
pub enum BindingSource {
    /// The task names its agent.
    Explicit,
    /// The default agent of `agents.yaml`.
    Default,
}

/// The agent that executes a task.
#[derive(Debug, Clone)]
pub struct AgentBinding<'a> {
    /// The agent profile.
    pub profile: &'a AgentProfile,
    /// The agent identifier.
    pub agent_id: &'a str,
    /// How the binding was resolved.
    pub binding_source: BindingSource,
}

/// The configured agent identifiers for messages: `(none)`, or the identifiers
/// in key order separated by `, `.
pub open spec fn agent_list(agents: Seq<(String, AgentProfile)>) -> Seq<char> {
    if agents.len() == 0 {
        "(none)"@
    } else {
        join(keys_of(agents), ", "@)
    }
}

/// Lists the configured agents for messages.
pub fn available_agents(config: &AgentsConfig) -> (r: String)
    ensures
        r@ == agent_list(config.entries()),
{
    if config.agents.len() == 0 {
        return owned("(none)");
    }
    let mut ids: Vec<String> = Vec::new();
    let mut i: usize = 0;
    while i < config.agents.len()
        invariant
            i <= config.agents@.len(),
            ids@.len() == i,
            views(ids@) == keys_of(config.agents@.take(i as int)),
        decreases config.agents@.len() - i,
    {
        let id = owned(config.agents[i].0.as_str());
        let ghost prev = ids@;
        ids.push(id);
        assert(ids@ == prev.push(id));
        assert(views(ids@) =~= keys_of(config.agents@.take(i + 1))) by {
            assert forall|j: int| 0 <= j < i + 1 implies views(ids@)[j] == keys_of(
                config.agents@.take(i + 1),
            )[j] by {
                if j < i {
                    assert(ids@[j] == prev[j]);
                    assert(views(prev)[j] == keys_of(config.agents@.take(i as int))[j]);
                }
            }
        }
        i = i + 1;
    }
    assert(config.agents@.take(config.agents@.len() as int) =~= config.agents@);
    join_strings(&ids, ", ")
}

/// The error for a task whose agent is not configured.
pub open spec fn unknown_agent_message(task_id: Seq<char>, agent: Seq<char>, agents: Seq<(String, AgentProfile)>) -> Seq<char> {
    "task '"@ + task_id + "' is assigned to agent '"@ + agent
        + "', but this agent is not configured in agents.yaml.\nAvailable agents: "@ + agent_list(agents)
}

/// The error for a task with no agent when agents exist but none is the default.
pub open spec fn no_default_message(task_id: Seq<char>, agents: Seq<(String, AgentProfile)>) -> Seq<char> {
    "task '"@ + task_id
        + "' has no agent assigned and no default agent is configured.\nEither assign an agent to the task or mark one as default in agents.yaml.\nAvailable agents: "@
        + agent_list(agents)
}

/// The error for a task with no agent when no agent is configured at all.
pub open spec fn no_agents_message(task_id: Seq<char>) -> Seq<char> {
    "task '"@ + task_id + NO_AGENTS_HELP@
}

/// Rest of the message for a task with no agent when no agent is configured.
pub const NO_AGENTS_HELP: &'static str = "' has no agent assigned and no agents are configured.
Create an agents.yaml file with at least one agent profile.

Example agents.yaml:
agents:
  code-agent:
    name: \"Code Agent CLI\"
    command: \"code-agent -p {prompt_file}\"
    default: true";

/// Resolves which agent executes `task`: the agent the task names (which must
/// be configured), else the default agent; an error when neither exists.
pub fn resolve_agent<'a>(task: &'a TaskFile, config: &'a AgentsConfig) -> (r: Result<AgentBinding<'a>, BurlError>)
    requires
        config.wf(),
    ensures
        match task.frontmatter.agent {
            Some(a) => match value_of(config.entries(), a@) {
                Some(p) => r matches Ok(b) && *b.profile == p && b.agent_id@ == a@ && b.binding_source
                    == BindingSource::Explicit,
                None => r matches Err(e) && user_error(
                    e,
                    unknown_agent_message(task.frontmatter.id@, a@, config.entries()),
                ),
            },
            None => match first_default(config.entries()) {
                Some(i) => r matches Ok(b) && *b.profile == config.entries()[i].1 && b.agent_id@
                    == config.entries()[i].0@ && b.binding_source == BindingSource::Default,
                None => r matches Err(e) && user_error(
                    e,
                    if config.entries().len() > 0 {
                        no_default_message(task.frontmatter.id@, config.entries())
                    } else {
                        no_agents_message(task.frontmatter.id@)
                    },
                ),
            },
        },
{
    if let Some(agent_id) = &task.frontmatter.agent {
        match config.get(agent_id.as_str()) {
            Some(profile) => {
                return Ok(
                    AgentBinding {
                        profile,
                        agent_id: agent_id.as_str(),
                        binding_source: BindingSource::Explicit,
                    },
                );
            },
            None => {
                let mut out: Vec<char> = Vec::new();
                push_str(&mut out, "task '");
                push_str(&mut out, task.frontmatter.id.as_str());
                push_str(&mut out, "' is assigned to agent '");
                push_str(&mut out, agent_id.as_str());
                push_str(
                    &mut out,
                    "', but this agent is not configured in agents.yaml.\nAvailable agents: ",
                );
                let list = available_agents(config);
                push_str(&mut out, list.as_str());
                return Err(BurlError::UserError(string_from_chars(&out)));
            },
        }
    }
    match config.default_agent() {
        Some((agent_id, profile)) => Ok(
            AgentBinding { profile, agent_id, binding_source: BindingSource::Default },
        ),
        None => {
            let mut out: Vec<char> = Vec::new();
            push_str(&mut out, "task '");
            push_str(&mut out, task.frontmatter.id.as_str());
            if config.has_agents() {
                push_str(
                    &mut out,
                    "' has no agent assigned and no default agent is configured.\nEither assign an agent to the task or mark one as default in agents.yaml.\nAvailable agents: ",
                );
                let list = available_agents(config);
                push_str(&mut out, list.as_str());
            } else {
                push_str(&mut out, NO_AGENTS_HELP);
            }
            Err(BurlError::UserError(string_from_chars(&out)))
        },
    }
}

// ---------------------------------------------------------------------------
// Running an agent
// ---------------------------------------------------------------------------

#[verifier::external_type_specification]
#[verifier::external_body]
pub struct ExPathBuf(std::path::PathBuf);

/// Result of executing an agent command.
#[derive(Debug)]
pub struct AgentResult {
    /// Exit code of the process (`None` if it was killed or did not exit normally).
    pub exit_code: Option<i32>,
    /// Path to the stdout log file.
    pub stdout_path: std::path::PathBuf,
    /// Path to the stderr log file.
    pub stderr_path: std::path::PathBuf,
    /// Duration of execution.
    pub duration: std::time::Duration,
    /// Whether the process was killed because it ran past its timeout.
    pub timed_out: bool,
    /// The command that was executed.
    pub command: String,
}

impl AgentResult {
    /// Whether the agent succeeded: it exited with code 0 before its timeout.
    pub fn is_success(&self) -> (r: bool)
        ensures
            r == (!self.timed_out && self.exit_code == Some(0i32)),
    {
        !self.timed_out && match self.exit_code {
            Some(c) => c == 0,
            None => false,
        }
    }
}

/// Whether `ks` strictly increases.
pub open spec fn strictly_sorted(ks: Seq<Seq<char>>) -> bool {
    forall|i: int, j: int| 0 <= i < j < ks.len() ==> lex_lt(#[trigger] ks[i], #[trigger] ks[j])
}

/// The variable names for messages: all names, in order, separated by `, `.
pub fn format_vars(vars: &StrMap) -> (r: String)
    requires
        vars.wf(),
    ensures
        r@ == names_listing(vars@),
{
    let names = vars.names();
    let mut sorted: Vec<(String, ())> = Vec::new();
    let mut i: usize = 0;
    while i < names.len()
        invariant
            i <= names@.len(),
            keys_sorted(sorted@),
            forall|k: Seq<char>|
                #[trigger] value_of(sorted@, k) is Some <==> exists|j: int| 0 <= j < i && names@[j]@ == k,
        decreases names@.len() - i,
    {
        let name = string_from_chars(&names[i]);
        insert_entry(&mut sorted, name.as_str(), ());
        i = i + 1;
    }
    let mut keys: Vec<String> = Vec::new();
    let mut j: usize = 0;
    while j < sorted.len()
        invariant
            j <= sorted@.len(),
            keys@.len() == j,
            views(keys@) == keys_of(sorted@.take(j as int)),
        decreases sorted@.len() - j,
    {
        let k = owned(sorted[j].0.as_str());
        let ghost prev = keys@;
        keys.push(k);
        assert(views(keys@) =~= keys_of(sorted@.take(j + 1))) by {
            assert forall|m: int| 0 <= m < j + 1 implies views(keys@)[m] == keys_of(
                sorted@.take(j + 1),
            )[m] by {
                if m < j {
                    assert(keys@[m] == prev[m]);
                    assert(views(prev)[m] == keys_of(sorted@.take(j as int))[m]);
                }
            }
        }
        j = j + 1;
    }
    assert(sorted@.take(sorted@.len() as int) =~= sorted@);
    let ghost ks = keys_of(sorted@);
    proof {
        assert forall|k: Seq<char>| #[trigger] ks.contains(k) <==> vars@.contains_key(k) by {
            if ks.contains(k) {
                let m = choose|m: int| 0 <= m < ks.len() && ks[m] == k;
                lemma_key_index_at(sorted@, m);
            }
            if value_of(sorted@, k) is Some {
                let m = key_index(sorted@, k)->0;
                assert(ks[m] == k);
            }
        }
        assert(strictly_sorted(ks));
        let cs = choose|cs: Seq<Seq<char>>|
            strictly_sorted(cs) && forall|k: Seq<char>| #[trigger] cs.contains(k) <==> vars@.contains_key(k);
        lemma_sorted_unique(ks, cs);
    }
    join_strings(&keys, ", ")
}

/// Shortens `command` for display to `max_len` bytes: the command itself when it
/// fits, else its first `max_len - 3` bytes followed by `...`.
pub fn truncate_command(command: &str, max_len: usize) -> (r: String)
    requires
        utf8_len(command@) > max_len ==> max_len >= 3 && char_boundary(command@, (max_len - 3) as nat),
    ensures
        utf8_len(command@) <= max_len ==> r@ == command@,
        utf8_len(command@) > max_len ==> r@ == prefix_at_byte(command@, (max_len - 3) as nat) + "..."@,
{
    let nbytes = command.as_bytes().len();
    proof {
        lemma_encode_len(command@);
    }
    if nbytes <= max_len {
        return owned(command);
    }
    let head = byte_prefix(command, max_len - 3);
    let mut out = chars_of(head.as_str());
    push_str(&mut out, "...");
    string_from_chars(&out)
}

/// Two strictly increasing sequences with the same elements are equal.
pub proof fn lemma_sorted_unique(a: Seq<Seq<char>>, b: Seq<Seq<char>>)
    requires
        strictly_sorted(a),
        strictly_sorted(b),
        forall|k: Seq<char>|
            #![trigger a.contains(k)]
            #![trigger b.contains(k)]
            a.contains(k) <==> b.contains(k),
    ensures
        a == b,
    decreases a.len(),
{
    if a.len() == 0 {
        if b.len() > 0 {
            assert(b.contains(b[0]));
        }
        assert(a =~= b);
    } else {
        assert(a.contains(a[0]));
        assert(b.contains(b[0]));
        let j = choose|j: int| 0 <= j < b.len() && b[j] == a[0];
        let i = choose|i: int| 0 <= i < a.len() && a[i] == b[0];
        lemma_lex_total(a[0], b[0]);
        if j > 0 {
            assert(lex_lt(b[0], b[j]));
            if i > 0 {
                assert(lex_lt(a[0], a[i]));
            }
        }
        assert(a[0] == b[0]);
        let a1 = a.drop_first();
        let b1 = b.drop_first();
        assert forall|k: Seq<char>|
            #![trigger a1.contains(k)]
            #![trigger b1.contains(k)]
            a1.contains(k) <==> b1.contains(k) by {
            if a1.contains(k) {
                let m = choose|m: int| 0 <= m < a1.len() && a1[m] == k;
                assert(lex_lt(a[0], a[m + 1]));
                lemma_lex_total(a[0], a[0]);
                assert(b.contains(k));
                let n = choose|n: int| 0 <= n < b.len() && b[n] == k;
                assert(n != 0);
                assert(b1[n - 1] == k);
            }
            if b1.contains(k) {
                let m = choose|m: int| 0 <= m < b1.len() && b1[m] == k;
                assert(lex_lt(b[0], b[m + 1]));
                lemma_lex_total(b[0], b[0]);
                assert(a.contains(k));
                let n = choose|n: int| 0 <= n < a.len() && a[n] == k;
                assert(n != 0);
                assert(a1[n - 1] == k);
            }
        }
        assert(strictly_sorted(a1));
        assert(strictly_sorted(b1));
        lemma_sorted_unique(a1, b1);
        assert(a =~= seq![a[0]] + a1);
        assert(b =~= seq![b[0]] + b1);
    }
}

/// The names of `m` in increasing order, separated by `, `.
pub open spec fn names_listing(m: Map<Seq<char>, Seq<char>>) -> Seq<char> {
    join(
        choose|ks: Seq<Seq<char>>|
            strictly_sorted(ks) && forall|k: Seq<char>| #[trigger] ks.contains(k) <==> m.contains_key(k),
        ", "@,
    )
}

#[verifier::external_type_specification]
#[verifier::external_body]
pub struct ExShellParseError(shell_words::ParseError);

/// What `shell_words::split` gives for a command line: its words, or `None`
/// where it reports an error.
pub uninterp spec fn shell_split(line: Seq<char>) -> Option<Seq<Seq<char>>>;

/// Splits a command line into words with `shell_words::split` (quotes,
/// backslash escapes and `#` comments handled as a POSIX shell does). The
/// contract ties the outcome to `shell_split` of the line and states one fact
/// the crate's source shows: an empty line has no words. It leaves the
/// splitting rules themselves unstated.
#[verifier::external_body]
pub(crate) fn split_words(line: &str) -> (r: Result<Vec<String>, shell_words::ParseError>)
    ensures
        r is Ok <==> shell_split(line@) is Some,
        r is Ok ==> shell_split(line@) == Some(views(r->Ok_0@)),
        line@.len() == 0 ==> r is Ok && r->Ok_0@.len() == 0,
{
    shell_words::split(line)
}

/// The message of a `shell_words::ParseError`, through its `Display` impl,
/// which writes `missing closing quote`.
#[verifier::external_body]
pub(crate) fn split_error_text(e: &shell_words::ParseError) -> (r: String)
    ensures
        r@ == "missing closing quote"@,
{
    e.to_string()
}

/// The program and arguments an agent's command template gives for the
/// variables `vars`, or the message explaining why there are none.
pub open spec fn agent_command(command: Seq<char>, vars: Map<Seq<char>, Seq<char>>) -> Result<
    Seq<Seq<char>>,
    Seq<char>,
> {
    match render(command, vars) {
        Err(TemplateFault::Undefined(name, _)) => Err(
            "agent command template references undefined variable '"@ + name + "'\nCommand: "@
                + command + "\nAvailable variables: "@ + names_listing(vars),
        ),
        Err(TemplateFault::Unmatched(p)) => Err(
            "agent command template has unmatched '{' at position "@ + decimal(p),
        ),
        Err(TemplateFault::Empty(p)) => Err(
            "agent command template has empty variable name at position "@ + decimal(p),
        ),
        Ok(line) => match shell_split(line) {
            None => Err(
                "failed to parse agent command '"@ + line + "': "@ + "missing closing quote"@
                    + "\nFix: check for unmatched quotes or invalid escape sequences."@,
            ),
            Some(words) => if words.len() == 0 {
                Err("agent command is empty after parsing: '"@ + line + "'"@)
            } else {
                Ok(words)
            },
        },
    }
}

/// Renders an agent's command template with `variables` and splits it into
/// the program and its arguments, the way the agent is then run.
pub fn agent_command_args(agent: &AgentProfile, variables: &StrMap) -> (r: Result<Vec<String>, BurlError>)
    requires
        variables.wf(),
    ensures
        match r {
            Ok(w) => agent_command(agent.command@, variables@) == Ok::<Seq<Seq<char>>, Seq<char>>(views(w@)),
            Err(e) => agent_command(agent.command@, variables@) matches Err(m) && user_error(e, m),
        },
{
    let line = match render_template(agent.command.as_str(), variables) {
        Ok(l) => l,
        Err(e) => {
            let mut out: Vec<char> = Vec::new();
            match e {
                TemplateError::UndefinedVariable { name, .. } => {
                    push_str(&mut out, "agent command template references undefined variable '");
                    push_str(&mut out, name.as_str());
                    push_str(&mut out, "'\nCommand: ");
                    push_str(&mut out, agent.command.as_str());
                    push_str(&mut out, "\nAvailable variables: ");
                    let listing = format_vars(variables);
                    push_str(&mut out, listing.as_str());
                },
                TemplateError::UnmatchedBrace { position } => {
                    push_str(&mut out, "agent command template has unmatched '{' at position ");
                    push_decimal(&mut out, position as u64);
                },
                TemplateError::EmptyVariableName { position } => {
                    push_str(&mut out, "agent command template has empty variable name at position ");
                    push_decimal(&mut out, position as u64);
                },
            }
            return Err(BurlError::UserError(string_from_chars(&out)));
        },
    };
    match split_words(line.as_str()) {
        Ok(words) => {
            if words.len() == 0 {
                let mut out: Vec<char> = Vec::new();
                push_str(&mut out, "agent command is empty after parsing: '");
                push_str(&mut out, line.as_str());
                push_str(&mut out, "'");
                return Err(BurlError::UserError(string_from_chars(&out)));
            }
            Ok(words)
        },
        Err(e) => {
            let mut out: Vec<char> = Vec::new();
            push_str(&mut out, "failed to parse agent command '");
            push_str(&mut out, line.as_str());
            push_str(&mut out, "': ");
            let why = split_error_text(&e);
            push_str(&mut out, why.as_str());
            push_str(&mut out, "\nFix: check for unmatched quotes or invalid escape sequences.");
            Err(BurlError::UserError(string_from_chars(&out)))
        },
    }
}

proof fn lemma_count_defaults_split(agents: Seq<(String, AgentProfile)>, i: int)
    requires
        0 <= i <= agents.len(),
    ensures
        count_defaults(agents) == count_defaults(agents.take(i)) + count_defaults(agents.skip(i)),
    decreases agents.len(),
{
    if agents.len() > 0 {
        if i == agents.len() {
            assert(agents.take(i) =~= agents);
            assert(agents.skip(i) =~= Seq::<(String, AgentProfile)>::empty());
        } else {
            let d = agents.drop_last();
            lemma_count_defaults_split(d, i);
            assert(agents.take(i) =~= d.take(i));
            assert(agents.skip(i).drop_last() =~= d.skip(i));
            assert(agents.skip(i).last() == agents.last());
        }
    } else {
        assert(agents.take(i) =~= agents);
        assert(agents.skip(i) =~= agents);
    }
}

proof fn lemma_count_defaults_pos(agents: Seq<(String, AgentProfile)>, i: int)
    requires
        0 <= i < agents.len(),
        agents[i].1.default,
    ensures
        count_defaults(agents.skip(i)) >= 1,
    decreases agents.len(),
{
    if i < agents.len() - 1 {
        lemma_count_defaults_pos(agents.drop_last(), i);
        assert(agents.skip(i).drop_last() =~= agents.drop_last().skip(i));
    } else {
        assert(agents.skip(i).drop_last() =~= Seq::<(String, AgentProfile)>::empty());
    }
}

/// In a configuration that validates, at most one agent is marked as default,
/// so the default agent is the only one so marked.
pub proof fn lemma_valid_config_single_default(config: AgentsConfig, i: int, j: int)
    requires
        config.fault() is None,
        0 <= i < config.entries().len(),
        0 <= j < config.entries().len(),
        config.entries()[i].1.default,
        config.entries()[j].1.default,
    ensures
        i == j,
{
    let a = config.entries();
    reveal_strlit("agents.yaml validation failed: ");
    if i != j {
        let (lo, hi) = if i < j { (i, j) } else { (j, i) };
        lemma_count_defaults_split(a, hi);
        lemma_count_defaults_pos(a, hi);
        lemma_count_defaults_pos(a.take(hi), lo);
        lemma_count_defaults_split(a.take(hi), lo);
        assert(a.take(hi)[lo] == a[lo]);
        assert(count_defaults(a) >= 2);
        assert(config.defaults.timeout_seconds != 0 ==> count_defaults(a) <= 1);
        if config.defaults.timeout_seconds == 0 {
            assert(config.fault() is Some);
        }
    }
}

// ---------------------------------------------------------------------------
// `agent run`
// ---------------------------------------------------------------------------

/// Finds the task an agent runs on: it must exist and be in DOING.
pub fn agent_run_target<'a>(task_id: &str, index: &'a TaskIndex) -> (r: Result<&'a TaskInfo, BurlError>)
    ensures
        match find_task(index.tasks@, task_id@) {
            None => r matches Err(e) && user_error(e, "task '"@ + task_id@ + "' not found in any bucket"@),
            Some(info) => if info.bucket@ == "DOING"@ {
                r matches Ok(found) && *found == info
            } else {
                r matches Err(e) && user_error(
                    e,
                    "task '"@ + task_id@ + "' is in "@ + info.bucket@
                        + " bucket, but agent can only run on tasks in DOING bucket.\n\nUse `burl claim "@
                        + task_id@ + "` to claim the task first."@,
                )
            },
        },
{
    match index.find(task_id) {
        None => {
            let mut out = chars_of("task '");
            push_str(&mut out, task_id);
            push_str(&mut out, "' not found in any bucket");
            Err(BurlError::UserError(string_from_chars(&out)))
        },
        Some(info) => {
            if str_eq(info.bucket.as_str(), "DOING") {
                Ok(info)
            } else {
                let mut out = chars_of("task '");
                push_str(&mut out, task_id);
                push_str(&mut out, "' is in ");
                push_str(&mut out, info.bucket.as_str());
                push_str(
                    &mut out,
                    " bucket, but agent can only run on tasks in DOING bucket.\n\nUse `burl claim ",
                );
                push_str(&mut out, task_id);
                push_str(&mut out, "` to claim the task first.");
                Err(BurlError::UserError(string_from_chars(&out)))
            }
        },
    }
}

/// What failed around an agent process.
#[derive(Debug, Clone, Copy, PartialEq, Eq, Structural)]
pub enum AgentIoFailure {
    /// Creating the task's agent log directory.
    LogsDir,
    /// Creating the stdout log.
    StdoutLog,
    /// Creating the stderr log.
    StderrLog,
    /// Starting the agent program.
    Spawn,
    /// Asking whether the agent process has ended.
    Wait,
}

/// The message for a failure around an agent process: `subject` is the
/// directory, log file or program concerned, `detail` the system's words.
pub open spec fn agent_io_text(kind: AgentIoFailure, subject: Seq<char>, detail: Seq<char>) -> Seq<char> {
    match kind {
        AgentIoFailure::LogsDir => "failed to create agent logs directory '"@ + subject + "': "@ + detail,
        AgentIoFailure::StdoutLog => "failed to create stdout log '"@ + subject + "': "@ + detail,
        AgentIoFailure::StderrLog => "failed to create stderr log '"@ + subject + "': "@ + detail,
        AgentIoFailure::Spawn => "failed to execute agent command '"@ + subject + "': "@ + detail
            + "\nFix: ensure the command is installed and in PATH."@,
        AgentIoFailure::Wait => "failed to check process status: "@ + detail,
    }
}

/// The user error for a failure around an agent process.
pub fn agent_io_error(kind: AgentIoFailure, subject: &str, detail: &str) -> (e: BurlError)
    ensures
        user_error(e, agent_io_text(kind, subject@, detail@)),
{
    let mut out: Vec<char> = Vec::new();
    match kind {
        AgentIoFailure::LogsDir => {
            push_str(&mut out, "failed to create agent logs directory '");
            push_str(&mut out, subject);
            push_str(&mut out, "': ");
            push_str(&mut out, detail);
        },
        AgentIoFailure::StdoutLog => {
            push_str(&mut out, "failed to create stdout log '");
            push_str(&mut out, subject);
            push_str(&mut out, "': ");
            push_str(&mut out, detail);
        },
        AgentIoFailure::StderrLog => {
            push_str(&mut out, "failed to create stderr log '");
            push_str(&mut out, subject);
            push_str(&mut out, "': ");
            push_str(&mut out, detail);
        },
        AgentIoFailure::Spawn => {
            push_str(&mut out, "failed to execute agent command '");
            push_str(&mut out, subject);
            push_str(&mut out, "': ");
            push_str(&mut out, detail);
            push_str(&mut out, "\nFix: ensure the command is installed and in PATH.");
        },
        AgentIoFailure::Wait => {
            push_str(&mut out, "failed to check process status: ");
            push_str(&mut out, detail);
        },
    }
    BurlError::UserError(string_from_chars(&out))
}

/// The worktree recorded for a task an agent runs on.
pub fn recorded_worktree<'a>(task_id: &str, fm: &'a TaskFrontmatter) -> (r: Result<&'a String, BurlError>)
    ensures
        match fm.worktree {
            Some(w) => r matches Ok(x) && *x == w,
            None => r matches Err(e) && user_error(
                e,
                "task '"@ + task_id@
                    + "' has no worktree recorded.\n\nThe task must be properly claimed with `burl claim` before running an agent."@,
            ),
        },
{
    match &fm.worktree {
        Some(w) => Ok(w),
        None => {
            let mut out = chars_of("task '");
            push_str(&mut out, task_id);
            push_str(
                &mut out,
                "' has no worktree recorded.\n\nThe task must be properly claimed with `burl claim` before running an agent.",
            );
            Err(BurlError::UserError(string_from_chars(&out)))
        },
    }
}

/// Chooses the agent for `agent run`: the one named with `--agent` (which must
/// be configured), else the task's own binding.
pub fn select_agent<'a>(override_id: Option<&'a str>, task: &'a TaskFile, config: &'a AgentsConfig) -> (r: Result<
    AgentBinding<'a>,
    BurlError,
>)
    requires
        config.wf(),
    ensures
        match override_id {
            Some(a) => match value_of(config.entries(), a@) {
                Some(p) => r matches Ok(b) && *b.profile == p && b.agent_id@ == a@ && b.binding_source
                    == BindingSource::Explicit,
                None => r matches Err(e) && user_error(
                    e,
                    "agent '"@ + a@ + "' not found in agents.yaml.\nAvailable agents: "@ + join(
                        keys_of(config.entries()),
                        ", "@,
                    ),
                ),
            },
            None => match task.frontmatter.agent {
                Some(a) => match value_of(config.entries(), a@) {
                    Some(p) => r matches Ok(b) && *b.profile == p && b.agent_id@ == a@ && b.binding_source
                        == BindingSource::Explicit,
                    None => r matches Err(e) && user_error(
                        e,
                        unknown_agent_message(task.frontmatter.id@, a@, config.entries()),
                    ),
                },
                None => match first_default(config.entries()) {
                    Some(i) => r matches Ok(b) && *b.profile == config.entries()[i].1 && b.agent_id@
                        == config.entries()[i].0@ && b.binding_source == BindingSource::Default,
                    None => r matches Err(e) && user_error(
                        e,
                        if config.entries().len() > 0 {
                            no_default_message(task.frontmatter.id@, config.entries())
                        } else {
                            no_agents_message(task.frontmatter.id@)
                        },
                    ),
                },
            },
        },
{
    match override_id {
        Some(a) => match config.get(a) {
            Some(profile) => Ok(AgentBinding { profile, agent_id: a, binding_source: BindingSource::Explicit }),
            None => {
                let mut out = chars_of("agent '");
                push_str(&mut out, a);
                push_str(&mut out, "' not found in agents.yaml.\nAvailable agents: ");
                let list = if config.agents.len() == 0 {
                    proof {
                        assert(keys_of(config.entries()) =~= Seq::<Seq<char>>::empty());
                    }
                    String::new()
                } else {
                    available_agents(config)
                };
                push_str(&mut out, list.as_str());
                Err(BurlError::UserError(string_from_chars(&out)))
            },
        },
        None => resolve_agent(task, config),
    }
}

/// The variables of an agent's command: the task's template variables, with
/// the absolute worktree, the prompt file and the task file.
pub fn command_variables(ctx: &TaskContext, worktree: &str, prompt_file: &str, task_file: &str) -> (r: StrMap)
    ensures
        r.wf(),
        r@ == ctx.spec_vars().insert("worktree"@, worktree@).insert("prompt_file"@, prompt_file@).insert(
            "task_file"@,
            task_file@,
        ),
{
    let mut vars = ctx.to_template_vars();
    vars.insert("worktree", worktree);
    vars.insert("prompt_file", prompt_file);
    vars.insert("task_file", task_file);
    vars
}

/// Debug text of an optional exit code (`Some(1)`, `None`).
pub open spec fn exit_code_text(code: Option<i32>) -> Seq<char> {
    match code {
        Some(c) => "Some("@ + crate::validation::signed_decimal(c as int) + ")"@,
        None => "None"@,
    }
}

fn push_signed(out: &mut Vec<char>, n: i32)
    ensures
        final(out)@ == old(out)@ + crate::validation::signed_decimal(n as int),
{
    if n < 0 {
        push_str(out, "-");
        let m: i64 = -(n as i64);
        push_decimal(out, m as u64);
    } else {
        push_decimal(out, n as u64);
    }
}

/// What an agent run ends with: an error when the agent timed out or failed.
pub fn agent_run_outcome(result: &AgentResult, timeout: u64, stderr_path: &str) -> (r: Result<(), BurlError>)
    ensures
        result.timed_out ==> (r matches Err(e) && user_error(
            e,
            "agent timed out after "@ + decimal(timeout as nat) + "s. Check "@ + stderr_path@
                + " for output."@,
        )),
        !result.timed_out && result.exit_code != Some(0i32) ==> (r matches Err(e) && user_error(
            e,
            "agent exited with code "@ + exit_code_text(result.exit_code) + ". Check "@ + stderr_path@
                + " for output."@,
        )),
        !result.timed_out && result.exit_code == Some(0i32) ==> r is Ok,
{
    if result.timed_out {
        let mut out = chars_of("agent timed out after ");
        push_decimal(&mut out, timeout);
        push_str(&mut out, "s. Check ");
        push_str(&mut out, stderr_path);
        push_str(&mut out, " for output.");
        return Err(BurlError::UserError(string_from_chars(&out)));
    }
    if !result.is_success() {
        let mut out = chars_of("agent exited with code ");
        let ghost head = out@;
        match result.exit_code {
            Some(c) => {
                push_str(&mut out, "Some(");
                push_signed(&mut out, c);
                push_str(&mut out, ")");
                assert(out@ =~= head + exit_code_text(result.exit_code));
            },
            None => push_str(&mut out, "None"),
        }
        push_str(&mut out, ". Check ");
        push_str(&mut out, stderr_path);
        push_str(&mut out, " for output.");
        return Err(BurlError::UserError(string_from_chars(&out)));
    }
    Ok(())
}

// ---------------------------------------------------------------------------
// Agent listings
// ---------------------------------------------------------------------------

/// Whether every agent command can be shortened to 50 bytes for display.
pub open spec fn commands_displayable(agents: Seq<(String, AgentProfile)>) -> bool {
    forall|i: int|
        0 <= i < agents.len() ==> (utf8_len(#[trigger] agents[i].1.command@) > 50 ==> char_boundary(
            agents[i].1.command@,
            47,
        ))
}

/// The command shown for an agent: at most 50 bytes.
pub open spec fn shown_command(cmd: Seq<char>) -> Seq<char> {
    if utf8_len(cmd) <= 50 {
        cmd
    } else {
        prefix_at_byte(cmd, 47) + "..."@
    }
}

/// The first lines describing an agent: its identifier (marked when default) and name.
pub open spec fn entry_head(id: Seq<char>, p: AgentProfile) -> Seq<char> {
    "  "@ + id + (if p.default { " (default)"@ } else { Seq::empty() }) + "\n"@ + "    Name:        "@
        + (if p.name@.len() == 0 { id } else { p.name@ }) + "\n"@
}

/// The lines showing an agent's command and timeout.
pub open spec fn entry_mid(p: AgentProfile, defaults: AgentDefaults) -> Seq<char> {
    "    Command:     "@ + shown_command(p.command@) + "\n"@ + "    Timeout:     "@ + decimal(
        match p.timeout_seconds {
            Some(t) => t as nat,
            None => defaults.timeout_seconds as nat,
        },
    ) + "s\n"@
}

/// The last lines describing an agent: capabilities and environment, when present.
pub open spec fn entry_tail(p: AgentProfile) -> Seq<char> {
    (if p.capabilities@.len() > 0 {
        "    Capabilities: "@ + join(views(p.capabilities@), ", "@) + "\n"@
    } else {
        Seq::empty()
    }) + (if p.environment@.len() > 0 {
        "    Environment: "@ + decimal(p.environment@.len() as nat) + " vars\n"@
    } else {
        Seq::empty()
    }) + "\n"@
}

/// The lines describing one agent.
pub open spec fn agent_entry_text(id: Seq<char>, p: AgentProfile, defaults: AgentDefaults) -> Seq<char> {
    entry_head(id, p) + entry_mid(p, defaults) + entry_tail(p)
}

/// The lines describing agents, in order.
pub open spec fn agent_entries_text(agents: Seq<(String, AgentProfile)>, defaults: AgentDefaults) -> Seq<char>
    decreases agents.len(),
{
    if agents.len() == 0 {
        Seq::empty()
    } else {
        agent_entries_text(agents.drop_last(), defaults) + agent_entry_text(
            agents.last().0@,
            agents.last().1,
            defaults,
        )
    }
}

/// The text of `agent list` for a loaded configuration.
pub open spec fn agent_list_text(c: AgentsConfig) -> Seq<char> {
    if c.entries().len() == 0 {
        "No agents configured in agents.yaml.\n"@
    } else {
        "Configured agents ("@ + decimal(c.entries().len() as nat) + "):\n\n"@ + agent_entries_text(
            c.entries(),
            c.defaults,
        ) + "Defaults:\n  timeout_seconds: "@ + decimal(c.defaults.timeout_seconds as nat)
            + "\n  prompt_template: "@ + c.defaults.prompt_template@ + "\n"@ + if c.templates().len() > 0 {
            "\nPrompt templates: "@ + join(keys_of(c.templates()), ", "@) + "\n"@
        } else {
            Seq::empty()
        }
    }
}

fn push_entry_head(out: &mut Vec<char>, id: &String, p: &AgentProfile)
    ensures
        final(out)@ == old(out)@ + entry_head(id@, *p),
{
    let ghost start = out@;
    push_str(out, "  ");
    push_str(out, id.as_str());
    let ghost s1 = out@;
    if p.default {
        push_str(out, " (default)");
    }
    assert(out@ =~= s1 + if p.default { " (default)"@ } else { Seq::<char>::empty() });
    push_str(out, "\n");
    push_str(out, "    Name:        ");
    let ghost s2 = out@;
    let name = chars_of(p.name.as_str());
    if name.len() == 0 {
        push_str(out, id.as_str());
    } else {
        push_str(out, p.name.as_str());
    }
    assert(out@ =~= s2 + if p.name@.len() == 0 { id@ } else { p.name@ });
    push_str(out, "\n");
    assert(out@ =~= start + entry_head(id@, *p));
}

fn push_entry_mid(out: &mut Vec<char>, p: &AgentProfile, defaults: &AgentDefaults)
    requires
        utf8_len(p.command@) > 50 ==> char_boundary(p.command@, 47),
    ensures
        final(out)@ == old(out)@ + entry_mid(*p, *defaults),
{
    let ghost start = out@;
    push_str(out, "    Command:     ");
    let cmd = truncate_command(p.command.as_str(), 50);
    push_str(out, cmd.as_str());
    push_str(out, "\n");
    push_str(out, "    Timeout:     ");
    push_decimal(out, p.effective_timeout(defaults));
    push_str(out, "s\n");
    assert(out@ =~= start + entry_mid(*p, *defaults));
}

fn push_entry_tail(out: &mut Vec<char>, p: &AgentProfile)
    ensures
        final(out)@ == old(out)@ + entry_tail(*p),
{
    let ghost start = out@;
    if p.capabilities.len() > 0 {
        push_str(out, "    Capabilities: ");
        let caps = join_strings(&p.capabilities, ", ");
        push_str(out, caps.as_str());
        push_str(out, "\n");
    }
    let ghost s1 = out@;
    if p.environment.len() > 0 {
        push_str(out, "    Environment: ");
        push_decimal(out, p.environment.len() as u64);
        push_str(out, " vars\n");
    }
    let ghost s2 = out@;
    push_str(out, "\n");
    assert(out@ =~= start + entry_tail(*p));
}

fn push_agent_entry(out: &mut Vec<char>, id: &String, p: &AgentProfile, defaults: &AgentDefaults)
    requires
        utf8_len(p.command@) > 50 ==> char_boundary(p.command@, 47),
    ensures
        final(out)@ == old(out)@ + agent_entry_text(id@, *p, *defaults),
{
    let ghost start = out@;
    push_entry_head(out, id, p);
    push_entry_mid(out, p, defaults);
    push_entry_tail(out, p);
    assert(out@ =~= start + agent_entry_text(id@, *p, *defaults));
}

/// Formats `agent list` for a loaded configuration.
pub fn format_agent_list(config: &AgentsConfig) -> (r: String)
    requires
        config.wf(),
        commands_displayable(config.entries()),
    ensures
        r@ == agent_list_text(*config),
{
    if config.agents.len() == 0 {
        return owned("No agents configured in agents.yaml.\n");
    }
    let mut out = chars_of("Configured agents (");
    push_decimal(&mut out, config.agents.len() as u64);
    push_str(&mut out, "):\n\n");
    let ghost head = out@;
    let mut i: usize = 0;
    while i < config.agents.len()
        invariant
            i <= config.agents@.len(),
            commands_displayable(config.agents@),
            out@ == head + agent_entries_text(config.agents@.take(i as int), config.defaults),
        decreases config.agents@.len() - i,
    {
        assert(config.agents@.take(i + 1).drop_last() =~= config.agents@.take(i as int));
        let e = &config.agents[i];
        assert(utf8_len(config.agents@[i as int].1.command@) > 50 ==> char_boundary(
            config.agents@[i as int].1.command@,
            47,
        ));
        push_agent_entry(&mut out, &e.0, &e.1, &config.defaults);
        i = i + 1;
    }
    assert(config.agents@.take(config.agents@.len() as int) =~= config.agents@);
    let ghost mid = out@;
    push_str(&mut out, "Defaults:\n  timeout_seconds: ");
    push_decimal(&mut out, config.defaults.timeout_seconds);
    push_str(&mut out, "\n  prompt_template: ");
    push_str(&mut out, config.defaults.prompt_template.as_str());
    push_str(&mut out, "\n");
    let ghost tail = out@;
    if config.prompt_templates.len() > 0 {
        push_str(&mut out, "\nPrompt templates: ");
        let mut names: Vec<String> = Vec::new();
        let mut k: usize = 0;
        while k < config.prompt_templates.len()
            invariant
                k <= config.prompt_templates@.len(),
                names@.len() == k,
                views(names@) == keys_of(config.prompt_templates@.take(k as int)),
            decreases config.prompt_templates@.len() - k,
        {
            let ghost prev = names@;
            let nm = owned(config.prompt_templates[k].0.as_str());
            names.push(nm);
            assert(views(names@) =~= keys_of(config.prompt_templates@.take(k + 1))) by {
                assert forall|j: int| 0 <= j < k + 1 implies views(names@)[j] == keys_of(
                    config.prompt_templates@.take(k + 1),
                )[j] by {
                    if j < k {
                        assert(names@[j] == prev[j]);
                        assert(views(prev)[j] == keys_of(config.prompt_templates@.take(k as int))[j]);
                    }
                }
            }
            k = k + 1;
        }
        assert(config.prompt_templates@.take(config.prompt_templates@.len() as int)
            =~= config.prompt_templates@);
        let list = join_strings(&names, ", ");
        push_str(&mut out, list.as_str());
        push_str(&mut out, "\n");
    }
    assert(out@ =~= agent_list_text(*config));
    string_from_chars(&out)
}

/// The `agent list` text when `agents.yaml` does not exist at `path`.
pub fn missing_agents_file_text(path: &str) -> (r: String)
    ensures
        r@ == "No agents configured.\n\nCreate "@ + path@ + " to configure agent profiles.\n\n"@
            + EXAMPLE_AGENTS@,
{
    let mut out = chars_of("No agents configured.\n\nCreate ");
    push_str(&mut out, path);
    push_str(&mut out, " to configure agent profiles.\n\n");
    push_str(&mut out, EXAMPLE_AGENTS);
    string_from_chars(&out)
}

/// An example `agents.yaml`, as shown by `agent list`.
pub const EXAMPLE_AGENTS: &'static str = "Example agents.yaml:
agents:
  code-agent:
    name: \"Code Agent CLI\"
    command: \"code-agent -p {prompt_file}\"
    default: true
";

/// The `agent run` error when `agents.yaml` does not exist at `path`.
pub fn missing_agents_file_error(path: &str) -> (e: BurlError)
    ensures
        user_error(
            e,
            "agents.yaml not found at '"@ + path@
                + "'\n\nCreate an agents.yaml file to configure agent profiles.\n\nExample agents.yaml:\nagents:\n  code-agent:\n    name: \"Code Agent CLI\"\n    command: \"code-agent -p {prompt_file}\"\n    default: true"@,
        ),
{
    let mut out = chars_of("agents.yaml not found at '");
    push_str(&mut out, path);
    push_str(
        &mut out,
        "'\n\nCreate an agents.yaml file to configure agent profiles.\n\nExample agents.yaml:\nagents:\n  code-agent:\n    name: \"Code Agent CLI\"\n    command: \"code-agent -p {prompt_file}\"\n    default: true",
    );
    BurlError::UserError(string_from_chars(&out))
}

/// The command shown by a dry run: the rendered command, or why it does not render.
pub open spec fn dry_run_command(command: Seq<char>, vars: Map<Seq<char>, Seq<char>>) -> Seq<char> {
    match render(command, vars) {
        Ok(c) => c,
        Err(f) => "<error rendering command: "@ + crate::template::fault_message(f) + ">"@,
    }
}

/// The text of an `agent run --dry-run`.
pub open spec fn dry_run_text(
    task_id: Seq<char>,
    agent_id: Seq<char>,
    p: AgentProfile,
    vars: Map<Seq<char>, Seq<char>>,
    prompt: Seq<char>,
    worktree: Seq<char>,
    timeout: nat,
) -> Seq<char> {
    "Dry run - would execute:\n\n  Task:      "@ + task_id + "\n  Agent:     "@ + agent_id + " ("@ + p.name@
        + ")\n  Command:   "@ + dry_run_command(p.command@, vars) + "\n  Worktree:  "@ + worktree
        + "\n  Prompt:    "@ + prompt + "\n  Timeout:   "@ + decimal(timeout) + "s\n"@ + if p.environment@.len()
        > 0 {
        "  Environment:\n"@ + env_lines(p.environment@)
    } else {
        Seq::empty()
    }
}

/// The lines listing environment variables.
pub open spec fn env_lines(env: Seq<(String, String)>) -> Seq<char>
    decreases env.len(),
{
    if env.len() == 0 {
        Seq::empty()
    } else {
        env_lines(env.drop_last()) + "    "@ + env.last().0@ + "="@ + env.last().1@ + "\n"@
    }
}

/// Formats what `agent run --dry-run` shows.
pub fn format_dry_run(
    task_id: &str,
    agent_id: &str,
    profile: &AgentProfile,
    vars: &StrMap,
    prompt_path: &str,
    worktree: &str,
    timeout: u64,
) -> (r: String)
    requires
        vars.wf(),
    ensures
        r@ == dry_run_text(task_id@, agent_id@, *profile, vars@, prompt_path@, worktree@, timeout as nat),
{
    let shown = match render_template(profile.command.as_str(), vars) {
        Ok(c) => c,
        Err(e) => {
            let mut m = chars_of("<error rendering command: ");
            let text = e.message();
            push_str(&mut m, text.as_str());
            push_str(&mut m, ">");
            string_from_chars(&m)
        },
    };
    let mut out = chars_of("Dry run - would execute:\n\n  Task:      ");
    push_str(&mut out, task_id);
    push_str(&mut out, "\n  Agent:     ");
    push_str(&mut out, agent_id);
    push_str(&mut out, " (");
    push_str(&mut out, profile.name.as_str());
    push_str(&mut out, ")\n  Command:   ");
    push_str(&mut out, shown.as_str());
    push_str(&mut out, "\n  Worktree:  ");
    push_str(&mut out, worktree);
    push_str(&mut out, "\n  Prompt:    ");
    push_str(&mut out, prompt_path);
    push_str(&mut out, "\n  Timeout:   ");
    push_decimal(&mut out, timeout);
    push_str(&mut out, "s\n");
    let ghost head = out@;
    if profile.environment.len() > 0 {
        push_str(&mut out, "  Environment:\n");
        let ghost h2 = out@;
        let mut i: usize = 0;
        while i < profile.environment.len()
            invariant
                i <= profile.environment@.len(),
                out@ == h2 + env_lines(profile.environment@.take(i as int)),
            decreases profile.environment@.len() - i,
        {
            assert(profile.environment@.take(i + 1).drop_last() =~= profile.environment@.take(i as int));
            push_str(&mut out, "    ");
            push_str(&mut out, profile.environment[i].0.as_str());
            push_str(&mut out, "=");
            push_str(&mut out, profile.environment[i].1.as_str());
            push_str(&mut out, "\n");
            i = i + 1;
        }
        assert(profile.environment@.take(profile.environment@.len() as int) =~= profile.environment@);
    }
    assert(out@ =~= dry_run_text(task_id@, agent_id@, *profile, vars@, prompt_path@, worktree@, timeout as nat));
    string_from_chars(&out)
}

} // verus!
