//! Validation steps run before an approval, and how their results are
//! reported in a task's QA Report.

use crate::agent::{shell_split, split_error_text, split_words};
use crate::context::{join, lines, split_lines, views};
use crate::error::{user_error, BurlError};
use crate::selection::join_chars;
use crate::stamp::{format_utc, utc_text, MAX_STAMP, MIN_STAMP};
use crate::template::{byte_suffix, char_boundary, lemma_encode_len, suffix_at_byte, utf8_len};
use crate::text::{
    chars_of, decimal, owned, push_all, push_decimal, push_str, string_from_chars, trim, trim_chars,
};
use vstd::prelude::*;

verus! {

broadcast use vstd::string::group_string_axioms;

/// Maximum number of output lines kept in a QA Report.
pub const QA_REPORT_MAX_LINES: usize = 50;

/// Maximum number of output bytes kept in a QA Report.
pub const QA_REPORT_MAX_CHARS: usize = 4096;

/// Outcome of one validation step.
#[derive(Debug, Clone, Copy, PartialEq, Eq, Structural)]
pub enum ValidationStepStatus {
    /// The step passed.
    Pass,
    /// The step failed.
    Fail,
    /// The step was not run.
    Skip,
}

/// Result of a single validation step.
#[derive(Debug, Clone)]
pub struct ValidationStepResult {
    /// Name of the step.
    pub name: String,
    /// Its outcome.
    pub status: ValidationStepStatus,
    /// Details, for a failed or skipped step.
    pub message: Option<String>,
}

impl ValidationStepResult {
    /// A passed step.
    pub fn pass(name: &str) -> (r: ValidationStepResult)
        ensures
            r.name@ == name@,
            r.status == ValidationStepStatus::Pass,
            r.message is None,
    {
        ValidationStepResult { name: owned(name), status: ValidationStepStatus::Pass, message: None }
    }

    /// A failed step, with its message.
    pub fn fail(name: &str, message: &str) -> (r: ValidationStepResult)
        ensures
            r.name@ == name@,
            r.status == ValidationStepStatus::Fail,
            r.message matches Some(m) && m@ == message@,
    {
        ValidationStepResult {
            name: owned(name),
            status: ValidationStepStatus::Fail,
            message: Some(owned(message)),
        }
    }

    /// A skipped step, with the reason.
    pub fn skip(name: &str, message: &str) -> (r: ValidationStepResult)
        ensures
            r.name@ == name@,
            r.status == ValidationStepStatus::Skip,
            r.message matches Some(m) && m@ == message@,
    {
        ValidationStepResult {
            name: owned(name),
            status: ValidationStepStatus::Skip,
            message: Some(owned(message)),
        }
    }

    /// Whether the step passed.
    pub fn passed(&self) -> (r: bool)
        ensures
            r == (self.status == ValidationStepStatus::Pass),
    {
        self.status == ValidationStepStatus::Pass
    }

    /// Whether the step did not fail (a skipped step does not fail).
    pub fn is_success(&self) -> (r: bool)
        ensures
            r == (self.status != ValidationStepStatus::Fail),
    {
        self.status != ValidationStepStatus::Fail
    }
}

/// The results of all validation steps.
#[derive(Debug, Clone)]
pub struct ValidationResult {
    /// Whether no step failed.
    pub all_passed: bool,
    /// Every step's result, in order.
    pub results: Vec<ValidationStepResult>,
}

impl ValidationResult {
    /// Collects step results; all passed when none failed.
    pub fn from_steps(results: Vec<ValidationStepResult>) -> (r: ValidationResult)
        ensures
            r.results@ == results@,
            r.all_passed == forall|i: int|
                0 <= i < results@.len() ==> #[trigger] results@[i].status != ValidationStepStatus::Fail,
    {
        let mut all = true;
        let mut i: usize = 0;
        while i < results.len()
            invariant
                i <= results@.len(),
                all == forall|k: int|
                    0 <= k < i ==> #[trigger] results@[k].status != ValidationStepStatus::Fail,
            decreases results@.len() - i,
        {
            if !results[i].is_success() {
                all = false;
            }
            i = i + 1;
        }
        ValidationResult { all_passed: all, results }
    }
}

// ---------------------------------------------------------------------------
// Command output in the QA Report
// ---------------------------------------------------------------------------

/// The last `max_lines` lines of `output`, joined by newlines.
pub open spec fn tail_lines(output: Seq<char>, max_lines: nat) -> Seq<char> {
    let ls = lines(output);
    join(if ls.len() > max_lines { ls.skip(ls.len() - max_lines) } else { ls }, "\n"@)
}

/// Output cut to fit a QA Report: its last `max_lines` lines, and of those
/// the last `max_chars` bytes after a `...(truncated)...` line when longer.
pub open spec fn truncated_output(output: Seq<char>, max_lines: nat, max_chars: nat) -> Seq<char> {
    let t = tail_lines(output, max_lines);
    if utf8_len(t) > max_chars {
        "...(truncated)...\n"@ + suffix_at_byte(t, (utf8_len(t) - max_chars) as nat)
    } else {
        t
    }
}

/// Cuts command output to fit a QA Report.
pub fn truncate_output(output: &str, max_lines: usize, max_chars: usize) -> (r: String)
    requires
        utf8_len(tail_lines(output@, max_lines as nat)) > max_chars ==> char_boundary(
            tail_lines(output@, max_lines as nat),
            (utf8_len(tail_lines(output@, max_lines as nat)) - max_chars) as nat,
        ),
    ensures
        r@ == truncated_output(output@, max_lines as nat, max_chars as nat),
{
    let oc = chars_of(output);
    let ls = split_lines(&oc);
    let ghost all = ls@.map_values(|l: Vec<char>| l@);
    let n = ls.len();
    let start = if n > max_lines { n - max_lines } else { 0 };
    let mut kept: Vec<Vec<char>> = Vec::new();
    let mut i: usize = start;
    while i < n
        invariant
            start <= i <= n,
            n == ls@.len(),
            kept@.map_values(|l: Vec<char>| l@) == ls@.map_values(|l: Vec<char>| l@).subrange(
                start as int,
                i as int,
            ),
        decreases n - i,
    {
        let ghost before = kept@;
        let l = crate::text::slice_chars(&ls[i], 0, ls[i].len());
        assert(l@ =~= ls@[i as int]@);
        kept.push(l);
        assert(kept@ == before.push(l));
        assert(kept@.map_values(|l: Vec<char>| l@) =~= before.map_values(|l: Vec<char>| l@) + seq![l@]);
        assert(ls@.map_values(|l: Vec<char>| l@).subrange(start as int, i + 1) =~= ls@.map_values(
            |l: Vec<char>| l@,
        ).subrange(start as int, i as int) + seq![ls@[i as int]@]);
        i = i + 1;
    }
    proof {
        let lsv = lines(output@);
        if lsv.len() > max_lines {
            assert(ls@.map_values(|l: Vec<char>| l@).subrange(start as int, n as int) =~= lsv.skip(
                lsv.len() - max_lines,
            ));
        } else {
            assert(ls@.map_values(|l: Vec<char>| l@).subrange(start as int, n as int) =~= lsv);
        }
    }
    let joined = join_chars(&kept, "\n");
    let text = string_from_chars(&joined);
    let nbytes = text.as_str().as_bytes().len();
    proof {
        lemma_encode_len(text@);
    }
    if nbytes > max_chars {
        let tail = byte_suffix(text.as_str(), nbytes - max_chars);
        let mut out: Vec<char> = Vec::new();
        push_str(&mut out, "...(truncated)...\n");
        push_str(&mut out, tail.as_str());
        return string_from_chars(&out);
    }
    text
}

/// Result of running the build/test command.
#[derive(Debug, Clone)]
pub struct BuildTestResult {
    /// Whether the command succeeded (exit code 0).
    pub passed: bool,
    /// Exit code of the command (-1 when it had none).
    pub exit_code: i32,
    /// Standard output of the command.
    pub stdout: String,
    /// Standard error of the command.
    pub stderr: String,
}

/// Decimal text of a signed number.
pub open spec fn signed_decimal(n: int) -> Seq<char> {
    if n < 0 {
        "-"@ + decimal((-n) as nat)
    } else {
        decimal(n as nat)
    }
}

/// What a build/test run printed: stdout, then stderr on a new line when there is any.
pub open spec fn combined_output(r: BuildTestResult) -> Seq<char> {
    if r.stderr@.len() > 0 {
        r.stdout@ + "\n"@ + r.stderr@
    } else {
        r.stdout@
    }
}

/// The QA Report message of a failed build/test run: its exit code, then its
/// output cut to the report's limits when there is any.
pub open spec fn build_error_text(r: BuildTestResult) -> Seq<char> {
    let t = truncated_output(combined_output(r), QA_REPORT_MAX_LINES as nat, QA_REPORT_MAX_CHARS as nat);
    "Build/test failed with exit code "@ + signed_decimal(r.exit_code as int) + "\n"@ + if t.len() > 0 {
        "\nOutput (truncated):\n```\n"@ + t + "\n```\n"@
    } else {
        Seq::empty()
    }
}

/// Formats the QA Report message of a failed build/test run.
pub fn format_build_error(result: &BuildTestResult) -> (r: String)
    requires
        ({
            let t = tail_lines(combined_output(*result), QA_REPORT_MAX_LINES as nat);
            utf8_len(t) > QA_REPORT_MAX_CHARS ==> char_boundary(
                t,
                (utf8_len(t) - QA_REPORT_MAX_CHARS) as nat,
            )
        }),
    ensures
        r@ == build_error_text(*result),
{
    let mut msg: Vec<char> = Vec::new();
    push_str(&mut msg, "Build/test failed with exit code ");
    if result.exit_code < 0 {
        push_str(&mut msg, "-");
        let m: i64 = -(result.exit_code as i64);
        push_decimal(&mut msg, m as u64);
    } else {
        push_decimal(&mut msg, result.exit_code as u64);
    }
    push_str(&mut msg, "\n");
    let err = chars_of(result.stderr.as_str());
    let combined = if err.len() > 0 {
        let mut c = chars_of(result.stdout.as_str());
        push_str(&mut c, "\n");
        push_all(&mut c, &err);
        string_from_chars(&c)
    } else {
        owned(result.stdout.as_str())
    };
    let truncated = truncate_output(combined.as_str(), QA_REPORT_MAX_LINES, QA_REPORT_MAX_CHARS);
    let tc = chars_of(truncated.as_str());
    if tc.len() > 0 {
        push_str(&mut msg, "\nOutput (truncated):\n```\n");
        push_all(&mut msg, &tc);
        push_str(&mut msg, "\n```\n");
    } else {
        assert(msg@ + Seq::<char>::empty() =~= msg@);
    }
    string_from_chars(&msg)
}

// ---------------------------------------------------------------------------
// Validation summary
// ---------------------------------------------------------------------------

/// The word shown for a step's outcome.
pub open spec fn status_word(s: ValidationStepStatus) -> Seq<char> {
    match s {
        ValidationStepStatus::Pass => "PASS"@,
        ValidationStepStatus::Fail => "FAIL"@,
        ValidationStepStatus::Skip => "SKIP"@,
    }
}

fn status_text(s: ValidationStepStatus) -> (r: &'static str)
    ensures
        r@ == status_word(s),
{
    match s {
        ValidationStepStatus::Pass => "PASS",
        ValidationStepStatus::Fail => "FAIL",
        ValidationStepStatus::Skip => "SKIP",
    }
}

/// Each line indented by two spaces and ended by a newline.
pub open spec fn indented(ls: Seq<Seq<char>>) -> Seq<char>
    decreases ls.len(),
{
    if ls.len() == 0 {
        Seq::empty()
    } else {
        indented(ls.drop_last()) + "  "@ + ls.last() + "\n"@
    }
}

/// The summary lines of one step.
pub open spec fn step_text(r: ValidationStepResult) -> Seq<char> {
    "- **"@ + r.name@ + "**: "@ + status_word(r.status) + "\n"@ + match r.message {
        Some(m) => indented(lines(m@)),
        None => Seq::empty(),
    }
}

/// The summary lines of all steps, in order.
pub open spec fn steps_text(rs: Seq<ValidationStepResult>) -> Seq<char>
    decreases rs.len(),
{
    if rs.len() == 0 {
        Seq::empty()
    } else {
        steps_text(rs.drop_last()) + step_text(rs.last())
    }
}

/// The QA Report summary of a validation run at time `stamp`.
pub open spec fn summary_text(stamp: Seq<char>, rs: Seq<ValidationStepResult>, all_passed: bool) -> Seq<char> {
    "### Validation Run (approve): "@ + stamp + "\n\n**Result:** "@ + if all_passed {
        "PASS"@
    } else {
        "FAIL"@
    } + "\n\n"@ + steps_text(rs)
}

/// Formats the QA Report summary of a validation run made at `now`.
pub fn format_validation_summary(results: &[ValidationStepResult], all_passed: bool, now: i64) -> (r: String)
    requires
        MIN_STAMP <= now <= MAX_STAMP,
    ensures
        r@ == summary_text(utc_text(now as int), results@, all_passed),
{
    let stamp = format_utc(now);
    let mut out: Vec<char> = Vec::new();
    push_str(&mut out, "### Validation Run (approve): ");
    push_str(&mut out, stamp.as_str());
    push_str(&mut out, "\n\n**Result:** ");
    if all_passed {
        push_str(&mut out, "PASS");
    } else {
        push_str(&mut out, "FAIL");
    }
    push_str(&mut out, "\n\n");
    let ghost head = out@;
    let mut i: usize = 0;
    while i < results.len()
        invariant
            i <= results@.len(),
            out@ == head + steps_text(results@.take(i as int)),
        decreases results@.len() - i,
    {
        assert(results@.take(i + 1).drop_last() =~= results@.take(i as int));
        let r = &results[i];
        let ghost before = out@;
        push_str(&mut out, "- **");
        push_str(&mut out, r.name.as_str());
        push_str(&mut out, "**: ");
        push_str(&mut out, status_text(r.status));
        push_str(&mut out, "\n");
        match &r.message {
            Some(m) => {
                let mc = chars_of(m.as_str());
                let ls = split_lines(&mc);
                let ghost lv = ls@.map_values(|l: Vec<char>| l@);
                let ghost mid = out@;
                let mut k: usize = 0;
                while k < ls.len()
                    invariant
                        k <= ls@.len(),
                        lv == ls@.map_values(|l: Vec<char>| l@),
                        out@ == mid + indented(lv.take(k as int)),
                    decreases ls@.len() - k,
                {
                    assert(lv.take(k + 1).drop_last() =~= lv.take(k as int));
                    push_str(&mut out, "  ");
                    push_all(&mut out, &ls[k]);
                    push_str(&mut out, "\n");
                    k = k + 1;
                }
                assert(lv.take(ls@.len() as int) =~= lv);
            },
            None => {
                assert(out@ + Seq::<char>::empty() =~= out@);
            },
        }
        i = i + 1;
    }
    assert(results@.take(results@.len() as int) =~= results@);
    string_from_chars(&out)
}

// ---------------------------------------------------------------------------
// Choosing the validation commands
// ---------------------------------------------------------------------------

/// The validation profile of a task: its own, else the configured default.
pub fn choose_validation_profile(task_profile: &Option<String>, default_profile: &Option<String>) -> (r: Option<String>)
    ensures
        r == if task_profile is Some {
            *task_profile
        } else {
            *default_profile
        },
{
    match task_profile {
        Some(p) => Some(p.clone()),
        None => match default_profile {
            Some(p) => Some(p.clone()),
            None => None,
        },
    }
}

/// The failed step reported for a validation profile that is not configured.
pub fn unknown_profile_step(profile: &str) -> (r: ValidationStepResult)
    ensures
        r.name@ == "validation"@,
        r.status == ValidationStepStatus::Fail,
        r.message matches Some(m) && m@ == "unknown validation_profile '"@ + profile@
            + "'.\nFix: add validation_profiles."@ + profile@
            + " to config.yaml or unset validation_profile on the task."@,
{
    let mut out: Vec<char> = Vec::new();
    push_str(&mut out, "unknown validation_profile '");
    push_str(&mut out, profile);
    push_str(&mut out, "'.\nFix: add validation_profiles.");
    push_str(&mut out, profile);
    push_str(&mut out, " to config.yaml or unset validation_profile on the task.");
    let m = string_from_chars(&out);
    ValidationStepResult::fail("validation", m.as_str())
}

/// The skipped step reported for a validation profile without steps.
pub fn empty_profile_step(profile: &str) -> (r: ValidationStepResult)
    ensures
        r.name@ == "validation"@,
        r.status == ValidationStepStatus::Skip,
        r.message matches Some(m) && m@ == "validation_profile '"@ + profile@ + "' has no steps"@,
{
    let mut out: Vec<char> = Vec::new();
    push_str(&mut out, "validation_profile '");
    push_str(&mut out, profile);
    push_str(&mut out, "' has no steps");
    let m = string_from_chars(&out);
    ValidationStepResult::skip("validation", m.as_str())
}

/// Whether a legacy build command is configured (not blank).
pub fn has_build_command(build_command: &str) -> (r: bool)
    ensures
        r == (trim(build_command@).len() > 0),
{
    let c = chars_of(build_command);
    trim_chars(&c).len() > 0
}

/// The program and arguments of the legacy build command, or the message
/// explaining why there are none.
pub open spec fn build_command_words(cmd: Seq<char>) -> Result<Seq<Seq<char>>, Seq<char>> {
    match shell_split(cmd) {
        None => Err(
            "failed to parse build_command '"@ + cmd + "': "@ + "missing closing quote"@
                + "\n\nFix: check for unmatched quotes or invalid escape sequences in config.yaml build_command."@,
        ),
        Some(w) => if w.len() == 0 {
            Err(
                "build_command is empty after parsing.\n\nFix: provide a valid command in config.yaml build_command."@,
            )
        } else {
            Ok(w)
        },
    }
}

/// Splits the legacy build command into program and arguments.
pub fn build_command_args(build_command: &str) -> (r: Result<Vec<String>, BurlError>)
    ensures
        match build_command_words(build_command@) {
            Ok(w) => r matches Ok(v) && views(v@) == w,
            Err(m) => r matches Err(e) && user_error(e, m),
        },
{
    match split_words(build_command) {
        Ok(words) => {
            if words.len() == 0 {
                return Err(
                    BurlError::UserError(
                        owned(
                            "build_command is empty after parsing.\n\nFix: provide a valid command in config.yaml build_command.",
                        ),
                    ),
                );
            }
            Ok(words)
        },
        Err(e) => {
            let mut out: Vec<char> = Vec::new();
            push_str(&mut out, "failed to parse build_command '");
            push_str(&mut out, build_command);
            push_str(&mut out, "': ");
            let why = split_error_text(&e);
            push_str(&mut out, why.as_str());
            push_str(
                &mut out,
                "\n\nFix: check for unmatched quotes or invalid escape sequences in config.yaml build_command.",
            );
            Err(BurlError::UserError(string_from_chars(&out)))
        },
    }
}

} // verus!
