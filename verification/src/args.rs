//! The command-line grammar of burl: from argument strings to a [`Cli`].
//!
//! The first argument names the program and is skipped. Then come the
//! command (and for `lock` and `agent` their action), then the command's
//! options and positional arguments in any order:
//! - `--name value` or `--name=value` for an option taking a value, `-x value`,
//!   `-xvalue` or `-x=value` for its short form; a following argument that
//!   starts with `-` (other than `-` itself) is never taken as a value;
//! - `--name` alone for a flag, which takes no value;
//! - list options split their values at commas and accumulate over repeats;
//!   any other option may be given once;
//! - `--` makes every later argument positional;
//! - `-h`/`--help` and `-V`/`--version` ask for help or the version.

use crate::cli::{
    AddArgs, AgentAction, AgentCommand, AgentRunArgs, ApproveArgs, ClaimArgs, CleanArgs, Cli, Command,
    DoctorArgs, LockAction, LockClearArgs, LockCommand, MonitorArgs, RejectArgs, ShowArgs, SubmitArgs,
    ValidateArgs, WatchArgs, WorktreeArgs,
};
use crate::text::{chars_eq, chars_of, slice_chars, string_from_chars};
use vstd::prelude::*;

verus! {

broadcast use vstd::string::group_string_axioms;

// ---------------------------------------------------------------------------
// The grammar
// ---------------------------------------------------------------------------

/// A command that takes options and positional arguments.
#[derive(Debug, Clone, Copy, PartialEq, Eq, Structural)]
pub enum Leaf {
    Init,
    Add,
    Status,
    Show,
    Claim,
    Submit,
    Validate,
    Approve,
    Reject,
    Worktree,
    LockList,
    LockClear,
    Doctor,
    Clean,
    Watch,
    Monitor,
    AgentRun,
    AgentList,
}

/// How an option takes its value.
#[derive(Debug, Clone, Copy, PartialEq, Eq, Structural)]
pub enum OptKind {
    /// No value: present or not.
    Flag,
    /// One string.
    Value,
    /// Comma-separated strings, accumulated over repeats.
    List,
    /// `true` or `false`.
    Bool,
    /// A decimal `u64`.
    U64,
    /// A decimal `usize`.
    Usize,
}

/// Where a command-line parse failed, or what it asks for instead of a command.
#[derive(Debug, Clone, PartialEq, Eq)]
pub enum CliError {
    /// `-h`, `--help` or `help`: show the help.
    DisplayHelp,
    /// `-V` or `--version`: show the version.
    DisplayVersion,
    /// No command (or no action for `lock` or `agent`) was given.
    MissingSubcommand,
    /// The command (or action) is not known.
    InvalidSubcommand(String),
    /// An option that the command does not have.
    UnknownArgument(String),
    /// An option given without its value.
    MissingValue(String),
    /// An option value that does not parse.
    InvalidValue(String, String),
    /// An option given more than once.
    ArgumentConflict(String),
    /// A value attached to a flag.
    UnexpectedValue(String, String),
    /// A positional argument beyond those the command takes.
    UnexpectedArgument(String),
    /// Required arguments that were not given.
    MissingRequired(Vec<String>),
}

/// Mathematical form of a [`CliError`].
pub enum CliFault {
    Help,
    Version,
    NoSubcommand,
    BadSubcommand(Seq<char>),
    Unknown(Seq<char>),
    NoValue(Seq<char>),
    BadValue(Seq<char>, Seq<char>),
    Repeated(Seq<char>),
    FlagValue(Seq<char>, Seq<char>),
    Extra(Seq<char>),
    Missing(Seq<Seq<char>>),
}

impl CliError {
    /// The failure this error reports.
    pub open spec fn fault(&self) -> CliFault {
        match self {
            CliError::DisplayHelp => CliFault::Help,
            CliError::DisplayVersion => CliFault::Version,
            CliError::MissingSubcommand => CliFault::NoSubcommand,
            CliError::InvalidSubcommand(s) => CliFault::BadSubcommand(s@),
            CliError::UnknownArgument(s) => CliFault::Unknown(s@),
            CliError::MissingValue(s) => CliFault::NoValue(s@),
            CliError::InvalidValue(a, v) => CliFault::BadValue(a@, v@),
            CliError::ArgumentConflict(s) => CliFault::Repeated(s@),
            CliError::UnexpectedValue(a, v) => CliFault::FlagValue(a@, v@),
            CliError::UnexpectedArgument(s) => CliFault::Extra(s@),
            CliError::MissingRequired(v) => CliFault::Missing(v@.map_values(|s: String| s@)),
        }
    }

    /// The process exit code: 0 for help and version, 2 for usage errors.
    pub fn exit_code(&self) -> (r: i32)
        ensures
            r == if self.fault() is Help || self.fault() is Version { 0i32 } else { 2i32 },
    {
        match self {
            CliError::DisplayHelp | CliError::DisplayVersion => 0,
            _ => 2,
        }
    }
}

/// Number of options of a command.
pub open spec fn n_opts(l: Leaf) -> nat {
    match l {
        Leaf::Add => 6,
        Leaf::Reject => 1,
        Leaf::LockClear => 1,
        Leaf::Doctor => 2,
        Leaf::Clean => 3,
        Leaf::Watch => 6,
        Leaf::Monitor => 5,
        Leaf::AgentRun => 2,
        _ => 0,
    }
}

/// Option `k` of a command: its long name, its short letter, how it takes its value.
pub open spec fn opt_spec(l: Leaf, k: int) -> (Seq<char>, Option<char>, OptKind) {
    let none = (Seq::<char>::empty(), None, OptKind::Flag);
    match l {
        Leaf::Add => if k == 0 {
            ("priority"@, Some('p'), OptKind::Value)
        } else if k == 1 {
            ("affects"@, None, OptKind::List)
        } else if k == 2 {
            ("affects-globs"@, None, OptKind::List)
        } else if k == 3 {
            ("must-not-touch"@, None, OptKind::List)
        } else if k == 4 {
            ("depends-on"@, None, OptKind::List)
        } else if k == 5 {
            ("tags"@, None, OptKind::List)
        } else {
            none
        },
        Leaf::Reject => if k == 0 {
            ("reason"@, Some('r'), OptKind::Value)
        } else {
            none
        },
        Leaf::LockClear => if k == 0 {
            ("force"@, None, OptKind::Flag)
        } else {
            none
        },
        Leaf::Doctor => if k == 0 {
            ("repair"@, None, OptKind::Flag)
        } else if k == 1 {
            ("force"@, None, OptKind::Flag)
        } else {
            none
        },
        Leaf::Clean => if k == 0 {
            ("completed"@, None, OptKind::Flag)
        } else if k == 1 {
            ("orphans"@, None, OptKind::Flag)
        } else if k == 2 {
            ("yes"@, None, OptKind::Flag)
        } else {
            none
        },
        Leaf::Watch => if k == 0 {
            ("interval-ms"@, None, OptKind::U64)
        } else if k == 1 {
            ("claim"@, None, OptKind::Bool)
        } else if k == 2 {
            ("qa"@, None, OptKind::Bool)
        } else if k == 3 {
            ("approve"@, None, OptKind::Flag)
        } else if k == 4 {
            ("dispatch"@, None, OptKind::Flag)
        } else if k == 5 {
            ("once"@, None, OptKind::Flag)
        } else {
            none
        },
        Leaf::Monitor => if k == 0 {
            ("interval-ms"@, None, OptKind::U64)
        } else if k == 1 {
            ("once"@, None, OptKind::Flag)
        } else if k == 2 {
            ("clear"@, None, OptKind::Bool)
        } else if k == 3 {
            ("limit"@, None, OptKind::Usize)
        } else if k == 4 {
            ("tail"@, None, OptKind::Usize)
        } else {
            none
        },
        Leaf::AgentRun => if k == 0 {
            ("agent"@, None, OptKind::Value)
        } else if k == 1 {
            ("dry-run"@, None, OptKind::Flag)
        } else {
            none
        },
        _ => none,
    }
}

/// Whether option `k` of a command must be given (the reason of `reject`).
pub open spec fn opt_required(l: Leaf, k: int) -> bool {
    l == Leaf::Reject && k == 0
}

/// Number of positional arguments a command takes, and how many of them are required.
pub open spec fn n_pos(l: Leaf) -> (nat, nat) {
    match l {
        Leaf::Add | Leaf::Show | Leaf::Validate | Leaf::Approve | Leaf::Reject | Leaf::Worktree
        | Leaf::LockClear | Leaf::AgentRun => (1, 1),
        Leaf::Claim | Leaf::Submit => (1, 0),
        _ => (0, 0),
    }
}

/// The name shown for a command's required positional argument.
pub open spec fn pos_name(l: Leaf) -> Seq<char> {
    match l {
        Leaf::Add => "<TITLE>"@,
        Leaf::LockClear => "<LOCK_ID>"@,
        _ => "<TASK_ID>"@,
    }
}

/// The first option of `l` from index `k` on whose long name is `name`.
pub open spec fn find_long(l: Leaf, name: Seq<char>, k: int) -> Option<int>
    decreases n_opts(l) - k,
{
    if k < 0 || k >= n_opts(l) {
        None
    } else if opt_spec(l, k).0 == name {
        Some(k)
    } else {
        find_long(l, name, k + 1)
    }
}

/// The first option of `l` from index `k` on whose short letter is `c`.
pub open spec fn find_short(l: Leaf, c: char, k: int) -> Option<int>
    decreases n_opts(l) - k,
{
    if k < 0 || k >= n_opts(l) {
        None
    } else if opt_spec(l, k).1 == Some(c) {
        Some(k)
    } else {
        find_short(l, c, k + 1)
    }
}

/// What has been read of a command's arguments.
#[verifier::ext_equal]
pub struct ParseModel {
    /// Positional arguments, in order.
    pub pos: Seq<Seq<char>>,
    /// Per option: absent, or the values read.
    pub opts: Seq<Option<Seq<Seq<char>>>>,
    /// Whether `--` has been seen.
    pub escaped: bool,
}

/// Nothing read yet.
pub open spec fn empty_model(l: Leaf) -> ParseModel {
    ParseModel { pos: Seq::empty(), opts: Seq::new(n_opts(l), |k: int| None), escaped: false }
}

/// Whether a following argument may be taken as an option's value.
pub open spec fn usable_value(t: Seq<char>) -> bool {
    !(t.len() > 1 && t[0] == '-')
}

/// The pieces of `s` between occurrences of `c` (`str::split`), from index `i` on.
pub open spec fn split_from(s: Seq<char>, c: char, i: int) -> Seq<Seq<char>>
    decreases s.len() + 1 - i,
{
    if i < 0 || i > s.len() {
        Seq::empty()
    } else {
        let j = first_at(s, c, i);
        if j < i || j >= s.len() {
            seq![s.subrange(i, s.len() as int)]
        } else {
            seq![s.subrange(i, j)] + split_from(s, c, j + 1)
        }
    }
}

/// Index of the first `c` at or after `i` in `s`, or the length.
pub open spec fn first_at(s: Seq<char>, c: char, i: int) -> int
    decreases s.len() - i,
{
    if i >= s.len() {
        s.len() as int
    } else if s[i] == c {
        i
    } else {
        first_at(s, c, i + 1)
    }
}

/// Whether `s` is a non-empty run of decimal digits.
pub open spec fn all_digits(s: Seq<char>) -> bool {
    s.len() > 0 && forall|i: int| 0 <= i < s.len() ==> '0' <= #[trigger] s[i] <= '9'
}

/// The number written by a run of decimal digits.
pub open spec fn digits_value(s: Seq<char>) -> nat
    decreases s.len(),
{
    if s.len() == 0 {
        0
    } else {
        digits_value(s.drop_last()) * 10 + ((s.last() as u32) - ('0' as u32)) as nat
    }
}

/// Whether `v` is a valid value for an option of kind `kind`.
pub open spec fn valid_value(kind: OptKind, v: Seq<char>) -> bool {
    match kind {
        OptKind::Bool => v == "true"@ || v == "false"@,
        OptKind::U64 => all_digits(v) && digits_value(v) <= u64::MAX,
        OptKind::Usize => all_digits(v) && digits_value(v) <= usize::MAX,
        _ => true,
    }
}

/// The model after option `k` of `l`, shown as `shown`, receives the value `v`.
pub open spec fn give_value(l: Leaf, m: ParseModel, k: int, shown: Seq<char>, v: Seq<char>) -> Result<
    ParseModel,
    CliFault,
> {
    let kind = opt_spec(l, k).2;
    if kind == OptKind::List {
        let before = match m.opts[k] {
            Some(vs) => vs,
            None => Seq::empty(),
        };
        Ok(ParseModel { opts: m.opts.update(k, Some(before + split_from(v, ',', 0))), ..m })
    } else if m.opts[k] is Some {
        Err(CliFault::Repeated(shown))
    } else if !valid_value(kind, v) {
        Err(CliFault::BadValue(shown, v))
    } else {
        Ok(ParseModel { opts: m.opts.update(k, Some(seq![v])), ..m })
    }
}

/// Option `k` given with the attached value `attached`, if any, and `next`
/// the argument after it: the new model, and whether `next` was taken.
pub open spec fn read_option(
    l: Leaf,
    m: ParseModel,
    k: int,
    shown: Seq<char>,
    attached: Option<Seq<char>>,
    next: Option<Seq<char>>,
) -> Result<(ParseModel, bool), CliFault> {
    if opt_spec(l, k).2 == OptKind::Flag {
        match attached {
            Some(v) => Err(CliFault::FlagValue(shown, v)),
            None => if m.opts[k] is Some {
                Err(CliFault::Repeated(shown))
            } else {
                Ok((ParseModel { opts: m.opts.update(k, Some(Seq::empty())), ..m }, false))
            },
        }
    } else {
        match attached {
            Some(v) => match give_value(l, m, k, shown, v) {
                Ok(m2) => Ok((m2, false)),
                Err(e) => Err(e),
            },
            None => match next {
                Some(n) => if usable_value(n) {
                    match give_value(l, m, k, shown, n) {
                        Ok(m2) => Ok((m2, true)),
                        Err(e) => Err(e),
                    }
                } else {
                    Err(CliFault::NoValue(shown))
                },
                None => Err(CliFault::NoValue(shown)),
            },
        }
    }
}

/// Reads one argument `t` of command `l` (with `next` the one after it): the
/// new model, and whether `next` was taken as a value.
pub open spec fn read_arg(l: Leaf, m: ParseModel, t: Seq<char>, next: Option<Seq<char>>) -> Result<
    (ParseModel, bool),
    CliFault,
> {
    if !m.escaped && t == "--"@ {
        Ok((ParseModel { escaped: true, ..m }, false))
    } else if !m.escaped && t.len() > 2 && t[0] == '-' && t[1] == '-' {
        let body = t.skip(2);
        let eq = first_at(body, '=', 0);
        let name = body.take(eq);
        let attached = if eq < body.len() { Some(body.skip(eq + 1)) } else { None };
        if name == "help"@ {
            Err(CliFault::Help)
        } else if name == "version"@ {
            Err(CliFault::Version)
        } else {
            match find_long(l, name, 0) {
                None => Err(CliFault::Unknown("--"@ + name)),
                Some(k) => read_option(l, m, k, "--"@ + name, attached, next),
            }
        }
    } else if !m.escaped && t.len() > 1 && t[0] == '-' {
        let c = t[1];
        let rest = t.skip(2);
        if c == 'h' {
            Err(CliFault::Help)
        } else if c == 'V' {
            Err(CliFault::Version)
        } else {
            match find_short(l, c, 0) {
                None => Err(CliFault::Unknown(t)),
                Some(k) => {
                    let attached = if rest.len() == 0 {
                        None
                    } else if rest[0] == '=' {
                        Some(rest.skip(1))
                    } else {
                        Some(rest)
                    };
                    read_option(l, m, k, "--"@ + opt_spec(l, k).0, attached, next)
                },
            }
        }
    } else if m.pos.len() < n_pos(l).0 {
        Ok((ParseModel { pos: m.pos.push(t), ..m }, false))
    } else {
        Err(CliFault::Extra(t))
    }
}

/// Reads the arguments of command `l` from index `i` on.
pub open spec fn read_args(l: Leaf, toks: Seq<Seq<char>>, i: int, m: ParseModel) -> Result<ParseModel, CliFault>
    decreases toks.len() - i,
{
    if i < 0 || i >= toks.len() {
        Ok(m)
    } else {
        let next = if i + 1 < toks.len() { Some(toks[i + 1]) } else { None };
        match read_arg(l, m, toks[i], next) {
            Err(e) => Err(e),
            Ok((m2, took)) => read_args(l, toks, i + 1 + if took { 1int } else { 0int }, m2),
        }
    }
}

/// The required arguments of `l` that `m` lacks, as shown in messages.
pub open spec fn missing_required(l: Leaf, m: ParseModel) -> Seq<Seq<char>> {
    (if n_pos(l).1 > m.pos.len() { seq![pos_name(l)] } else { Seq::empty() }) + if l == Leaf::Reject
        && m.opts[0] is None {
        seq!["--reason <REASON>"@]
    } else {
        Seq::empty()
    }
}

/// Reads all the arguments of command `l`, from index `i` on.
pub open spec fn parse_leaf(l: Leaf, toks: Seq<Seq<char>>, i: int) -> Result<(Leaf, ParseModel), CliFault> {
    match read_args(l, toks, i, empty_model(l)) {
        Err(e) => Err(e),
        Ok(m) => if missing_required(l, m).len() > 0 {
            Err(CliFault::Missing(missing_required(l, m)))
        } else {
            Ok((l, m))
        },
    }
}

/// Whether `t` asks for help where a command is expected.
pub open spec fn asks_help(t: Seq<char>) -> bool {
    t == "-h"@ || t == "--help"@ || t == "help"@
}

/// Whether `t` asks for the version where a command is expected.
pub open spec fn asks_version(t: Seq<char>) -> bool {
    t == "-V"@ || t == "--version"@
}

/// The action of `lock` named `t`.
pub open spec fn lock_action(t: Seq<char>) -> Option<Leaf> {
    if t == "list"@ {
        Some(Leaf::LockList)
    } else if t == "clear"@ {
        Some(Leaf::LockClear)
    } else {
        None
    }
}

/// The action of `agent` named `t`.
pub open spec fn agent_action(t: Seq<char>) -> Option<Leaf> {
    if t == "run"@ {
        Some(Leaf::AgentRun)
    } else if t == "list"@ {
        Some(Leaf::AgentList)
    } else {
        None
    }
}

/// The command named `t`; `None` for `lock` and `agent`, which take an action.
pub open spec fn command_named(t: Seq<char>) -> Option<Leaf> {
    if t == "init"@ {
        Some(Leaf::Init)
    } else if t == "add"@ {
        Some(Leaf::Add)
    } else if t == "status"@ {
        Some(Leaf::Status)
    } else if t == "show"@ {
        Some(Leaf::Show)
    } else if t == "claim"@ {
        Some(Leaf::Claim)
    } else if t == "submit"@ {
        Some(Leaf::Submit)
    } else if t == "validate"@ {
        Some(Leaf::Validate)
    } else if t == "approve"@ {
        Some(Leaf::Approve)
    } else if t == "reject"@ {
        Some(Leaf::Reject)
    } else if t == "worktree"@ {
        Some(Leaf::Worktree)
    } else if t == "doctor"@ {
        Some(Leaf::Doctor)
    } else if t == "clean"@ {
        Some(Leaf::Clean)
    } else if t == "watch"@ {
        Some(Leaf::Watch)
    } else if t == "monitor"@ || t == "visualizer"@ || t == "viz"@ || t == "dashboard"@ {
        Some(Leaf::Monitor)
    } else {
        None
    }
}

/// The action named at index `i` for a command with actions (`lock` or `agent`).
pub open spec fn parse_action(toks: Seq<Seq<char>>, i: int, is_lock: bool) -> Result<(Leaf, ParseModel), CliFault> {
    if i >= toks.len() {
        Err(CliFault::NoSubcommand)
    } else {
        let t = toks[i];
        if asks_help(t) {
            Err(CliFault::Help)
        } else if asks_version(t) {
            Err(CliFault::Version)
        } else if t.len() > 1 && t[0] == '-' {
            Err(CliFault::Unknown(t))
        } else {
            match if is_lock { lock_action(t) } else { agent_action(t) } {
                Some(l) => parse_leaf(l, toks, i + 1),
                None => Err(CliFault::BadSubcommand(t)),
            }
        }
    }
}

/// What the arguments (the program name first) ask for: a command and what
/// was read of its arguments, or why there is none.
pub open spec fn parse_cli(toks: Seq<Seq<char>>) -> Result<(Leaf, ParseModel), CliFault> {
    if toks.len() < 2 {
        Err(CliFault::NoSubcommand)
    } else {
        let t = toks[1];
        if asks_help(t) {
            Err(CliFault::Help)
        } else if asks_version(t) {
            Err(CliFault::Version)
        } else if t.len() > 1 && t[0] == '-' {
            Err(CliFault::Unknown(t))
        } else if t == "lock"@ {
            parse_action(toks, 2, true)
        } else if t == "agent"@ {
            parse_action(toks, 2, false)
        } else {
            match command_named(t) {
                Some(l) => parse_leaf(l, toks, 2),
                None => Err(CliFault::BadSubcommand(t)),
            }
        }
    }
}

// ---------------------------------------------------------------------------
// From what was read to the command
// ---------------------------------------------------------------------------

/// The single value of option `k`, or `d` when absent.
pub open spec fn value_or(m: ParseModel, k: int, d: Seq<char>) -> Seq<char> {
    match m.opts[k] {
        Some(vs) => vs[0],
        None => d,
    }
}

/// The values of list option `k` (none when absent).
pub open spec fn list_of(m: ParseModel, k: int) -> Seq<Seq<char>> {
    match m.opts[k] {
        Some(vs) => vs,
        None => Seq::empty(),
    }
}

/// Whether flag `k` was given.
pub open spec fn flag(m: ParseModel, k: int) -> bool {
    m.opts[k] is Some
}

/// The value of boolean option `k`, or `d` when absent.
pub open spec fn bool_or(m: ParseModel, k: int, d: bool) -> bool {
    match m.opts[k] {
        Some(vs) => vs[0] == "true"@,
        None => d,
    }
}

/// The value of numeric option `k`, or `d` when absent.
pub open spec fn num_or(m: ParseModel, k: int, d: nat) -> nat {
    match m.opts[k] {
        Some(vs) => digits_value(vs[0]),
        None => d,
    }
}

/// The optional positional argument.
pub open spec fn opt_pos(m: ParseModel) -> Option<Seq<char>> {
    if m.pos.len() > 0 {
        Some(m.pos[0])
    } else {
        None
    }
}

/// Views of a list of strings.
pub open spec fn string_views(v: Seq<String>) -> Seq<Seq<char>> {
    v.map_values(|s: String| s@)
}

/// The view of an optional string.
pub open spec fn opt_view(o: Option<String>) -> Option<Seq<char>> {
    match o {
        Some(s) => Some(s@),
        None => None,
    }
}

/// Whether `c` is the command that `l` with what was read `m` describes.
pub open spec fn command_fits(c: Command, l: Leaf, m: ParseModel) -> bool {
    match c {
        Command::Init => l == Leaf::Init,
        Command::Add(a) => l == Leaf::Add && a.title@ == m.pos[0] && a.priority@ == value_or(
            m,
            0,
            "medium"@,
        ) && string_views(a.affects@) == list_of(m, 1) && string_views(a.affects_globs@) == list_of(
            m,
            2,
        ) && string_views(a.must_not_touch@) == list_of(m, 3) && string_views(a.depends_on@)
            == list_of(m, 4) && string_views(a.tags@) == list_of(m, 5),
        Command::Status => l == Leaf::Status,
        Command::Show(a) => l == Leaf::Show && a.task_id@ == m.pos[0],
        Command::Claim(a) => l == Leaf::Claim && opt_view(a.task_id) == opt_pos(m),
        Command::Submit(a) => l == Leaf::Submit && opt_view(a.task_id) == opt_pos(m),
        Command::Validate(a) => l == Leaf::Validate && a.task_id@ == m.pos[0],
        Command::Approve(a) => l == Leaf::Approve && a.task_id@ == m.pos[0],
        Command::Reject(a) => l == Leaf::Reject && a.task_id@ == m.pos[0] && a.reason@ == value_or(
            m,
            0,
            Seq::empty(),
        ),
        Command::Worktree(a) => l == Leaf::Worktree && a.task_id@ == m.pos[0],
        Command::Lock(lc) => match lc.action {
            LockAction::List => l == Leaf::LockList,
            LockAction::Clear(a) => l == Leaf::LockClear && a.lock_id@ == m.pos[0] && a.force == flag(
                m,
                0,
            ),
        },
        Command::Doctor(a) => l == Leaf::Doctor && a.repair == flag(m, 0) && a.force == flag(m, 1),
        Command::Clean(a) => l == Leaf::Clean && a.completed == flag(m, 0) && a.orphans == flag(m, 1)
            && a.yes == flag(m, 2),
        Command::Watch(a) => l == Leaf::Watch && a.interval_ms == num_or(m, 0, 2000) && a.claim
            == bool_or(m, 1, true) && a.qa == bool_or(m, 2, true) && a.approve == flag(m, 3)
            && a.dispatch == flag(m, 4) && a.once == flag(m, 5),
        Command::Monitor(a) => l == Leaf::Monitor && a.interval_ms == num_or(m, 0, 1000) && a.once
            == flag(m, 1) && a.clear == bool_or(m, 2, true) && a.limit == num_or(m, 3, 20) && a.tail
            == num_or(m, 4, 10),
        Command::Agent(ac) => match ac.action {
            AgentAction::Run(a) => l == Leaf::AgentRun && a.task_id@ == m.pos[0] && opt_view(a.agent)
                == (match m.opts[0] {
                Some(vs) => Some(vs[0]),
                None => None,
            }) && a.dry_run == flag(m, 1),
            AgentAction::List => l == Leaf::AgentList,
        },
    }
}

// ---------------------------------------------------------------------------
// Reading the arguments
// ---------------------------------------------------------------------------

/// The number of options of a command.
fn opt_count(l: Leaf) -> (r: usize)
    ensures
        r == n_opts(l),
{
    match l {
        Leaf::Add => 6,
        Leaf::Reject => 1,
        Leaf::LockClear => 1,
        Leaf::Doctor => 2,
        Leaf::Clean => 3,
        Leaf::Watch => 6,
        Leaf::Monitor => 5,
        Leaf::AgentRun => 2,
        _ => 0,
    }
}

/// Option `k` of a command.
fn opt_entry(l: Leaf, k: usize) -> (r: (&'static str, Option<char>, OptKind))
    ensures
        r.0@ == opt_spec(l, k as int).0,
        r.1 == opt_spec(l, k as int).1,
        r.2 == opt_spec(l, k as int).2,
{
    let none: (&'static str, Option<char>, OptKind) = ("", None, OptKind::Flag);
    proof {
        reveal_strlit("");
    }
    match l {
        Leaf::Add => if k == 0 {
            ("priority", Some('p'), OptKind::Value)
        } else if k == 1 {
            ("affects", None, OptKind::List)
        } else if k == 2 {
            ("affects-globs", None, OptKind::List)
        } else if k == 3 {
            ("must-not-touch", None, OptKind::List)
        } else if k == 4 {
            ("depends-on", None, OptKind::List)
        } else if k == 5 {
            ("tags", None, OptKind::List)
        } else {
            none
        },
        Leaf::Reject => if k == 0 {
            ("reason", Some('r'), OptKind::Value)
        } else {
            none
        },
        Leaf::LockClear => if k == 0 {
            ("force", None, OptKind::Flag)
        } else {
            none
        },
        Leaf::Doctor => if k == 0 {
            ("repair", None, OptKind::Flag)
        } else if k == 1 {
            ("force", None, OptKind::Flag)
        } else {
            none
        },
        Leaf::Clean => if k == 0 {
            ("completed", None, OptKind::Flag)
        } else if k == 1 {
            ("orphans", None, OptKind::Flag)
        } else if k == 2 {
            ("yes", None, OptKind::Flag)
        } else {
            none
        },
        Leaf::Watch => if k == 0 {
            ("interval-ms", None, OptKind::U64)
        } else if k == 1 {
            ("claim", None, OptKind::Bool)
        } else if k == 2 {
            ("qa", None, OptKind::Bool)
        } else if k == 3 {
            ("approve", None, OptKind::Flag)
        } else if k == 4 {
            ("dispatch", None, OptKind::Flag)
        } else if k == 5 {
            ("once", None, OptKind::Flag)
        } else {
            none
        },
        Leaf::Monitor => if k == 0 {
            ("interval-ms", None, OptKind::U64)
        } else if k == 1 {
            ("once", None, OptKind::Flag)
        } else if k == 2 {
            ("clear", None, OptKind::Bool)
        } else if k == 3 {
            ("limit", None, OptKind::Usize)
        } else if k == 4 {
            ("tail", None, OptKind::Usize)
        } else {
            none
        },
        Leaf::AgentRun => if k == 0 {
            ("agent", None, OptKind::Value)
        } else if k == 1 {
            ("dry-run", None, OptKind::Flag)
        } else {
            none
        },
        _ => none,
    }
}

/// The option of `l` with long name `name`.
fn long_option(l: Leaf, name: &Vec<char>) -> (r: Option<usize>)
    ensures
        r matches Some(k) ==> k < n_opts(l),
        find_long(l, name@, 0) == match r {
            Some(k) => Some(k as int),
            None => None::<int>,
        },
{
    let n = opt_count(l);
    let mut k: usize = 0;
    while k < n
        invariant
            n == n_opts(l),
            k <= n,
            find_long(l, name@, 0) == find_long(l, name@, k as int),
        decreases n - k,
    {
        let (long, _, _) = opt_entry(l, k);
        let lc = chars_of(long);
        if chars_eq(&lc, name) {
            return Some(k);
        }
        k = k + 1;
    }
    None
}

/// The option of `l` with short letter `c`.
fn short_option(l: Leaf, c: char) -> (r: Option<usize>)
    ensures
        r matches Some(k) ==> k < n_opts(l),
        find_short(l, c, 0) == match r {
            Some(k) => Some(k as int),
            None => None::<int>,
        },
{
    let n = opt_count(l);
    let mut k: usize = 0;
    while k < n
        invariant
            n == n_opts(l),
            k <= n,
            find_short(l, c, 0) == find_short(l, c, k as int),
        decreases n - k,
    {
        let (_, short, _) = opt_entry(l, k);
        if short == Some(c) {
            return Some(k);
        }
        k = k + 1;
    }
    None
}

/// Character views of a list of character vectors.
pub open spec fn list_views(v: Seq<Vec<char>>) -> Seq<Seq<char>> {
    v.map_values(|x: Vec<char>| x@)
}

/// Views of the options read so far.
pub open spec fn opts_views(o: Seq<Option<Vec<Vec<char>>>>) -> Seq<Option<Seq<Seq<char>>>> {
    o.map_values(
        |e: Option<Vec<Vec<char>>>|
            match e {
                Some(v) => Some(list_views(v@)),
                None => None,
            },
    )
}

/// What has been read of a command's arguments.
struct Matches {
    pos: Vec<Vec<char>>,
    opts: Vec<Option<Vec<Vec<char>>>>,
    escaped: bool,
}

impl Matches {
    spec fn model(&self) -> ParseModel {
        ParseModel { pos: list_views(self.pos@), opts: opts_views(self.opts@), escaped: self.escaped }
    }
}

/// A copy of a list of character vectors.
fn copy_list(v: &Vec<Vec<char>>) -> (r: Vec<Vec<char>>)
    ensures
        list_views(r@) == list_views(v@),
{
    let mut r: Vec<Vec<char>> = Vec::new();
    let mut i: usize = 0;
    while i < v.len()
        invariant
            i <= v@.len(),
            list_views(r@) == list_views(v@).take(i as int),
        decreases v@.len() - i,
    {
        let c = slice_chars(&v[i], 0, v[i].len());
        assert(c@ =~= v@[i as int]@);
        let ghost before = r@;
        r.push(c);
        assert(r@ == before.push(c));
        assert(list_views(r@) =~= list_views(before) + seq![c@]);
        assert(list_views(v@).take(i + 1) =~= list_views(v@).take(i as int) + seq![v@[i as int]@]);
        i = i + 1;
    }
    assert(list_views(v@).take(v@.len() as int) =~= list_views(v@));
    r
}

/// Splits `s` at every `c`.
fn split_at_char(s: &Vec<char>, c: char) -> (r: Vec<Vec<char>>)
    ensures
        list_views(r@) == split_from(s@, c, 0),
{
    let mut r: Vec<Vec<char>> = Vec::new();
    let mut i: usize = 0;
    loop
        invariant
            i <= s@.len(),
            split_from(s@, c, 0) == list_views(r@) + split_from(s@, c, i as int),
        decreases s@.len() - i,
    {
        let mut j: usize = i;
        while j < s.len() && s[j] != c
            invariant
                i <= j <= s@.len(),
                first_at(s@, c, i as int) == first_at(s@, c, j as int),
            decreases s@.len() - j,
        {
            j = j + 1;
        }
        let piece = slice_chars(s, i, j);
        let ghost before = r@;
        r.push(piece);
        assert(r@ == before.push(piece));
        assert(list_views(r@) =~= list_views(before) + seq![piece@]);
        if j == s.len() {
            assert(first_at(s@, c, j as int) == s@.len());
            assert(list_views(before) + split_from(s@, c, i as int) =~= list_views(r@));
            return r;
        }
        assert(first_at(s@, c, j as int) == j);
        assert(list_views(before) + split_from(s@, c, i as int) =~= list_views(r@) + split_from(
            s@,
            c,
            j + 1,
        ));
        i = j + 1;
    }
}

/// The number written by a run of digits, if it fits in `bound`.
fn digits_upto(v: &Vec<char>, bound: u64) -> (r: Option<u64>)
    ensures
        match r {
            Some(n) => all_digits(v@) && digits_value(v@) == n && n <= bound,
            None => !(all_digits(v@) && digits_value(v@) <= bound),
        },
{
    if v.len() == 0 {
        return None;
    }
    let mut n: u64 = 0;
    let mut i: usize = 0;
    while i < v.len()
        invariant
            i <= v@.len(),
            v@.len() > 0,
            forall|k: int| 0 <= k < i ==> '0' <= #[trigger] v@[k] <= '9',
            n == digits_value(v@.take(i as int)),
            n <= bound,
        decreases v@.len() - i,
    {
        let c = v[i];
        assert(v@.take(i + 1).drop_last() =~= v@.take(i as int));
        if c < '0' || c > '9' {
            return None;
        }
        let d = (c as u32 - '0' as u32) as u64;
        let next = match n.checked_mul(10) {
            Some(x) => x.checked_add(d),
            None => None,
        };
        match next {
            Some(y) => {
                if y > bound {
                    proof {
                        lemma_digits_grow(v@, i as int);
                    }
                    return None;
                }
                n = y;
            },
            None => {
                proof {
                    lemma_digits_grow(v@, i as int);
                }
                return None;
            },
        }
        i = i + 1;
    }
    assert(v@.take(v@.len() as int) =~= v@);
    Some(n)
}

proof fn lemma_digits_grow(v: Seq<char>, i: int)
    requires
        0 <= i < v.len(),
    ensures
        all_digits(v) ==> digits_value(v) >= digits_value(v.take(i + 1)),
    decreases v.len() - i,
{
    if all_digits(v) {
        lemma_digits_prefix(v, i + 1);
    }
}

proof fn lemma_digits_prefix(v: Seq<char>, j: int)
    requires
        0 <= j <= v.len(),
    ensures
        digits_value(v) >= digits_value(v.take(j)),
    decreases v.len() - j,
{
    if j < v.len() {
        lemma_digits_prefix(v, j + 1);
        assert(v.take(j + 1).drop_last() =~= v.take(j));
    } else {
        assert(v.take(j) =~= v);
    }
}

/// Whether `v` is a valid value for an option of kind `kind`.
fn value_ok(kind: OptKind, v: &Vec<char>) -> (r: bool)
    ensures
        r == valid_value(kind, v@),
{
    match kind {
        OptKind::Bool => {
            let t = chars_of("true");
            let f = chars_of("false");
            chars_eq(v, &t) || chars_eq(v, &f)
        },
        OptKind::U64 => digits_upto(v, u64::MAX).is_some(),
        OptKind::Usize => digits_upto(v, usize::MAX as u64).is_some(),
        _ => true,
    }
}

impl Matches {
    spec fn wf(&self, l: Leaf) -> bool {
        self.opts@.len() == n_opts(l)
    }

    /// Option `k`, shown as `shown`, receives the value `v`.
    fn give(&mut self, l: Leaf, k: usize, shown: &Vec<char>, v: &Vec<char>) -> (r: Result<(), CliError>)
        requires
            old(self).wf(l),
            k < n_opts(l),
        ensures
            final(self).wf(l),
            match give_value(l, old(self).model(), k as int, shown@, v@) {
                Ok(m2) => r is Ok && final(self).model() == m2,
                Err(e) => r matches Err(err) && err.fault() == e,
            },
    {
        let (_, _, kind) = opt_entry(l, k);
        let ghost m = self.model();
        if kind == OptKind::List {
            let mut cur: Vec<Vec<char>> = match &self.opts[k] {
                Some(vs) => copy_list(vs),
                None => Vec::new(),
            };
            let pieces = split_at_char(v, ',');
            let ghost start = list_views(cur@);
            let mut j: usize = 0;
            while j < pieces.len()
                invariant
                    j <= pieces@.len(),
                    list_views(cur@) == start + list_views(pieces@).take(j as int),
                decreases pieces@.len() - j,
            {
                let c = slice_chars(&pieces[j], 0, pieces[j].len());
                assert(c@ =~= pieces@[j as int]@);
                let ghost before = cur@;
                cur.push(c);
                assert(cur@ == before.push(c));
                assert(list_views(cur@) =~= list_views(before) + seq![c@]);
                assert(list_views(pieces@).take(j + 1) =~= list_views(pieces@).take(j as int) + seq![
                    pieces@[j as int]@,
                ]);
                j = j + 1;
            }
            assert(list_views(pieces@).take(pieces@.len() as int) =~= list_views(pieces@));
            let ghost newv = cur@;
            self.opts.set(k, Some(cur));
            assert(self.model() =~= ParseModel {
                opts: m.opts.update(k as int, Some(start + split_from(v@, ',', 0))),
                ..m
            }) by {
                assert(opts_views(self.opts@) =~= m.opts.update(
                    k as int,
                    Some(start + split_from(v@, ',', 0)),
                ));
            }
            return Ok(());
        }
        if self.opts[k].is_some() {
            return Err(CliError::ArgumentConflict(string_from_chars(shown)));
        }
        if !value_ok(kind, v) {
            return Err(CliError::InvalidValue(string_from_chars(shown), string_from_chars(v)));
        }
        let mut one: Vec<Vec<char>> = Vec::new();
        let c = slice_chars(v, 0, v.len());
        assert(c@ =~= v@);
        one.push(c);
        assert(list_views(one@) =~= seq![v@]);
        self.opts.set(k, Some(one));
        assert(self.model() =~= ParseModel { opts: m.opts.update(k as int, Some(seq![v@])), ..m }) by {
            assert(opts_views(self.opts@) =~= m.opts.update(k as int, Some(seq![v@])));
        }
        Ok(())
    }

    /// Option `k`, shown as `shown`, given with the attached value `attached`
    /// and followed by `next`: whether `next` was taken as its value.
    fn read_option(
        &mut self,
        l: Leaf,
        k: usize,
        shown: &Vec<char>,
        attached: Option<Vec<char>>,
        next: Option<&Vec<char>>,
    ) -> (r: Result<bool, CliError>)
        requires
            old(self).wf(l),
            k < n_opts(l),
        ensures
            final(self).wf(l),
            match read_option(
                l,
                old(self).model(),
                k as int,
                shown@,
                match attached {
                    Some(a) => Some(a@),
                    None => None,
                },
                match next {
                    Some(n) => Some(n@),
                    None => None,
                },
            ) {
                Ok((m2, took)) => r == Ok::<bool, CliError>(took) && final(self).model() == m2,
                Err(e) => r matches Err(err) && err.fault() == e,
            },
    {
        let (_, _, kind) = opt_entry(l, k);
        let ghost m = self.model();
        if kind == OptKind::Flag {
            match attached {
                Some(v) => {
                    return Err(
                        CliError::UnexpectedValue(string_from_chars(shown), string_from_chars(&v)),
                    );
                },
                None => {
                    if self.opts[k].is_some() {
                        return Err(CliError::ArgumentConflict(string_from_chars(shown)));
                    }
                    let e: Vec<Vec<char>> = Vec::new();
                    assert(list_views(e@) =~= Seq::<Seq<char>>::empty());
                    self.opts.set(k, Some(e));
                    assert(self.model() =~= ParseModel {
                        opts: m.opts.update(k as int, Some(Seq::empty())),
                        ..m
                    }) by {
                        assert(opts_views(self.opts@) =~= m.opts.update(k as int, Some(Seq::empty())));
                    }
                    return Ok(false);
                },
            }
        }
        match attached {
            Some(v) => {
                self.give(l, k, shown, &v)?;
                Ok(false)
            },
            None => match next {
                Some(n) => {
                    if !(n.len() > 1 && n[0] == '-') {
                        self.give(l, k, shown, n)?;
                        Ok(true)
                    } else {
                        Err(CliError::MissingValue(string_from_chars(shown)))
                    }
                },
                None => Err(CliError::MissingValue(string_from_chars(shown))),
            },
        }
    }
}

/// Number of positional arguments a command takes, and how many are required.
fn pos_limits(l: Leaf) -> (r: (usize, usize))
    ensures
        r.0 == n_pos(l).0,
        r.1 == n_pos(l).1,
{
    match l {
        Leaf::Add | Leaf::Show | Leaf::Validate | Leaf::Approve | Leaf::Reject | Leaf::Worktree
        | Leaf::LockClear | Leaf::AgentRun => (1, 1),
        Leaf::Claim | Leaf::Submit => (1, 0),
        _ => (0, 0),
    }
}

/// Index of the first `c` at or after `i` in `s`, or the length.
fn find_char(s: &Vec<char>, c: char, i: usize) -> (r: usize)
    requires
        i <= s@.len(),
    ensures
        r == first_at(s@, c, i as int),
        i <= r <= s@.len(),
{
    let mut j: usize = i;
    while j < s.len() && s[j] != c
        invariant
            i <= j <= s@.len(),
            first_at(s@, c, i as int) == first_at(s@, c, j as int),
        decreases s@.len() - j,
    {
        j = j + 1;
    }
    j
}

/// `--` followed by `name`.
fn dashed(name: &Vec<char>) -> (r: Vec<char>)
    ensures
        r@ == "--"@ + name@,
{
    let mut out = chars_of("--");
    crate::text::push_all(&mut out, name);
    out
}

impl Matches {
    /// Reads argument `i`: whether the argument after it was taken as a value.
    fn read_arg(&mut self, l: Leaf, toks: &Vec<Vec<char>>, i: usize) -> (r: Result<bool, CliError>)
        requires
            old(self).wf(l),
            i < toks@.len(),
        ensures
            final(self).wf(l),
            match read_arg(
                l,
                old(self).model(),
                toks@[i as int]@,
                if i + 1 < toks@.len() {
                    Some(toks@[i + 1]@)
                } else {
                    None
                },
            ) {
                Ok((m2, took)) => r == Ok::<bool, CliError>(took) && final(self).model() == m2,
                Err(e) => r matches Err(err) && err.fault() == e,
            },
    {
        let t = &toks[i];
        let next: Option<&Vec<char>> = if i < toks.len() - 1 {
            Some(&toks[i + 1])
        } else {
            None
        };
        let ghost m = self.model();
        let dd = chars_of("--");
        if !self.escaped && chars_eq(t, &dd) {
            self.escaped = true;
            assert(self.model() =~= ParseModel { escaped: true, ..m });
            return Ok(false);
        }
        if !self.escaped && t.len() > 2 && t[0] == '-' && t[1] == '-' {
            let body = slice_chars(t, 2, t.len());
            assert(body@ =~= t@.skip(2));
            let eq = find_char(&body, '=', 0);
            let name = slice_chars(&body, 0, eq);
            assert(name@ =~= body@.take(eq as int));
            let attached: Option<Vec<char>> = if eq < body.len() {
                let a = slice_chars(&body, eq + 1, body.len());
                assert(a@ =~= body@.skip(eq + 1));
                Some(a)
            } else {
                None
            };
            let help = chars_of("help");
            let version = chars_of("version");
            if chars_eq(&name, &help) {
                return Err(CliError::DisplayHelp);
            }
            if chars_eq(&name, &version) {
                return Err(CliError::DisplayVersion);
            }
            let shown = dashed(&name);
            match long_option(l, &name) {
                None => {
                    return Err(CliError::UnknownArgument(string_from_chars(&shown)));
                },
                Some(k) => {
                    let ghost sa = match &attached {
                        Some(a) => Some(a@),
                        None => None,
                    };
                    let ghost sn = match next {
                        Some(n) => Some(n@),
                        None => None,
                    };
                    assert(sa == (if eq < body@.len() { Some(body@.skip(eq + 1)) } else { None::<Seq<char>> }));
                    assert(sn == (if i + 1 < toks@.len() { Some(toks@[i + 1]@) } else { None::<Seq<char>> }));
                    let r = self.read_option(l, k, &shown, attached, next);
                    assert(read_arg(l, m, t@, sn) == read_option(l, m, k as int, "--"@ + name@, sa, sn));
                    return r;
                },
            }
        }
        if !self.escaped && t.len() > 1 && t[0] == '-' {
            let c = t[1];
            if c == 'h' {
                return Err(CliError::DisplayHelp);
            }
            if c == 'V' {
                return Err(CliError::DisplayVersion);
            }
            match short_option(l, c) {
                None => {
                    return Err(CliError::UnknownArgument(string_from_chars(t)));
                },
                Some(k) => {
                    let rest = slice_chars(t, 2, t.len());
                    assert(rest@ =~= t@.skip(2));
                    let attached: Option<Vec<char>> = if rest.len() == 0 {
                        None
                    } else if rest[0] == '=' {
                        let a = slice_chars(&rest, 1, rest.len());
                        assert(a@ =~= rest@.skip(1));
                        Some(a)
                    } else {
                        Some(rest)
                    };
                    let (long, _, _) = opt_entry(l, k);
                    let lc = chars_of(long);
                    let shown = dashed(&lc);
                    return self.read_option(l, k, &shown, attached, next);
                },
            }
        }
        let (max_pos, _) = pos_limits(l);
        if self.pos.len() < max_pos {
            let p = slice_chars(t, 0, t.len());
            assert(p@ =~= t@);
            let ghost before = self.pos@;
            self.pos.push(p);
            assert(self.pos@ == before.push(p));
            assert(self.model() =~= ParseModel { pos: m.pos.push(t@), ..m }) by {
                assert(list_views(self.pos@) =~= list_views(before).push(p@));
            }
            return Ok(false);
        }
        Err(CliError::UnexpectedArgument(string_from_chars(t)))
    }
}

/// Whether what was read of command `l` is consistent: a value read for each
/// single-valued option given, none for flags, no more positionals than allowed.
pub open spec fn model_ok(l: Leaf, m: ParseModel) -> bool {
    &&& m.opts.len() == n_opts(l)
    &&& m.pos.len() <= n_pos(l).0
    &&& forall|k: int|
        0 <= k < n_opts(l) ==> match #[trigger] m.opts[k] {
            Some(vs) => if opt_spec(l, k).2 == OptKind::Flag {
                vs.len() == 0
            } else if opt_spec(l, k).2 == OptKind::List {
                true
            } else {
                vs.len() == 1 && valid_value(opt_spec(l, k).2, vs[0])
            },
            None => true,
        }
}

proof fn lemma_find_long_range(l: Leaf, name: Seq<char>, j: int)
    requires
        0 <= j,
    ensures
        find_long(l, name, j) matches Some(k) ==> j <= k < n_opts(l) && opt_spec(l, k).0 == name,
    decreases n_opts(l) - j,
{
    if j < n_opts(l) && opt_spec(l, j).0 != name {
        lemma_find_long_range(l, name, j + 1);
    }
}

proof fn lemma_find_short_range(l: Leaf, c: char, j: int)
    requires
        0 <= j,
    ensures
        find_short(l, c, j) matches Some(k) ==> j <= k < n_opts(l),
    decreases n_opts(l) - j,
{
    if j < n_opts(l) && opt_spec(l, j).1 != Some(c) {
        lemma_find_short_range(l, c, j + 1);
    }
}

proof fn lemma_give_ok(l: Leaf, m: ParseModel, k: int, shown: Seq<char>, v: Seq<char>)
    requires
        model_ok(l, m),
        0 <= k < n_opts(l),
        opt_spec(l, k).2 != OptKind::Flag,
    ensures
        give_value(l, m, k, shown, v) matches Ok(m2) ==> model_ok(l, m2),
{
    if let Ok(m2) = give_value(l, m, k, shown, v) {
        assert forall|j: int| 0 <= j < n_opts(l) implies match #[trigger] m2.opts[j] {
            Some(vs) => if opt_spec(l, j).2 == OptKind::Flag {
                vs.len() == 0
            } else if opt_spec(l, j).2 == OptKind::List {
                true
            } else {
                vs.len() == 1 && valid_value(opt_spec(l, j).2, vs[0])
            },
            None => true,
        } by {
            if j != k {
                assert(m2.opts[j] == m.opts[j]);
            }
        }
    }
}

proof fn lemma_read_option_ok(
    l: Leaf,
    m: ParseModel,
    k: int,
    shown: Seq<char>,
    attached: Option<Seq<char>>,
    next: Option<Seq<char>>,
)
    requires
        model_ok(l, m),
        0 <= k < n_opts(l),
    ensures
        read_option(l, m, k, shown, attached, next) matches Ok((m2, _)) ==> model_ok(l, m2),
{
    if opt_spec(l, k).2 == OptKind::Flag {
        if let Ok((m2, _)) = read_option(l, m, k, shown, attached, next) {
            assert forall|j: int| 0 <= j < n_opts(l) implies match #[trigger] m2.opts[j] {
                Some(vs) => if opt_spec(l, j).2 == OptKind::Flag {
                    vs.len() == 0
                } else if opt_spec(l, j).2 == OptKind::List {
                    true
                } else {
                    vs.len() == 1 && valid_value(opt_spec(l, j).2, vs[0])
                },
                None => true,
            } by {
                if j != k {
                    assert(m2.opts[j] == m.opts[j]);
                }
            }
        }
    } else {
        match attached {
            Some(v) => lemma_give_ok(l, m, k, shown, v),
            None => match next {
                Some(n) => lemma_give_ok(l, m, k, shown, n),
                None => {},
            },
        }
    }
}

proof fn lemma_read_arg_ok(l: Leaf, m: ParseModel, t: Seq<char>, next: Option<Seq<char>>)
    requires
        model_ok(l, m),
    ensures
        read_arg(l, m, t, next) matches Ok((m2, _)) ==> model_ok(l, m2),
{
    if !m.escaped && t == "--"@ {
    } else if !m.escaped && t.len() > 2 && t[0] == '-' && t[1] == '-' {
        let body = t.skip(2);
        let eq = first_at(body, '=', 0);
        let name = body.take(eq);
        let attached = if eq < body.len() { Some(body.skip(eq + 1)) } else { None };
        lemma_find_long_range(l, name, 0);
        if let Some(k) = find_long(l, name, 0) {
            lemma_read_option_ok(l, m, k, "--"@ + name, attached, next);
        }
    } else if !m.escaped && t.len() > 1 && t[0] == '-' {
        let c = t[1];
        let rest = t.skip(2);
        lemma_find_short_range(l, c, 0);
        if let Some(k) = find_short(l, c, 0) {
            let attached = if rest.len() == 0 {
                None
            } else if rest[0] == '=' {
                Some(rest.skip(1))
            } else {
                Some(rest)
            };
            lemma_read_option_ok(l, m, k, "--"@ + opt_spec(l, k).0, attached, next);
        }
    } else {
        if let Ok((m2, _)) = read_arg(l, m, t, next) {
            assert(m2.opts == m.opts);
        }
    }
}

/// The first arguments read by `l` from what is left.
fn no_options(l: Leaf) -> (r: Vec<Option<Vec<Vec<char>>>>)
    ensures
        r@.len() == n_opts(l),
        opts_views(r@) == empty_model(l).opts,
{
    let n = opt_count(l);
    let mut r: Vec<Option<Vec<Vec<char>>>> = Vec::new();
    let mut i: usize = 0;
    while i < n
        invariant
            n == n_opts(l),
            i <= n,
            r@.len() == i,
            forall|k: int| 0 <= k < i ==> r@[k] is None,
        decreases n - i,
    {
        r.push(None);
        i = i + 1;
    }
    assert(opts_views(r@) =~= empty_model(l).opts);
    r
}

/// Reads the arguments of command `l` from index `start` on.
fn read_all(l: Leaf, toks: &Vec<Vec<char>>, start: usize) -> (r: Result<Matches, CliError>)
    requires
        start <= toks@.len(),
    ensures
        match read_args(l, list_views(toks@), start as int, empty_model(l)) {
            Ok(m) => r matches Ok(mt) && mt.wf(l) && mt.model() == m && model_ok(l, m),
            Err(e) => r matches Err(err) && err.fault() == e,
        },
{
    let mut m = Matches { pos: Vec::new(), opts: no_options(l), escaped: false };
    let ghost tv = list_views(toks@);
    assert(m.model() =~= empty_model(l));
    let mut i: usize = start;
    while i < toks.len()
        invariant
            m.wf(l),
            tv == list_views(toks@),
            start <= i <= toks@.len(),
            model_ok(l, m.model()),
            read_args(l, tv, start as int, empty_model(l)) == read_args(l, tv, i as int, m.model()),
        decreases toks@.len() - i,
    {
        let ghost before = m.model();
        let ghost next = if i + 1 < toks@.len() {
            Some(tv[i + 1])
        } else {
            None
        };
        proof {
            lemma_read_arg_ok(l, before, tv[i as int], next);
        }
        let took = m.read_arg(l, toks, i)?;
        if took {
            i = i + 2;
        } else {
            i = i + 1;
        }
    }
    Ok(m)
}

/// The required arguments of `l` that were not given.
fn missing(l: Leaf, m: &Matches) -> (r: Vec<String>)
    requires
        m.wf(l),
    ensures
        r@.map_values(|s: String| s@) == missing_required(l, m.model()),
{
    let (_, required) = pos_limits(l);
    let mut r: Vec<String> = Vec::new();
    if required > m.pos.len() {
        let name = match l {
            Leaf::Add => "<TITLE>",
            Leaf::LockClear => "<LOCK_ID>",
            _ => "<TASK_ID>",
        };
        assert(name@ == pos_name(l));
        r.push(crate::text::owned(name));
    }
    let ghost first = r@.map_values(|s: String| s@);
    if l == Leaf::Reject && m.opts[0].is_none() {
        r.push(crate::text::owned("--reason <REASON>"));
        assert(r@.map_values(|s: String| s@) =~= first + seq!["--reason <REASON>"@]);
    } else {
        assert(r@.map_values(|s: String| s@) =~= first + Seq::<Seq<char>>::empty());
    }
    assert(list_views(m.pos@).len() == m.pos@.len());
    r
}

/// Reads all the arguments of command `l` from index `start` on.
fn read_leaf(l: Leaf, toks: &Vec<Vec<char>>, start: usize) -> (r: Result<Matches, CliError>)
    requires
        start <= toks@.len(),
    ensures
        match parse_leaf(l, list_views(toks@), start as int) {
            Ok((l2, m)) => r matches Ok(mt) && l2 == l && mt.wf(l) && mt.model() == m && model_ok(l, m)
                && missing_required(l, m).len() == 0,
            Err(e) => r matches Err(err) && err.fault() == e,
        },
{
    let m = read_all(l, toks, start)?;
    let miss = missing(l, &m);
    if miss.len() > 0 {
        return Err(CliError::MissingRequired(miss));
    }
    Ok(m)
}

impl Matches {
    /// The first positional argument.
    fn first_pos(&self) -> (r: String)
        requires
            self.pos@.len() > 0,
        ensures
            r@ == self.model().pos[0],
    {
        string_from_chars(&self.pos[0])
    }

    /// The optional positional argument.
    fn opt_first_pos(&self) -> (r: Option<String>)
        ensures
            opt_view(r) == opt_pos(self.model()),
    {
        if self.pos.len() > 0 {
            Some(string_from_chars(&self.pos[0]))
        } else {
            None
        }
    }

    /// The value of single-valued option `k`, if given.
    fn value(&self, l: Leaf, k: usize) -> (r: Option<String>)
        requires
            self.wf(l),
            model_ok(l, self.model()),
            k < n_opts(l),
            opt_spec(l, k as int).2 != OptKind::Flag,
            opt_spec(l, k as int).2 != OptKind::List,
        ensures
            opt_view(r) == match self.model().opts[k as int] {
                Some(vs) => Some(vs[0]),
                None => None,
            },
    {
        match &self.opts[k] {
            Some(vs) => {
                assert(self.model().opts[k as int] matches Some(x) && x.len() == 1);
                Some(string_from_chars(&vs[0]))
            },
            None => None,
        }
    }

    /// The value of option `k`, or `d` when absent.
    fn value_or(&self, l: Leaf, k: usize, d: &str) -> (r: String)
        requires
            self.wf(l),
            model_ok(l, self.model()),
            k < n_opts(l),
            opt_spec(l, k as int).2 != OptKind::Flag,
            opt_spec(l, k as int).2 != OptKind::List,
        ensures
            r@ == value_or(self.model(), k as int, d@),
    {
        match self.value(l, k) {
            Some(v) => v,
            None => crate::text::owned(d),
        }
    }

    /// The values of list option `k`.
    fn list(&self, k: usize) -> (r: Vec<String>)
        requires
            k < self.opts@.len(),
        ensures
            string_views(r@) == list_of(self.model(), k as int),
    {
        let mut r: Vec<String> = Vec::new();
        match &self.opts[k] {
            Some(vs) => {
                let mut i: usize = 0;
                while i < vs.len()
                    invariant
                        i <= vs@.len(),
                        string_views(r@) == list_views(vs@).take(i as int),
                    decreases vs@.len() - i,
                {
                    let ghost before = r@;
                    r.push(string_from_chars(&vs[i]));
                    assert(string_views(r@) =~= string_views(before) + seq![vs@[i as int]@]);
                    assert(list_views(vs@).take(i + 1) =~= list_views(vs@).take(i as int) + seq![
                        vs@[i as int]@,
                    ]);
                    i = i + 1;
                }
                assert(list_views(vs@).take(vs@.len() as int) =~= list_views(vs@));
            },
            None => {
                assert(string_views(r@) =~= Seq::<Seq<char>>::empty());
            },
        }
        r
    }

    /// Whether flag `k` was given.
    fn flag(&self, k: usize) -> (r: bool)
        requires
            k < self.opts@.len(),
        ensures
            r == flag(self.model(), k as int),
    {
        self.opts[k].is_some()
    }

    /// The value of boolean option `k`, or `d` when absent.
    fn bool_or(&self, l: Leaf, k: usize, d: bool) -> (r: bool)
        requires
            self.wf(l),
            model_ok(l, self.model()),
            k < n_opts(l),
            opt_spec(l, k as int).2 == OptKind::Bool,
        ensures
            r == bool_or(self.model(), k as int, d),
    {
        match &self.opts[k] {
            Some(vs) => {
                assert(self.model().opts[k as int] matches Some(x) && x.len() == 1);
                let t = chars_of("true");
                chars_eq(&vs[0], &t)
            },
            None => d,
        }
    }

    /// The value of numeric option `k`, or `d` when absent.
    fn num_or(&self, l: Leaf, k: usize, d: u64) -> (r: u64)
        requires
            self.wf(l),
            model_ok(l, self.model()),
            k < n_opts(l),
            opt_spec(l, k as int).2 == OptKind::U64 || opt_spec(l, k as int).2 == OptKind::Usize,
        ensures
            r == num_or(self.model(), k as int, d as nat),
            opt_spec(l, k as int).2 == OptKind::Usize && d <= usize::MAX ==> r <= usize::MAX,
    {
        match &self.opts[k] {
            Some(vs) => {
                assert(self.model().opts[k as int] matches Some(x) && x.len() == 1);
                let bound = if opt_entry(l, k).2 == OptKind::Usize {
                    usize::MAX as u64
                } else {
                    u64::MAX
                };
                match digits_upto(&vs[0], bound) {
                    Some(n) => n,
                    None => d,
                }
            },
            None => d,
        }
    }
}

/// Builds the command that `l` with what was read `m` describes.
fn build_command(l: Leaf, m: &Matches) -> (c: Command)
    requires
        m.wf(l),
        model_ok(l, m.model()),
        missing_required(l, m.model()).len() == 0,
    ensures
        command_fits(c, l, m.model()),
{
    match l {
        Leaf::Init => Command::Init,
        Leaf::Add => Command::Add(
            AddArgs {
                title: m.first_pos(),
                priority: m.value_or(l, 0, "medium"),
                affects: m.list(1),
                affects_globs: m.list(2),
                must_not_touch: m.list(3),
                depends_on: m.list(4),
                tags: m.list(5),
            },
        ),
        Leaf::Status => Command::Status,
        Leaf::Show => Command::Show(ShowArgs { task_id: m.first_pos() }),
        Leaf::Claim => Command::Claim(ClaimArgs { task_id: m.opt_first_pos() }),
        Leaf::Submit => Command::Submit(SubmitArgs { task_id: m.opt_first_pos() }),
        Leaf::Validate => Command::Validate(ValidateArgs { task_id: m.first_pos() }),
        Leaf::Approve => Command::Approve(ApproveArgs { task_id: m.first_pos() }),
        Leaf::Reject => {
            let reason = match m.value(l, 0) {
                Some(v) => v,
                None => String::new(),
            };
            Command::Reject(RejectArgs { task_id: m.first_pos(), reason })
        },
        Leaf::Worktree => Command::Worktree(WorktreeArgs { task_id: m.first_pos() }),
        Leaf::LockList => Command::Lock(LockCommand { action: LockAction::List }),
        Leaf::LockClear => Command::Lock(
            LockCommand {
                action: LockAction::Clear(LockClearArgs { lock_id: m.first_pos(), force: m.flag(0) }),
            },
        ),
        Leaf::Doctor => Command::Doctor(DoctorArgs { repair: m.flag(0), force: m.flag(1) }),
        Leaf::Clean => Command::Clean(
            CleanArgs { completed: m.flag(0), orphans: m.flag(1), yes: m.flag(2) },
        ),
        Leaf::Watch => Command::Watch(
            WatchArgs {
                interval_ms: m.num_or(l, 0, 2000),
                claim: m.bool_or(l, 1, true),
                qa: m.bool_or(l, 2, true),
                approve: m.flag(3),
                dispatch: m.flag(4),
                once: m.flag(5),
            },
        ),
        Leaf::Monitor => {
            let limit = m.num_or(l, 3, 20);
            let tail = m.num_or(l, 4, 10);
            Command::Monitor(
                MonitorArgs {
                    interval_ms: m.num_or(l, 0, 1000),
                    once: m.flag(1),
                    clear: m.bool_or(l, 2, true),
                    limit: limit as usize,
                    tail: tail as usize,
                },
            )
        },
        Leaf::AgentRun => Command::Agent(
            AgentCommand {
                action: AgentAction::Run(
                    AgentRunArgs { task_id: m.first_pos(), agent: m.value(l, 0), dry_run: m.flag(1) },
                ),
            },
        ),
        Leaf::AgentList => Command::Agent(AgentCommand { action: AgentAction::List }),
    }
}

/// Reads the action of `lock` or `agent` at index `i`, then its arguments.
fn read_action(toks: &Vec<Vec<char>>, i: usize, is_lock: bool) -> (r: Result<(Leaf, Matches), CliError>)
    requires
        i <= toks@.len(),
    ensures
        match parse_action(list_views(toks@), i as int, is_lock) {
            Ok((l, m)) => r matches Ok((l2, mt)) && l2 == l && mt.wf(l) && mt.model() == m && model_ok(l, m)
                && missing_required(l, m).len() == 0,
            Err(e) => r matches Err(err) && err.fault() == e,
        },
{
    if i >= toks.len() {
        return Err(CliError::MissingSubcommand);
    }
    let t = &toks[i];
    if asks_for_help(t) {
        return Err(CliError::DisplayHelp);
    }
    if asks_for_version(t) {
        return Err(CliError::DisplayVersion);
    }
    if t.len() > 1 && t[0] == '-' {
        return Err(CliError::UnknownArgument(string_from_chars(t)));
    }
    let list = chars_of("list");
    let l = if is_lock {
        let clear = chars_of("clear");
        if chars_eq(t, &list) {
            Leaf::LockList
        } else if chars_eq(t, &clear) {
            Leaf::LockClear
        } else {
            return Err(CliError::InvalidSubcommand(string_from_chars(t)));
        }
    } else {
        let run = chars_of("run");
        if chars_eq(t, &run) {
            Leaf::AgentRun
        } else if chars_eq(t, &list) {
            Leaf::AgentList
        } else {
            return Err(CliError::InvalidSubcommand(string_from_chars(t)));
        }
    };
    let m = read_leaf(l, toks, i + 1)?;
    Ok((l, m))
}

/// Whether `t` asks for help where a command is expected.
fn asks_for_help(t: &Vec<char>) -> (r: bool)
    ensures
        r == asks_help(t@),
{
    let a = chars_of("-h");
    let b = chars_of("--help");
    let c = chars_of("help");
    chars_eq(t, &a) || chars_eq(t, &b) || chars_eq(t, &c)
}

/// Whether `t` asks for the version where a command is expected.
fn asks_for_version(t: &Vec<char>) -> (r: bool)
    ensures
        r == asks_version(t@),
{
    let a = chars_of("-V");
    let b = chars_of("--version");
    chars_eq(t, &a) || chars_eq(t, &b)
}

/// The command named `t`, if it takes no action.
fn leaf_named(t: &Vec<char>) -> (r: Option<Leaf>)
    ensures
        r == command_named(t@),
{
    if chars_eq(t, &chars_of("init")) {
        Some(Leaf::Init)
    } else if chars_eq(t, &chars_of("add")) {
        Some(Leaf::Add)
    } else if chars_eq(t, &chars_of("status")) {
        Some(Leaf::Status)
    } else if chars_eq(t, &chars_of("show")) {
        Some(Leaf::Show)
    } else if chars_eq(t, &chars_of("claim")) {
        Some(Leaf::Claim)
    } else if chars_eq(t, &chars_of("submit")) {
        Some(Leaf::Submit)
    } else if chars_eq(t, &chars_of("validate")) {
        Some(Leaf::Validate)
    } else if chars_eq(t, &chars_of("approve")) {
        Some(Leaf::Approve)
    } else if chars_eq(t, &chars_of("reject")) {
        Some(Leaf::Reject)
    } else if chars_eq(t, &chars_of("worktree")) {
        Some(Leaf::Worktree)
    } else if chars_eq(t, &chars_of("doctor")) {
        Some(Leaf::Doctor)
    } else if chars_eq(t, &chars_of("clean")) {
        Some(Leaf::Clean)
    } else if chars_eq(t, &chars_of("watch")) {
        Some(Leaf::Watch)
    } else if chars_eq(t, &chars_of("monitor")) || chars_eq(t, &chars_of("visualizer")) || chars_eq(
        t,
        &chars_of("viz"),
    ) || chars_eq(t, &chars_of("dashboard")) {
        Some(Leaf::Monitor)
    } else {
        None
    }
}

impl Cli {
    /// Parses command-line arguments, the program name first.
    pub fn parse_args(args: &[&str]) -> (r: Result<Cli, CliError>)
        ensures
            match parse_cli(args@.map_values(|a: &str| a@)) {
                Ok((l, m)) => r matches Ok(cli) && command_fits(cli.command, l, m),
                Err(e) => r matches Err(err) && err.fault() == e,
            },
    {
        let mut toks: Vec<Vec<char>> = Vec::new();
        let mut i: usize = 0;
        while i < args.len()
            invariant
                i <= args@.len(),
                list_views(toks@) == args@.map_values(|a: &str| a@).take(i as int),
            decreases args@.len() - i,
        {
            let ghost before = toks@;
            let c = chars_of(args[i]);
            toks.push(c);
            assert(list_views(toks@) =~= list_views(before) + seq![args@[i as int]@]);
            assert(args@.map_values(|a: &str| a@).take(i + 1) =~= args@.map_values(|a: &str| a@).take(
                i as int,
            ) + seq![args@[i as int]@]);
            i = i + 1;
        }
        assert(args@.map_values(|a: &str| a@).take(args@.len() as int) =~= args@.map_values(
            |a: &str| a@,
        ));
        if toks.len() < 2 {
            return Err(CliError::MissingSubcommand);
        }
        let t = &toks[1];
        if asks_for_help(t) {
            return Err(CliError::DisplayHelp);
        }
        if asks_for_version(t) {
            return Err(CliError::DisplayVersion);
        }
        if t.len() > 1 && t[0] == '-' {
            return Err(CliError::UnknownArgument(string_from_chars(t)));
        }
        let (l, m) = if chars_eq(t, &chars_of("lock")) {
            read_action(&toks, 2, true)?
        } else if chars_eq(t, &chars_of("agent")) {
            read_action(&toks, 2, false)?
        } else {
            match leaf_named(t) {
                Some(l) => {
                    let m = read_leaf(l, &toks, 2)?;
                    (l, m)
                },
                None => {
                    return Err(CliError::InvalidSubcommand(string_from_chars(t)));
                },
            }
        };
        Ok(Cli { command: build_command(l, &m) })
    }
}

} // verus!
