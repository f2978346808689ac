//! Template engine for `{variable}` substitution.
//!
//! - `{name}` is replaced by the value of variable `name` (surrounding
//!   whitespace inside the braces is ignored);
//! - `{{` renders a literal `{`, `}}` renders a literal `}`;
//! - a lone `}` is an ordinary character.
//!
//! Rendering is fail-safe: an undefined variable is an error, never an empty
//! substitution. Error positions are byte offsets into the template.

use crate::strmap::StrMap;
use crate::text::{chars_of, decimal, is_ws, lemma_trim_idempotent, lemma_trim_unchanged, push_all, push_decimal, push_str, slice_chars, string_from_chars, trim, trim_chars};
use vstd::prelude::*;
use vstd::utf8::*;

verus! {

broadcast use vstd::string::group_string_axioms;

// ---------------------------------------------------------------------------
// Errors
// ---------------------------------------------------------------------------

/// Error type for template rendering failures.
#[derive(Debug, Clone, PartialEq, Eq)]
pub enum TemplateError {
    /// A variable was referenced but not provided.
    UndefinedVariable {
        /// The name of the undefined variable.
        name: String,
        /// Byte offset of the `{` that opened the reference.
        position: usize,
    },
    /// A `{` was found without a matching `}`.
    UnmatchedBrace {
        /// Byte offset of the unmatched `{`.
        position: usize,
    },
    /// An empty variable name was found (`{}`).
    EmptyVariableName {
        /// Byte offset of the `{`.
        position: usize,
    },
}

/// Mathematical form of a template failure.
pub enum TemplateFault {
    Undefined(Seq<char>, nat),
    Unmatched(nat),
    Empty(nat),
}

/// The human-readable message of a template failure.
pub open spec fn fault_message(f: TemplateFault) -> Seq<char> {
    match f {
        TemplateFault::Undefined(name, p) => "undefined variable '"@ + name + "' at position "@ + decimal(p)
            + " in template"@,
        TemplateFault::Unmatched(p) => "unmatched '{' at position "@ + decimal(p) + " in template"@,
        TemplateFault::Empty(p) => "empty variable name '{}' at position "@ + decimal(p) + " in template"@,
    }
}

impl TemplateError {
    /// The failure this error reports.
    pub open spec fn fault(&self) -> TemplateFault {
        match self {
            TemplateError::UndefinedVariable { name, position } => TemplateFault::Undefined(
                name@,
                *position as nat,
            ),
            TemplateError::UnmatchedBrace { position } => TemplateFault::Unmatched(
                *position as nat,
            ),
            TemplateError::EmptyVariableName { position } => TemplateFault::Empty(
                *position as nat,
            ),
        }
    }

    /// The human-readable message of this error.
    pub open spec fn spec_message(&self) -> Seq<char> {
        match self {
            TemplateError::UndefinedVariable { name, position } => "undefined variable '"@
                + name@ + "' at position "@ + decimal(*position as nat) + " in template"@,
            TemplateError::UnmatchedBrace { position } => "unmatched '{' at position "@ + decimal(
                *position as nat,
            ) + " in template"@,
            TemplateError::EmptyVariableName { position } => "empty variable name '{}' at position "@
                + decimal(*position as nat) + " in template"@,
        }
    }

    /// The human-readable message of this error (what `Display` printed).
    pub fn message(&self) -> (r: String)
        ensures
            r@ == self.spec_message(),
    {
        let mut out: Vec<char> = Vec::new();
        match self {
            TemplateError::UndefinedVariable { name, position } => {
                push_str(&mut out, "undefined variable '");
                push_str(&mut out, name.as_str());
                push_str(&mut out, "' at position ");
                push_decimal(&mut out, *position as u64);
                push_str(&mut out, " in template");
            },
            TemplateError::UnmatchedBrace { position } => {
                push_str(&mut out, "unmatched '{' at position ");
                push_decimal(&mut out, *position as u64);
                push_str(&mut out, " in template");
            },
            TemplateError::EmptyVariableName { position } => {
                push_str(&mut out, "empty variable name '{}' at position ");
                push_decimal(&mut out, *position as u64);
                push_str(&mut out, " in template");
            },
        }
        string_from_chars(&out)
    }
}

// ---------------------------------------------------------------------------
// Rendering
// ---------------------------------------------------------------------------

/// UTF-8 width of a character.
pub open spec fn utf8_width(c: char) -> nat {
    let v = c as u32;
    if v <= 0x7F {
        1
    } else if v <= 0x7FF {
        2
    } else if v <= 0xFFFF {
        3
    } else {
        4
    }
}

/// Number of UTF-8 bytes of a character sequence.
pub open spec fn utf8_len(s: Seq<char>) -> nat
    decreases s.len(),
{
    if s.len() == 0 {
        0
    } else {
        utf8_width(s[0]) + utf8_len(s.drop_first())
    }
}

/// Byte offset of character index `i` in `t`.
pub open spec fn byte_offset(t: Seq<char>, i: int) -> nat {
    utf8_len(t.take(i))
}

pub proof fn lemma_utf8_len_concat(a: Seq<char>, b: Seq<char>)
    ensures
        utf8_len(a + b) == utf8_len(a) + utf8_len(b),
    decreases a.len(),
{
    if a.len() > 0 {
        assert((a + b).drop_first() =~= a.drop_first() + b);
        lemma_utf8_len_concat(a.drop_first(), b);
    } else {
        assert(a + b =~= b);
    }
}

pub proof fn lemma_encode_len(s: Seq<char>)
    ensures
        encode_utf8(s).len() == utf8_len(s),
    decreases s.len(),
{
    if s.len() > 0 {
        let v = s[0] as u32;
        assert(is_scalar(v)) by {
            char_is_scalar(s[0]);
        }
        lemma_encode_len(s.drop_first());
    }
}

pub proof fn lemma_offset_step(t: Seq<char>, i: int)
    requires
        0 <= i < t.len(),
    ensures
        byte_offset(t, i + 1) == byte_offset(t, i) + utf8_width(t[i]),
        byte_offset(t, i + 1) <= utf8_len(t),
{
    assert(t.take(i + 1) =~= t.take(i) + seq![t[i]]);
    lemma_utf8_len_concat(t.take(i), seq![t[i]]);
    assert(seq![t[i]].drop_first() =~= Seq::<char>::empty());
    assert(utf8_len(seq![t[i]]) == utf8_width(t[i]) + utf8_len(Seq::<char>::empty()));
    assert(t =~= t.take(i + 1) + t.skip(i + 1));
    lemma_utf8_len_concat(t.take(i + 1), t.skip(i + 1));
}

/// Byte length of the UTF-8 encoding of `c`.
fn char_width(c: char) -> (r: usize)
    ensures
        r == utf8_width(c),
{
    let v = c as u32;
    if v <= 0x7F {
        1
    } else if v <= 0x7FF {
        2
    } else if v <= 0xFFFF {
        3
    } else {
        4
    }
}

proof fn lemma_offset_monotone(t: Seq<char>, j: int, k: int)
    requires
        0 <= j <= k <= t.len(),
    ensures
        byte_offset(t, j) <= byte_offset(t, k),
        j < k ==> byte_offset(t, j) < byte_offset(t, k),
    decreases k - j,
{
    if j < k {
        lemma_offset_step(t, k - 1);
        lemma_offset_monotone(t, j, k - 1);
    }
}

/// Whether byte offset `b` falls between two characters of `s`.
pub open spec fn char_boundary(s: Seq<char>, b: nat) -> bool {
    exists|k: int| 0 <= k <= s.len() && byte_offset(s, k) == b
}

/// The characters of `s` that fill its first `n` bytes (`n` a boundary between characters).
pub open spec fn prefix_at_byte(s: Seq<char>, n: nat) -> Seq<char> {
    s.take(choose|k: int| 0 <= k <= s.len() && byte_offset(s, k) == n)
}

/// The first `n` bytes of `s`, which must end between two characters (`&s[..n]`).
pub fn byte_prefix(s: &str, n: usize) -> (r: String)
    requires
        char_boundary(s@, n as nat),
    ensures
        r@ == prefix_at_byte(s@, n as nat),
{
    let t = chars_of(s);
    let mut i: usize = 0;
    let mut pos: usize = 0;
    assert(t@.take(0) =~= Seq::<char>::empty());
    while pos < n
        invariant
            t@ == s@,
            i <= t@.len(),
            pos == byte_offset(t@, i as int),
            pos <= n,
            char_boundary(t@, n as nat),
        decreases n - pos,
    {
        let ghost k = choose|k: int| 0 <= k <= t@.len() && byte_offset(t@, k) == n;
        if i == t.len() {
            proof {
                lemma_offset_monotone(t@, k, i as int);
            }
            assert(false);
        }
        proof {
            lemma_offset_step(t@, i as int);
        }
        let w = char_width(t[i]);
        proof {
            if pos + w > n {
                if k <= i {
                    lemma_offset_monotone(t@, k, i as int);
                } else {
                    lemma_offset_monotone(t@, i + 1, k);
                }
            }
        }
        pos = pos + w;
        i = i + 1;
    }
    proof {
        let k = choose|k: int| 0 <= k <= t@.len() && byte_offset(t@, k) == n;
        if k < i {
            lemma_offset_monotone(t@, k, i as int);
        } else if k > i {
            lemma_offset_monotone(t@, i as int, k);
        }
        assert(t@.subrange(0, i as int) =~= t@.take(i as int));
    }
    let head = slice_chars(&t, 0, i);
    string_from_chars(&head)
}

/// The characters of `s` after its first `n` bytes (`n` a boundary between characters).
pub open spec fn suffix_at_byte(s: Seq<char>, n: nat) -> Seq<char> {
    s.skip(choose|k: int| 0 <= k <= s.len() && byte_offset(s, k) == n)
}

/// `s` without its first `n` bytes, which must end between two characters (`&s[n..]`).
pub fn byte_suffix(s: &str, n: usize) -> (r: String)
    requires
        char_boundary(s@, n as nat),
    ensures
        r@ == suffix_at_byte(s@, n as nat),
{
    let t = chars_of(s);
    let mut i: usize = 0;
    let mut pos: usize = 0;
    assert(t@.take(0) =~= Seq::<char>::empty());
    while pos < n
        invariant
            t@ == s@,
            i <= t@.len(),
            pos == byte_offset(t@, i as int),
            pos <= n,
            char_boundary(t@, n as nat),
        decreases n - pos,
    {
        let ghost k = choose|k: int| 0 <= k <= t@.len() && byte_offset(t@, k) == n;
        if i == t.len() {
            proof {
                lemma_offset_monotone(t@, k, i as int);
            }
            assert(false);
        }
        proof {
            lemma_offset_step(t@, i as int);
        }
        let w = char_width(t[i]);
        proof {
            if pos + w > n {
                if k <= i {
                    lemma_offset_monotone(t@, k, i as int);
                } else {
                    lemma_offset_monotone(t@, i + 1, k);
                }
            }
        }
        pos = pos + w;
        i = i + 1;
    }
    proof {
        let k = choose|k: int| 0 <= k <= t@.len() && byte_offset(t@, k) == n;
        if k < i {
            lemma_offset_monotone(t@, k, i as int);
        } else if k > i {
            lemma_offset_monotone(t@, i as int, k);
        }
        assert(t@.subrange(i as int, t@.len() as int) =~= t@.skip(i as int));
    }
    let tail = slice_chars(&t, i, t.len());
    string_from_chars(&tail)
}

/// Index of the first `}` at or after `j` in `t`.
pub open spec fn close_index(t: Seq<char>, j: int) -> Option<int>
    decreases t.len() - j,
{
    if j < 0 || j >= t.len() {
        None
    } else if t[j] == '}' {
        Some(j)
    } else {
        close_index(t, j + 1)
    }
}

/// Prepends `prefix` to a successful rendering; errors pass through.
pub open spec fn prepend(prefix: Seq<char>, r: Result<Seq<char>, TemplateFault>) -> Result<
    Seq<char>,
    TemplateFault,
> {
    match r {
        Ok(s) => Ok(prefix + s),
        Err(e) => Err(e),
    }
}

/// What rendering `t` from character index `i` on produces.
pub open spec fn render_from(t: Seq<char>, vars: Map<Seq<char>, Seq<char>>, i: int) -> Result<
    Seq<char>,
    TemplateFault,
>
    decreases t.len() - i,
{
    if i < 0 || i >= t.len() {
        Ok(Seq::empty())
    } else if t[i] == '{' {
        if i + 1 < t.len() && t[i + 1] == '{' {
            prepend(seq!['{'], render_from(t, vars, i + 2))
        } else {
            match close_index(t, i + 1) {
                None => Err(TemplateFault::Unmatched(byte_offset(t, i))),
                Some(j) => {
                    if j <= i || j >= t.len() {
                        Err(TemplateFault::Unmatched(byte_offset(t, i)))
                    } else {
                        let raw = t.subrange(i + 1, j);
                        let name = trim(raw);
                        if raw.len() == 0 {
                            Err(TemplateFault::Empty(byte_offset(t, i)))
                        } else if vars.contains_key(name) {
                            prepend(vars[name], render_from(t, vars, j + 1))
                        } else {
                            Err(TemplateFault::Undefined(name, byte_offset(t, i)))
                        }
                    }
                },
            }
        }
    } else if t[i] == '}' {
        if i + 1 < t.len() && t[i + 1] == '}' {
            prepend(seq!['}'], render_from(t, vars, i + 2))
        } else {
            prepend(seq!['}'], render_from(t, vars, i + 1))
        }
    } else {
        prepend(seq![t[i]], render_from(t, vars, i + 1))
    }
}

/// What rendering the whole template produces.
pub open spec fn render(t: Seq<char>, vars: Map<Seq<char>, Seq<char>>) -> Result<
    Seq<char>,
    TemplateFault,
> {
    render_from(t, vars, 0)
}

proof fn lemma_prepend_assoc(a: Seq<char>, b: Seq<char>, r: Result<Seq<char>, TemplateFault>)
    ensures
        prepend(a, prepend(b, r)) == prepend(a + b, r),
{
    match r {
        Ok(s) => {
            assert(a + (b + s) =~= (a + b) + s);
        },
        Err(e) => {},
    }
}

proof fn lemma_close_index_range(t: Seq<char>, j: int)
    requires
        0 <= j,
    ensures
        close_index(t, j) matches Some(k) ==> j <= k < t.len() && t[k] == '}' && forall|m: int|
            j <= m < k ==> t[m] != '}',
    decreases t.len() - j,
{
    if j < t.len() && t[j] != '}' {
        lemma_close_index_range(t, j + 1);
    }
}

/// Renders a template string by substituting variables.
///
/// Returns the rendered string, or the first error met scanning left to right.
pub fn render_template(template: &str, variables: &StrMap) -> (r: Result<String, TemplateError>)
    requires
        variables.wf(),
    ensures
        match r {
            Ok(s) => render(template@, variables@) == Ok::<Seq<char>, TemplateFault>(s@),
            Err(e) => render(template@, variables@) == Err::<Seq<char>, TemplateFault>(e.fault()),
        },
{
    let t = chars_of(template);
    let nbytes = template.as_bytes().len();
    proof {
        lemma_encode_len(template@);
    }
    let mut out: Vec<char> = Vec::new();
    let tl = t.len();
    let mut i: usize = 0;
    let mut pos: usize = 0;
    assert(t@.take(0) =~= Seq::<char>::empty());
    while i < t.len()
        invariant
            t@ == template@,
            tl == t@.len(),
            variables.wf(),
            i <= t@.len(),
            utf8_len(t@) <= usize::MAX,
            pos == byte_offset(t@, i as int),
            render(t@, variables@) == prepend(out@, render_from(t@, variables@, i as int)),
        decreases t@.len() - i,
    {
        let c = t[i];
        let ghost out0 = out@;
        proof {
            lemma_offset_step(t@, i as int);
        }
        let w: usize = if (c as u32) <= 0x7F {
            1
        } else if (c as u32) <= 0x7FF {
            2
        } else if (c as u32) <= 0xFFFF {
            3
        } else {
            4
        };
        if c == '{' {
            if i + 1 < t.len() && t[i + 1] == '{' {
                proof {
                    lemma_prepend_assoc(out@, seq!['{'], render_from(t@, variables@, i + 2));
                    lemma_offset_step(t@, i + 1);
                }
                out.push('{');
                assert(out@ =~= out0 + seq!['{']);
                pos = pos + w + 1;
                i = i + 2;
            } else {
                let start_pos = pos;
                let mut j: usize = i + 1;
                while j < t.len() && t[j] != '}'
                    invariant
                        t@ == template@,
                        i < j <= t@.len(),
                        close_index(t@, i + 1) == close_index(t@, j as int),
                    decreases t@.len() - j,
                {
                    j = j + 1;
                }
                proof {
                    lemma_close_index_range(t@, i + 1);
                }
                if j >= t.len() {
                    return Err(TemplateError::UnmatchedBrace { position: start_pos });
                }
                let raw = slice_chars(&t, i + 1, j);
                if raw.len() == 0 {
                    return Err(TemplateError::EmptyVariableName { position: start_pos });
                }
                let name = trim_chars(&raw);
                match variables.lookup(&name) {
                    Some(value) => {
                        let vcs = chars_of(value.as_str());
                        assert(close_index(t@, j as int) == Some(j as int));
                        assert(render_from(t@, variables@, i as int) == prepend(
                            vcs@,
                            render_from(t@, variables@, j + 1),
                        ));
                        proof {
                            lemma_prepend_assoc(
                                out@,
                                vcs@,
                                render_from(t@, variables@, j + 1),
                            );
                        }
                        push_all(&mut out, &vcs);
                        let mut p = pos;
                        let mut k: usize = i;
                        while k <= j
                            invariant
                                t@ == template@,
                                tl == t@.len(),
                                i <= k <= j + 1,
                                j < t@.len(),
                                utf8_len(t@) <= usize::MAX,
                                p == byte_offset(t@, k as int),
                            decreases j + 1 - k,
                        {
                            let ck = t[k];
                            proof {
                                lemma_offset_step(t@, k as int);
                            }
                            let wk: usize = if (ck as u32) <= 0x7F {
                                1
                            } else if (ck as u32) <= 0x7FF {
                                2
                            } else if (ck as u32) <= 0xFFFF {
                                3
                            } else {
                                4
                            };
                            p = p + wk;
                            k = k + 1;
                        }
                        pos = p;
                        i = j + 1;
                    },
                    None => {
                        let n = string_from_chars(&name);
                        return Err(TemplateError::UndefinedVariable { name: n, position: start_pos });
                    },
                }
            }
        } else if c == '}' {
            if i + 1 < t.len() && t[i + 1] == '}' {
                proof {
                    lemma_prepend_assoc(out@, seq!['}'], render_from(t@, variables@, i + 2));
                    lemma_offset_step(t@, i + 1);
                }
                out.push('}');
                assert(out@ =~= out0 + seq!['}']);
                pos = pos + w + 1;
                i = i + 2;
            } else {
                proof {
                    lemma_prepend_assoc(out@, seq!['}'], render_from(t@, variables@, i + 1));
                }
                out.push('}');
                assert(out@ =~= out0 + seq!['}']);
                pos = pos + w;
                i = i + 1;
            }
        } else {
            proof {
                lemma_prepend_assoc(out@, seq![c], render_from(t@, variables@, i + 1));
            }
            out.push(c);
            assert(out@ =~= out0 + seq![c]);
            pos = pos + w;
            i = i + 1;
        }
    }
    assert(out@ + Seq::<char>::empty() =~= out@);
    Ok(string_from_chars(&out))
}

/// A template with no braces renders to itself, whatever the variables.
pub proof fn lemma_plain_template_renders_itself(t: Seq<char>, vars: Map<Seq<char>, Seq<char>>)
    requires
        forall|k: int| 0 <= k < t.len() ==> t[k] != '{' && t[k] != '}',
    ensures
        render(t, vars) == Ok::<Seq<char>, TemplateFault>(t),
{
    lemma_plain_from(t, vars, 0);
    assert(t.skip(0) =~= t);
}

proof fn lemma_plain_from(t: Seq<char>, vars: Map<Seq<char>, Seq<char>>, i: int)
    requires
        0 <= i <= t.len(),
        forall|k: int| 0 <= k < t.len() ==> t[k] != '{' && t[k] != '}',
    ensures
        render_from(t, vars, i) == Ok::<Seq<char>, TemplateFault>(t.skip(i)),
    decreases t.len() - i,
{
    if i < t.len() {
        lemma_plain_from(t, vars, i + 1);
        assert(seq![t[i]] + t.skip(i + 1) =~= t.skip(i));
    } else {
        assert(t.skip(i) =~= Seq::<char>::empty());
    }
}

// ---------------------------------------------------------------------------
// Where a rendering fails
// ---------------------------------------------------------------------------

/// Whether failure `f` of rendering `t` points where it should: at a `{` of
/// the template, with an undefined name given trimmed and missing from the
/// variables, an unmatched `{` with no `}` after it, an empty name written `{}`.
pub open spec fn fault_located(t: Seq<char>, vars: Map<Seq<char>, Seq<char>>, f: TemplateFault) -> bool {
    match f {
        TemplateFault::Undefined(name, p) => !vars.contains_key(name) && trim(name) == name && exists|i: int|
            0 <= i < t.len() && t[i] == '{' && p == #[trigger] byte_offset(t, i),
        TemplateFault::Unmatched(p) => exists|i: int|
            0 <= i < t.len() && t[i] == '{' && p == #[trigger] byte_offset(t, i) && forall|m: int|
                i < m < t.len() ==> t[m] != '}',
        TemplateFault::Empty(p) => exists|i: int|
            0 <= i && i + 1 < t.len() && t[i] == '{' && t[i + 1] == '}' && p == #[trigger] byte_offset(t, i),
    }
}

proof fn lemma_close_index_none(t: Seq<char>, j: int)
    requires
        0 <= j,
        close_index(t, j) is None,
    ensures
        forall|m: int| j <= m < t.len() ==> t[m] != '}',
    decreases t.len() - j,
{
    if j < t.len() {
        lemma_close_index_none(t, j + 1);
    }
}

proof fn lemma_render_from_fault(t: Seq<char>, vars: Map<Seq<char>, Seq<char>>, i: int)
    requires
        0 <= i,
    ensures
        render_from(t, vars, i) matches Err(f) ==> fault_located(t, vars, f),
    decreases t.len() - i,
{
    if i >= t.len() {
    } else if t[i] == '{' {
        if i + 1 < t.len() && t[i + 1] == '{' {
            lemma_render_from_fault(t, vars, i + 2);
        } else {
            match close_index(t, i + 1) {
                None => {
                    lemma_close_index_none(t, i + 1);
                    assert(byte_offset(t, i) == byte_offset(t, i));
                },
                Some(j) => {
                    lemma_close_index_range(t, i + 1);
                    let raw = t.subrange(i + 1, j);
                    let name = trim(raw);
                    if raw.len() == 0 {
                        assert(j == i + 1);
                        assert(byte_offset(t, i) == byte_offset(t, i));
                    } else if vars.contains_key(name) {
                        lemma_render_from_fault(t, vars, j + 1);
                    } else {
                        lemma_trim_idempotent(raw);
                        assert(byte_offset(t, i) == byte_offset(t, i));
                    }
                },
            }
        }
    } else if t[i] == '}' {
        if i + 1 < t.len() && t[i + 1] == '}' {
            lemma_render_from_fault(t, vars, i + 2);
        } else {
            lemma_render_from_fault(t, vars, i + 1);
        }
    } else {
        lemma_render_from_fault(t, vars, i + 1);
    }
}

/// Every rendering failure points at a `{` of the template: an undefined
/// name is reported trimmed and is missing from the variables, an unmatched
/// `{` has no `}` after it, and an empty name is written `{}`.
pub proof fn lemma_render_fault_located(t: Seq<char>, vars: Map<Seq<char>, Seq<char>>)
    ensures
        render(t, vars) matches Err(f) ==> fault_located(t, vars, f),
{
    lemma_render_from_fault(t, vars, 0);
}

// ---------------------------------------------------------------------------
// Rendering a concatenation
// ---------------------------------------------------------------------------

/// The text of a successful rendering.
pub open spec fn rendered(r: Result<Seq<char>, TemplateFault>) -> Option<Seq<char>> {
    match r {
        Ok(s) => Some(s),
        Err(_) => None,
    }
}

proof fn lemma_close_index_shift(t1: Seq<char>, t2: Seq<char>, j: int)
    requires
        0 <= j,
    ensures
        close_index(t1 + t2, t1.len() + j) == (match close_index(t2, j) {
            Some(x) => Some(t1.len() + x),
            None => None::<int>,
        }),
    decreases t2.len() - j,
{
    if j < t2.len() {
        assert((t1 + t2)[t1.len() + j] == t2[j]);
        lemma_close_index_shift(t1, t2, j + 1);
    }
}

proof fn lemma_close_index_prefix(t1: Seq<char>, t2: Seq<char>, j: int)
    requires
        0 <= j,
        close_index(t1, j) is Some,
    ensures
        close_index(t1 + t2, j) == close_index(t1, j),
    decreases t1.len() - j,
{
    if j < t1.len() {
        assert((t1 + t2)[j] == t1[j]);
        if t1[j] != '}' {
            lemma_close_index_prefix(t1, t2, j + 1);
        }
    }
}

proof fn lemma_render_shift(t1: Seq<char>, t2: Seq<char>, vars: Map<Seq<char>, Seq<char>>, k: int)
    requires
        0 <= k,
    ensures
        rendered(render_from(t1 + t2, vars, t1.len() + k)) == rendered(render_from(t2, vars, k)),
    decreases t2.len() - k,
{
    let t = t1 + t2;
    let n = t1.len();
    let i = n + k;
    if k >= t2.len() {
    } else {
        assert(t[i] == t2[k]);
        if k + 1 < t2.len() {
            assert(t[i + 1] == t2[k + 1]);
        }
        if t2[k] == '{' {
            if k + 1 < t2.len() && t2[k + 1] == '{' {
                lemma_render_shift(t1, t2, vars, k + 2);
            } else {
                lemma_close_index_shift(t1, t2, k + 1);
                match close_index(t2, k + 1) {
                    None => {},
                    Some(j) => {
                        lemma_close_index_range(t2, k + 1);
                        assert(t.subrange(i + 1, n + j) =~= t2.subrange(k + 1, j));
                        lemma_render_shift(t1, t2, vars, j + 1);
                    },
                }
            }
        } else if t2[k] == '}' {
            if k + 1 < t2.len() && t2[k + 1] == '}' {
                lemma_render_shift(t1, t2, vars, k + 2);
            } else {
                lemma_render_shift(t1, t2, vars, k + 1);
            }
        } else {
            lemma_render_shift(t1, t2, vars, k + 1);
        }
    }
}

proof fn lemma_render_prefix(t1: Seq<char>, t2: Seq<char>, vars: Map<Seq<char>, Seq<char>>, i: int)
    requires
        0 <= i <= t1.len(),
        render_from(t1, vars, i) is Ok,
        t1.len() == 0 || t1.last() != '}' || t2.len() == 0 || t2[0] != '}',
    ensures
        render_from(t1 + t2, vars, i) == prepend(
            render_from(t1, vars, i)->Ok_0,
            render_from(t1 + t2, vars, t1.len() as int),
        ),
    decreases t1.len() - i,
{
    let t = t1 + t2;
    let n = t1.len() as int;
    if i == n {
        match render_from(t, vars, n) {
            Ok(s) => {
                assert(Seq::<char>::empty() + s =~= s);
            },
            Err(_) => {},
        }
    } else {
        assert(t[i] == t1[i]);
        if i + 1 < n {
            assert(t[i + 1] == t1[i + 1]);
        } else if t2.len() > 0 {
            assert(t[i + 1] == t2[0]);
        }
        if t1[i] == '{' {
            if i + 1 < n && t1[i + 1] == '{' {
                lemma_render_prefix(t1, t2, vars, i + 2);
                lemma_prepend_assoc(seq!['{'], render_from(t1, vars, i + 2)->Ok_0, render_from(t, vars, n));
            } else {
                let c = close_index(t1, i + 1);
                lemma_close_index_range(t1, i + 1);
                let j = c->Some_0;
                lemma_close_index_prefix(t1, t2, i + 1);
                assert(t.subrange(i + 1, j) =~= t1.subrange(i + 1, j));
                let name = trim(t1.subrange(i + 1, j));
                lemma_render_prefix(t1, t2, vars, j + 1);
                lemma_prepend_assoc(vars[name], render_from(t1, vars, j + 1)->Ok_0, render_from(t, vars, n));
            }
        } else if t1[i] == '}' {
            if i + 1 < n && t1[i + 1] == '}' {
                lemma_render_prefix(t1, t2, vars, i + 2);
                lemma_prepend_assoc(seq!['}'], render_from(t1, vars, i + 2)->Ok_0, render_from(t, vars, n));
            } else {
                lemma_render_prefix(t1, t2, vars, i + 1);
                lemma_prepend_assoc(seq!['}'], render_from(t1, vars, i + 1)->Ok_0, render_from(t, vars, n));
            }
        } else {
            lemma_render_prefix(t1, t2, vars, i + 1);
            lemma_prepend_assoc(seq![t1[i]], render_from(t1, vars, i + 1)->Ok_0, render_from(t, vars, n));
        }
    }
}

/// Rendering two templates written one after the other gives the two
/// renderings joined, when both render, unless the first ends in `}` and the
/// second starts with `}` (the two would pair into one escaped `}`).
pub proof fn lemma_render_concat(t1: Seq<char>, t2: Seq<char>, vars: Map<Seq<char>, Seq<char>>)
    requires
        render(t1, vars) is Ok,
        render(t2, vars) is Ok,
        t1.len() == 0 || t1.last() != '}' || t2.len() == 0 || t2[0] != '}',
    ensures
        render(t1 + t2, vars) == Ok::<Seq<char>, TemplateFault>(render(t1, vars)->Ok_0 + render(t2, vars)->Ok_0),
{
    lemma_render_prefix(t1, t2, vars, 0);
    lemma_render_shift(t1, t2, vars, 0);
    assert(t1.len() + 0 == t1.len());
}

// ---------------------------------------------------------------------------
// Placeholders
// ---------------------------------------------------------------------------

/// The placeholder `{name}`.
pub open spec fn placeholder(name: Seq<char>) -> Seq<char> {
    seq!['{'] + name + seq!['}']
}

proof fn lemma_close_index_at(t: Seq<char>, j: int, target: int)
    requires
        0 <= j <= target < t.len(),
        t[target] == '}',
        forall|m: int| j <= m < target ==> t[m] != '}',
    ensures
        close_index(t, j) == Some(target),
    decreases target - j,
{
    if j < target {
        lemma_close_index_at(t, j + 1, target);
    }
}

/// A lone placeholder renders to its variable, when the name holds no brace,
/// neither starts nor ends with whitespace, and is defined.
pub proof fn lemma_placeholder_renders(name: Seq<char>, vars: Map<Seq<char>, Seq<char>>)
    requires
        name.len() > 0,
        forall|k: int| 0 <= k < name.len() ==> name[k] != '{' && name[k] != '}',
        !is_ws(name[0]),
        !is_ws(name[name.len() - 1]),
        vars.contains_key(name),
    ensures
        render(placeholder(name), vars) == Ok::<Seq<char>, TemplateFault>(vars[name]),
{
    lemma_trim_unchanged(name);
    let t = placeholder(name);
    let n = name.len() as int;
    assert(t[0] == '{');
    assert(t[1] == name[0]);
    assert(t[n + 1] == '}');
    assert forall|m: int| 1 <= m < n + 1 implies t[m] != '}' by {
        assert(t[m] == name[m - 1]);
    }
    lemma_close_index_at(t, 1, n + 1);
    assert(t.subrange(1, n + 1) =~= name);
    assert(render_from(t, vars, n + 2) == Ok::<Seq<char>, TemplateFault>(Seq::empty()));
    assert(vars[name] + Seq::<char>::empty() =~= vars[name]);
}

} // verus!
