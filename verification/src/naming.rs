//! Task identifiers, file names and branch names.
//!
//! A task is `TASK-<number>` (at least three digits); its file is
//! `<id>-<slug>.md` in its bucket, and its branch and worktree directory are
//! `<id in lower case>-<slug>`, where the slug keeps the title's ASCII letters
//! and digits (in lower case) and joins the runs between them with `-`.

use crate::error::BurlError;
use crate::task::TaskIndex;
use crate::text::{chars_of, decimal, digit_char, push_all, push_decimal, push_str, string_from_chars};
use vstd::prelude::*;

verus! {

broadcast use vstd::string::group_string_axioms;

/// Whether `c` is an ASCII letter or digit.
pub open spec fn is_ascii_alnum(c: char) -> bool {
    ('a' <= c && c <= 'z') || ('A' <= c && c <= 'Z') || ('0' <= c && c <= '9')
}

/// Whether `c` is an ASCII digit.
pub open spec fn is_ascii_digit(c: char) -> bool {
    '0' <= c && c <= '9'
}

/// `c` in lower case when it is an ASCII capital, else `c`.
pub open spec fn ascii_lower(c: char) -> char {
    if 'A' <= c && c <= 'Z' {
        ((c as int) + 32) as char
    } else {
        c
    }
}

/// Lower-cases an ASCII capital.
pub fn to_ascii_lower(c: char) -> (r: char)
    ensures
        r == ascii_lower(c),
{
    match c {
        'A' => 'a',
        'B' => 'b',
        'C' => 'c',
        'D' => 'd',
        'E' => 'e',
        'F' => 'f',
        'G' => 'g',
        'H' => 'h',
        'I' => 'i',
        'J' => 'j',
        'K' => 'k',
        'L' => 'l',
        'M' => 'm',
        'N' => 'n',
        'O' => 'o',
        'P' => 'p',
        'Q' => 'q',
        'R' => 'r',
        'S' => 's',
        'T' => 't',
        'U' => 'u',
        'V' => 'v',
        'W' => 'w',
        'X' => 'x',
        'Y' => 'y',
        'Z' => 'z',
        _ => c,
    }
}

/// The slug of `s` built so far, and whether a separator is pending.
pub open spec fn slug_state(s: Seq<char>) -> (Seq<char>, bool)
    decreases s.len(),
{
    if s.len() == 0 {
        (Seq::empty(), false)
    } else {
        let (acc, pending) = slug_state(s.drop_last());
        let c = s.last();
        if is_ascii_alnum(c) {
            (
                if pending && acc.len() > 0 {
                    acc.push('-')
                } else {
                    acc
                }.push(ascii_lower(c)),
                false,
            )
        } else {
            (acc, true)
        }
    }
}

/// The slug of a title: its runs of ASCII letters and digits, in lower case,
/// joined with `-`.
pub open spec fn slug(title: Seq<char>) -> Seq<char> {
    slug_state(title).0
}

/// Makes the slug of a title.
pub fn slugify_title(title: &str) -> (r: String)
    ensures
        r@ == slug(title@),
{
    let v = slug_chars(title);
    string_from_chars(&v)
}

fn slug_chars(title: &str) -> (r: Vec<char>)
    ensures
        r@ == slug(title@),
{
    let t = chars_of(title);
    let mut acc: Vec<char> = Vec::new();
    let mut pending = false;
    let mut i: usize = 0;
    while i < t.len()
        invariant
            i <= t@.len(),
            t@ == title@,
            (acc@, pending) == slug_state(t@.take(i as int)),
        decreases t@.len() - i,
    {
        assert(t@.take(i + 1).drop_last() =~= t@.take(i as int));
        let c = t[i];
        if ('a' <= c && c <= 'z') || ('A' <= c && c <= 'Z') || ('0' <= c && c <= '9') {
            if pending && acc.len() > 0 {
                acc.push('-');
            }
            acc.push(to_ascii_lower(c));
            pending = false;
        } else {
            pending = true;
        }
        i = i + 1;
    }
    assert(t@.take(t@.len() as int) =~= t@);
    acc
}

/// `n` in decimal, padded with zeros on the left to three digits.
pub open spec fn padded_number(n: nat) -> Seq<char> {
    if n < 10 {
        "00"@ + decimal(n)
    } else if n < 100 {
        "0"@ + decimal(n)
    } else {
        decimal(n)
    }
}

/// The identifier of task number `n`: `TASK-` and the number with at least
/// three digits.
pub open spec fn task_id_text(n: nat) -> Seq<char> {
    "TASK-"@ + padded_number(n)
}

/// Makes the identifier of task number `n`.
pub fn generate_task_id(n: u32) -> (r: String)
    ensures
        r@ == task_id_text(n as nat),
{
    let mut out = chars_of("TASK-");
    if n < 10 {
        push_str(&mut out, "00");
    } else if n < 100 {
        push_str(&mut out, "0");
    }
    push_decimal(&mut out, n as u64);
    proof {
        reveal_strlit("TASK-");
    }
    assert(out@ =~= task_id_text(n as nat));
    string_from_chars(&out)
}

/// The file name of a task: `<id>-<slug>.md`, or `<id>.md` for an empty slug.
pub open spec fn task_filename_text(id: Seq<char>, title: Seq<char>) -> Seq<char> {
    if slug(title).len() == 0 {
        id + ".md"@
    } else {
        id + "-"@ + slug(title) + ".md"@
    }
}

/// Makes the file name of a task.
pub fn generate_task_filename(id: &str, title: &str) -> (r: String)
    ensures
        r@ == task_filename_text(id@, title@),
{
    let s = slug_chars(title);
    let mut out = chars_of(id);
    if s.len() > 0 {
        push_str(&mut out, "-");
        push_all(&mut out, &s);
    }
    push_str(&mut out, ".md");
    assert(out@ =~= task_filename_text(id@, title@));
    string_from_chars(&out)
}

/// The branch of a task, also the name of its worktree directory: the
/// identifier in lower case, then `-` and the slug when there is one.
pub open spec fn branch_text(id: Seq<char>, title: Seq<char>) -> Seq<char> {
    let low = Seq::new(id.len(), |k: int| ascii_lower(id[k]));
    if slug(title).len() == 0 {
        low
    } else {
        low + "-"@ + slug(title)
    }
}

/// Makes the branch name of a task.
pub fn task_branch_name(id: &str, title: &str) -> (r: String)
    ensures
        r@ == branch_text(id@, title@),
{
    let cs = chars_of(id);
    let mut out: Vec<char> = Vec::new();
    let mut i: usize = 0;
    while i < cs.len()
        invariant
            i <= cs@.len(),
            cs@ == id@,
            out@ == Seq::new(i as nat, |k: int| ascii_lower(id@[k])),
        decreases cs@.len() - i,
    {
        out.push(to_ascii_lower(cs[i]));
        i = i + 1;
        assert(out@ =~= Seq::new(i as nat, |k: int| ascii_lower(id@[k])));
    }
    let s = slug_chars(title);
    if s.len() > 0 {
        push_str(&mut out, "-");
        push_all(&mut out, &s);
    }
    assert(out@ =~= branch_text(id@, title@));
    string_from_chars(&out)
}

/// The largest task number in the index (0 when it is empty).
pub open spec fn max_number(tasks: Seq<crate::task::TaskInfo>) -> nat
    decreases tasks.len(),
{
    if tasks.len() == 0 {
        0
    } else {
        let m = max_number(tasks.drop_last());
        if tasks.last().number > m {
            tasks.last().number as nat
        } else {
            m
        }
    }
}

/// The largest number is the number of some task (when there is one), and
/// no task has a larger one.
pub proof fn lemma_max_number_bounds(tasks: Seq<crate::task::TaskInfo>)
    ensures
        forall|i: int| 0 <= i < tasks.len() ==> (#[trigger] tasks[i]).number <= max_number(tasks),
        tasks.len() == 0 ==> max_number(tasks) == 0,
        tasks.len() > 0 ==> exists|i: int| 0 <= i < tasks.len() && (#[trigger] tasks[i]).number == max_number(tasks),
    decreases tasks.len(),
{
    if tasks.len() > 0 {
        let d = tasks.drop_last();
        lemma_max_number_bounds(d);
        assert forall|i: int| 0 <= i < tasks.len() implies (#[trigger] tasks[i]).number <= max_number(tasks) by {
            if i < d.len() {
                assert(tasks[i] == d[i]);
            }
        }
        if tasks.last().number > max_number(d) || d.len() == 0 {
            assert(tasks[tasks.len() - 1] == tasks.last());
        } else {
            let i = choose|i: int| 0 <= i < d.len() && (#[trigger] d[i]).number == max_number(d);
            assert(tasks[i] == d[i]);
        }
    }
}

/// The number of the next task: one more than the largest in use, so that
/// numbers are never reused while their tasks exist.
pub fn next_task_number(index: &TaskIndex) -> (r: Option<u32>)
    ensures
        max_number(index.tasks@) < u32::MAX ==> r == Some((max_number(index.tasks@) + 1) as u32),
        max_number(index.tasks@) >= u32::MAX ==> r is None,
        r matches Some(n) ==> forall|i: int| 0 <= i < index.tasks@.len() ==> (#[trigger] index.tasks@[i]).number < n,
        r matches Some(n) ==> (index.tasks@.len() == 0 ==> n == 1),
        r matches Some(n) ==> (index.tasks@.len() > 0 ==> exists|i: int|
            0 <= i < index.tasks@.len() && (#[trigger] index.tasks@[i]).number + 1 == n),
        r is None ==> exists|i: int| 0 <= i < index.tasks@.len() && (#[trigger] index.tasks@[i]).number == u32::MAX,
{
    proof {
        lemma_max_number_bounds(index.tasks@);
    }
    let mut m: u32 = 0;
    let mut i: usize = 0;
    while i < index.tasks.len()
        invariant
            i <= index.tasks@.len(),
            m == max_number(index.tasks@.take(i as int)),
        decreases index.tasks@.len() - i,
    {
        assert(index.tasks@.take(i + 1).drop_last() =~= index.tasks@.take(i as int));
        if index.tasks[i].number > m {
            m = index.tasks[i].number;
        }
        i = i + 1;
    }
    assert(index.tasks@.take(index.tasks@.len() as int) =~= index.tasks@);
    if m < u32::MAX {
        Some(m + 1)
    } else {
        None
    }
}

/// Whether a separator or the start of `..` stands at position `k`.
pub open spec fn path_part_at(id: Seq<char>, k: int) -> bool {
    id[k] == '/' || id[k] == '\\' || (id[k] == '.' && k + 1 < id.len() && id[k + 1] == '.')
}

/// Whether an identifier reaches outside its directory.
pub open spec fn has_path_parts(id: Seq<char>) -> bool {
    exists|k: int| 0 <= k < id.len() && #[trigger] path_part_at(id, k)
}

/// Whether an identifier is `TASK-` (in any case) followed by one or more digits.
pub open spec fn well_formed_id(id: Seq<char>) -> bool {
    &&& id.len() > 5
    &&& ascii_lower(id[0]) == 't' && ascii_lower(id[1]) == 'a' && ascii_lower(id[2]) == 's' && ascii_lower(id[3]) == 'k'
    &&& id[4] == '-'
    &&& forall|k: int| 5 <= k < id.len() ==> is_ascii_digit(#[trigger] id[k])
}

/// What a refused identifier is answered.
pub open spec fn traversal_text(id: Seq<char>) -> Seq<char> {
    "invalid task ID '"@ + id + "': path traversal is not allowed"@
}

/// What a malformed identifier is answered.
pub open spec fn malformed_id_text(id: Seq<char>) -> Seq<char> {
    "invalid task ID '"@ + id + "': expected TASK-<number> (e.g. TASK-001)"@
}

/// Checks a task identifier given on the command line and writes it in
/// upper case: `task-001` is `TASK-001`.
pub fn validate_task_id(id: &str) -> (r: Result<String, BurlError>)
    ensures
        has_path_parts(id@) ==> (r matches Err(BurlError::UserError(m)) && m@ == traversal_text(id@)),
        !has_path_parts(id@) && !well_formed_id(id@) ==> (r matches Err(BurlError::UserError(m)) && m@
            == malformed_id_text(id@)),
        !has_path_parts(id@) && well_formed_id(id@) ==> (r matches Ok(s) && s@ == "TASK-"@ + id@.skip(5)),
{
    let cs = chars_of(id);
    let mut k: usize = 0;
    while k < cs.len()
        invariant
            k <= cs@.len(),
            cs@ == id@,
            forall|j: int| 0 <= j < k ==> !#[trigger] path_part_at(id@, j),
        decreases cs@.len() - k,
    {
        let c = cs[k];
        if c == '/' || c == '\\' || (c == '.' && k + 1 < cs.len() && cs[k + 1] == '.') {
            assert(path_part_at(id@, k as int));
            let mut m = chars_of("invalid task ID '");
            push_str(&mut m, id);
            push_str(&mut m, "': path traversal is not allowed");
            return Err(BurlError::UserError(string_from_chars(&m)));
        }
        k = k + 1;
    }
    let ok_prefix = cs.len() > 5 && to_ascii_lower(cs[0]) == 't' && to_ascii_lower(cs[1]) == 'a'
        && to_ascii_lower(cs[2]) == 's' && to_ascii_lower(cs[3]) == 'k' && cs[4] == '-';
    let mut digits = ok_prefix;
    if ok_prefix {
        let mut j: usize = 5;
        while j < cs.len()
            invariant
                5 <= j <= cs@.len(),
                cs@ == id@,
                digits == (forall|q: int| 5 <= q < j ==> is_ascii_digit(#[trigger] cs@[q])),
            decreases cs@.len() - j,
        {
            if !('0' <= cs[j] && cs[j] <= '9') {
                digits = false;
            }
            j = j + 1;
        }
    }
    if !digits {
        let mut m = chars_of("invalid task ID '");
        push_str(&mut m, id);
        push_str(&mut m, "': expected TASK-<number> (e.g. TASK-001)");
        return Err(BurlError::UserError(string_from_chars(&m)));
    }
    let mut out = chars_of("TASK-");
    let mut j: usize = 5;
    while j < cs.len()
        invariant
            5 <= j <= cs@.len(),
            cs@ == id@,
            out@ == "TASK-"@ + cs@.subrange(5, j as int),
        decreases cs@.len() - j,
    {
        out.push(cs[j]);
        j = j + 1;
        assert(out@ =~= "TASK-"@ + cs@.subrange(5, j as int));
    }
    assert(cs@.subrange(5, cs@.len() as int) =~= id@.skip(5));
    Ok(string_from_chars(&out))
}


/// The value of a string of decimal digits.
pub open spec fn digits_value(d: Seq<char>) -> nat
    decreases d.len(),
{
    if d.len() == 0 {
        0
    } else {
        (digits_value(d.drop_last()) * 10 + ((d.last() as int) - ('0' as int))) as nat
    }
}

/// How many decimal digits `s` starts with from `i` on.
pub open spec fn digit_run(s: Seq<char>, i: int) -> nat
    decreases s.len() - i,
{
    if i < 0 || i >= s.len() || !is_ascii_digit(s[i]) {
        0
    } else {
        1 + digit_run(s, i + 1)
    }
}

/// The task a file name stands for: `TASK-<digits>...md` gives the
/// identifier `TASK-<digits>` and its number (when it fits in 32 bits).
pub open spec fn task_of_filename(name: Seq<char>) -> Option<(Seq<char>, nat)> {
    let n = digit_run(name, 5);
    let d = name.subrange(5, 5 + n as int);
    if name.len() >= 5 && name.take(5) == "TASK-"@ && name.len() >= 3 && name.skip(name.len() - 3) == ".md"@
        && n > 0 && digits_value(d) <= u32::MAX {
        Some(("TASK-"@ + d, digits_value(d)))
    } else {
        None
    }
}

pub(crate) proof fn lemma_digit_run_bound(s: Seq<char>, i: int)
    requires
        0 <= i <= s.len(),
    ensures
        i + digit_run(s, i) <= s.len(),
        forall|k: int| i <= k < i + digit_run(s, i) ==> is_ascii_digit(#[trigger] s[k]),
        i + digit_run(s, i) < s.len() ==> !is_ascii_digit(s[i + digit_run(s, i)]),
    decreases s.len() - i,
{
    if i < s.len() && is_ascii_digit(s[i]) {
        lemma_digit_run_bound(s, i + 1);
    }
}

/// Reads the identifier and number of a task file name.
pub fn parse_task_filename(name: &str) -> (r: Option<(String, u32)>)
    ensures
        match r {
            Some((id, n)) => task_of_filename(name@) == Some((id@, n as nat)),
            None => task_of_filename(name@) is None,
        },
{
    let cs = chars_of(name);
    proof {
        reveal_strlit("TASK-");
        reveal_strlit(".md");
    }
    let len = cs.len();
    if len < 5 || !(cs[0] == 'T' && cs[1] == 'A' && cs[2] == 'S' && cs[3] == 'K' && cs[4] == '-') {
        proof {
            if len >= 5 {
                assert(cs@.take(5)[0] == cs@[0]);
                assert(cs@.take(5)[1] == cs@[1]);
                assert(cs@.take(5)[2] == cs@[2]);
                assert(cs@.take(5)[3] == cs@[3]);
                assert(cs@.take(5)[4] == cs@[4]);
            }
        }
        return None;
    }
    assert(cs@.take(5) =~= "TASK-"@);
    if !(cs[len - 3] == '.' && cs[len - 2] == 'm' && cs[len - 1] == 'd') {
        proof {
            if len >= 3 {
                let t = cs@.skip(len - 3);
                assert(t[0] == cs@[len - 3]);
                assert(t[1] == cs@[len - 2]);
                assert(t[2] == cs@[len - 1]);
            }
        }
        return None;
    }
    assert(cs@.skip(len - 3) =~= ".md"@);
    proof {
        lemma_digit_run_bound(cs@, 5);
    }
    let mut j: usize = 5;
    let mut value: u64 = 0;
    while j < len && '0' <= cs[j] && cs[j] <= '9'
        invariant
            5 <= j <= len,
            len == cs@.len(),
            cs@ == name@,
            j <= 5 + digit_run(cs@, 5),
            5 + digit_run(cs@, 5) <= len,
            forall|k: int| 5 <= k < 5 + digit_run(cs@, 5) ==> is_ascii_digit(#[trigger] cs@[k]),
            5 + digit_run(cs@, 5) < len ==> !is_ascii_digit(cs@[(5 + digit_run(cs@, 5)) as int]),
            forall|k: int| 5 <= k < j ==> is_ascii_digit(#[trigger] cs@[k]),
            value == digits_value(cs@.subrange(5, j as int)),
            value <= u32::MAX,
        decreases len - j,
    {
        proof {
            lemma_digit_run_at_least(cs@, 5, j + 1);
        }
        let d = (cs[j] as u32 - '0' as u32) as u64;
        let next = value * 10 + d;
        assert(cs@.subrange(5, j + 1).drop_last() =~= cs@.subrange(5, j as int));
        if next > u32::MAX as u64 {
            proof {
                lemma_digits_prefix_grows(cs@, 5, j + 1, (5 + digit_run(cs@, 5)) as int);
            }
            return None;
        }
        value = next;
        j = j + 1;
    }
    assert(j == 5 + digit_run(cs@, 5));
    if j == 5 {
        return None;
    }
    let mut id = chars_of("TASK-");
    let mut k: usize = 5;
    while k < j
        invariant
            5 <= k <= j <= cs@.len(),
            id@ == "TASK-"@ + cs@.subrange(5, k as int),
        decreases j - k,
    {
        id.push(cs[k]);
        k = k + 1;
        assert(id@ =~= "TASK-"@ + cs@.subrange(5, k as int));
    }
    Some((string_from_chars(&id), value as u32))
}

pub(crate) proof fn lemma_digit_run_at_least(s: Seq<char>, i: int, m: int)
    requires
        0 <= i <= m <= s.len(),
        forall|k: int| i <= k < m ==> is_ascii_digit(#[trigger] s[k]),
    ensures
        digit_run(s, i) >= m - i,
    decreases m - i,
{
    if i < m {
        lemma_digit_run_at_least(s, i + 1, m);
    }
}

/// A longer run of digits is worth at least as much as its prefix.
pub(crate) proof fn lemma_digits_prefix_grows(s: Seq<char>, from: int, a: int, b: int)
    requires
        0 <= from <= a <= b <= s.len(),
        forall|k: int| from <= k < b ==> is_ascii_digit(#[trigger] s[k]),
    ensures
        digits_value(s.subrange(from, a)) <= digits_value(s.subrange(from, b)),
    decreases b - a,
{
    if a < b {
        lemma_digits_prefix_grows(s, from, a, b - 1);
        assert(s.subrange(from, b).drop_last() =~= s.subrange(from, b - 1));
    }
}


// ---------------------------------------------------------------------------
// Laws
// ---------------------------------------------------------------------------

proof fn lemma_digit_char_value(d: nat)
    requires
        d < 10,
    ensures
        is_ascii_digit(digit_char(d)),
        (digit_char(d) as int) - ('0' as int) == d,
{
}

proof fn lemma_decimal_digits(n: nat)
    ensures
        decimal(n).len() >= 1,
        forall|k: int| 0 <= k < decimal(n).len() ==> is_ascii_digit(#[trigger] decimal(n)[k]),
        digits_value(decimal(n)) == n,
    decreases n,
{
    if n < 10 {
        lemma_digit_char_value(n);
        assert(decimal(n).drop_last() =~= Seq::<char>::empty());
        assert(decimal(n).last() == digit_char(n));
        assert(digits_value(Seq::<char>::empty()) == 0);
        assert(digits_value(decimal(n)) == (digits_value(decimal(n).drop_last()) * 10 + ((decimal(n).last() as int)
            - ('0' as int))) as nat);
    } else {
        lemma_decimal_digits(n / 10);
        lemma_digit_char_value(n % 10);
        let d = decimal(n);
        assert(d.drop_last() =~= decimal(n / 10));
        assert(d.last() == digit_char(n % 10));
        assert(digits_value(d) == digits_value(decimal(n / 10)) * 10 + ((digit_char(n % 10) as int) - ('0' as int)));
        assert((n / 10) * 10 + n % 10 == n);
    }
}

proof fn lemma_leading_zero(s: Seq<char>)
    ensures
        digits_value(seq!['0'] + s) == digits_value(s),
    decreases s.len(),
{
    if s.len() > 0 {
        lemma_leading_zero(s.drop_last());
        let z = seq!['0'] + s;
        assert(z.drop_last() =~= seq!['0'] + s.drop_last());
        assert(z.last() == s.last());
        assert(digits_value(z) == (digits_value(z.drop_last()) * 10 + ((z.last() as int) - ('0' as int))) as nat);
        assert(digits_value(s) == (digits_value(s.drop_last()) * 10 + ((s.last() as int) - ('0' as int))) as nat);
    } else {
        let z = seq!['0'] + s;
        assert(z.drop_last() =~= Seq::<char>::empty());
        assert(z.last() == '0');
        assert(digits_value(Seq::<char>::empty()) == 0);
        assert(digits_value(z) == (digits_value(z.drop_last()) * 10 + ((z.last() as int) - ('0' as int))) as nat);
        assert(s =~= Seq::<char>::empty());
    }
}

proof fn lemma_padded_digits(n: nat)
    ensures
        padded_number(n).len() >= 1,
        forall|k: int| 0 <= k < padded_number(n).len() ==> is_ascii_digit(#[trigger] padded_number(n)[k]),
        digits_value(padded_number(n)) == n,
{
    lemma_decimal_digits(n);
    reveal_strlit("00");
    reveal_strlit("0");
    if n < 10 {
        assert("00"@ + decimal(n) =~= seq!['0'] + (seq!['0'] + decimal(n)));
        lemma_leading_zero(decimal(n));
        lemma_leading_zero(seq!['0'] + decimal(n));
    } else if n < 100 {
        assert("0"@ + decimal(n) =~= seq!['0'] + decimal(n));
        lemma_leading_zero(decimal(n));
    }
}

proof fn lemma_digit_run_exact(s: Seq<char>, i: int, m: int)
    requires
        0 <= i <= m <= s.len(),
        forall|k: int| i <= k < m ==> is_ascii_digit(#[trigger] s[k]),
        m < s.len() ==> !is_ascii_digit(s[m]),
    ensures
        digit_run(s, i) == m - i,
    decreases m - i,
{
    if i < m {
        lemma_digit_run_exact(s, i + 1, m);
    }
}

/// The file of task number `n` names task `n` again: reading the identifier
/// and number back from `generate_task_filename(generate_task_id(n), title)`
/// gives `generate_task_id(n)` and `n`.
pub proof fn lemma_task_filename_round_trip(n: u32, title: Seq<char>)
    ensures
        task_of_filename(task_filename_text(task_id_text(n as nat), title)) == Some((task_id_text(n as nat), n as nat)),
{
    reveal_strlit("TASK-");
    reveal_strlit(".md");
    reveal_strlit("-");
    let p = padded_number(n as nat);
    lemma_padded_digits(n as nat);
    let id = task_id_text(n as nat);
    let name = task_filename_text(id, title);
    let rest = if slug(title).len() == 0 {
        ".md"@
    } else {
        "-"@ + slug(title) + ".md"@
    };
    assert(name =~= "TASK-"@ + p + rest);
    assert(rest[0] == '.' || rest[0] == '-');
    assert(name[5 + p.len() as int] == rest[0]);
    assert forall|k: int| 5 <= k < 5 + p.len() implies is_ascii_digit(#[trigger] name[k]) by {
        assert(name[k] == p[k - 5]);
    }
    lemma_digit_run_exact(name, 5, 5 + p.len() as int);
    assert(name.subrange(5, 5 + p.len() as int) =~= p);
    assert(name.take(5) =~= "TASK-"@);
    assert(name.skip(name.len() - 3) =~= ".md"@);
}

/// Whether a character may stand in a slug.
pub open spec fn slug_char(c: char) -> bool {
    ('a' <= c && c <= 'z') || ('0' <= c && c <= '9') || c == '-'
}

/// A slug holds lower-case ASCII letters, digits and single dashes between
/// them: it neither starts nor ends with a dash, nor holds two in a row.
pub proof fn lemma_slug_shape(title: Seq<char>)
    ensures
        forall|k: int| 0 <= k < slug(title).len() ==> slug_char(#[trigger] slug(title)[k]),
        slug(title).len() > 0 ==> slug(title)[0] != '-' && slug(title).last() != '-',
        forall|k: int| 0 <= k < slug(title).len() - 1 ==> !(#[trigger] slug(title)[k] == '-' && slug(title)[k + 1] == '-'),
    decreases title.len(),
{
    if title.len() > 0 {
        let init = title.drop_last();
        lemma_slug_shape(init);
        let (acc, pending) = slug_state(init);
        let c = title.last();
        if is_ascii_alnum(c) {
            let low = ascii_lower(c);
            assert(slug_char(low));
            let base = if pending && acc.len() > 0 {
                acc.push('-')
            } else {
                acc
            };
            let r = base.push(low);
            assert(slug(title) == r);
            assert forall|k: int| 0 <= k < r.len() implies slug_char(#[trigger] r[k]) by {
                if k < acc.len() {
                    assert(r[k] == acc[k]);
                }
            }
            assert forall|k: int| 0 <= k < r.len() - 1 implies !(#[trigger] r[k] == '-' && r[k + 1] == '-') by {
                if k + 1 < acc.len() {
                    assert(r[k] == acc[k] && r[k + 1] == acc[k + 1]);
                } else if k + 1 == acc.len() && base.len() > acc.len() {
                    assert(r[k] == acc[k]);
                }
            }
            if acc.len() > 0 {
                assert(r[0] == acc[0]);
            }
        }
    }
}

} // verus!
