//! Unix path handling over strings: joining, components and prefixes.

use crate::text::{chars_of, push_all, string_from_chars};
use vstd::prelude::*;

verus! {

broadcast use vstd::string::group_string_axioms;

/// Whether a path is absolute (starts with `/`).
pub open spec fn is_absolute(p: Seq<char>) -> bool {
    p.len() > 0 && p[0] == '/'
}

/// `base` joined with `p` (`Path::join`): `p` itself when absolute, else `base`,
/// a `/` unless `base` is empty or already ends with one, then `p`.
pub open spec fn join_path(base: Seq<char>, p: Seq<char>) -> Seq<char> {
    if is_absolute(p) {
        p
    } else if base.len() == 0 || base.last() == '/' {
        base + p
    } else {
        base + seq!['/'] + p
    }
}

/// Joins two paths (`Path::join`).
pub fn join_paths(base: &str, p: &str) -> (r: String)
    ensures
        r@ == join_path(base@, p@),
{
    let pc = chars_of(p);
    if pc.len() > 0 && pc[0] == '/' {
        return string_from_chars(&pc);
    }
    let mut out = chars_of(base);
    if out.len() > 0 && out[out.len() - 1] != '/' {
        out.push('/');
    }
    push_all(&mut out, &pc);
    string_from_chars(&out)
}

/// The full path of a recorded worktree: absolute paths are kept, relative ones
/// are taken from the repository root.
pub fn normalize_worktree_path(repo_root: &str, worktree_path: &str) -> (r: String)
    ensures
        r@ == join_path(repo_root@, worktree_path@),
{
    join_paths(repo_root, worktree_path)
}

/// Index of the first `/` at or after `i`, or the length when there is none.
pub open spec fn next_slash(p: Seq<char>, i: int) -> int
    decreases p.len() - i,
{
    if i >= p.len() {
        p.len() as int
    } else if p[i] == '/' {
        i
    } else {
        next_slash(p, i + 1)
    }
}

/// The components of `p` from index `i` on, `i` being the start of a segment:
/// the segments between `/` separators, without empty and `.` segments.
pub open spec fn comps_from(p: Seq<char>, i: int) -> Seq<Seq<char>>
    decreases p.len() + 1 - i,
{
    if i < 0 || i >= p.len() {
        Seq::empty()
    } else {
        let j = if next_slash(p, i) < i || next_slash(p, i) > p.len() {
            p.len() as int
        } else {
            next_slash(p, i)
        };
        let seg = p.subrange(i, j);
        if seg.len() == 0 || seg == seq!['.'] {
            comps_from(p, j + 1)
        } else {
            seq![seg] + comps_from(p, j + 1)
        }
    }
}

/// The components of a Unix path, as `Path::components` yields them: `/` for
/// the root, `.` for a leading current-directory segment, then every segment
/// that is neither empty nor `.` (so `..` stays).
pub open spec fn components(p: Seq<char>) -> Seq<Seq<char>> {
    if is_absolute(p) {
        seq![seq!['/']] + comps_from(p, 1)
    } else if p.len() > 0 && p[0] == '.' && (p.len() == 1 || p[1] == '/') {
        seq![seq!['.']] + comps_from(p, 1)
    } else {
        comps_from(p, 0)
    }
}

proof fn lemma_next_slash(p: Seq<char>, i: int)
    requires
        0 <= i <= p.len(),
    ensures
        i <= next_slash(p, i) <= p.len(),
        next_slash(p, i) < p.len() ==> p[next_slash(p, i)] == '/',
        forall|k: int| i <= k < next_slash(p, i) ==> p[k] != '/',
    decreases p.len() - i,
{
    if i < p.len() && p[i] != '/' {
        lemma_next_slash(p, i + 1);
    }
}

/// The components of `p` from index `start` on.
fn comps_of(p: &Vec<char>, start: usize) -> (r: Vec<Vec<char>>)
    requires
        start <= p@.len(),
    ensures
        comps_views(r@) == comps_from(p@, start as int),
{
    let mut r: Vec<Vec<char>> = Vec::new();
    let mut i: usize = start;
    while i < p.len()
        invariant
            start <= i <= p@.len(),
            comps_from(p@, start as int) == comps_views(r@) + comps_from(p@, i as int),
        decreases p@.len() - i,
    {
        let mut j: usize = i;
        while j < p.len() && p[j] != '/'
            invariant
                i <= j <= p@.len(),
                next_slash(p@, i as int) == next_slash(p@, j as int),
            decreases p@.len() - j,
        {
            j = j + 1;
        }
        proof {
            lemma_next_slash(p@, i as int);
        }
        let seg = crate::text::slice_chars(p, i, j);
        let ghost before = r@;
        if seg.len() == 0 || (seg.len() == 1 && seg[0] == '.') {
            assert(seg@ == seq!['.'] || seg@.len() == 0);
        } else {
            assert(seg@ != seq!['.']);
            r.push(seg);
            assert(comps_views(r@) =~= comps_views(before) + seq![seg@]);
        }
        proof {
            if seg@.len() == 0 || seg@ == seq!['.'] {
            } else {
                assert(comps_views(before) + (seq![seg@] + comps_from(p@, j + 1)) =~= comps_views(r@)
                    + comps_from(p@, j + 1));
            }
        }
        if j == p.len() {
            i = j;
        } else {
            i = j + 1;
        }
    }
    r
}

/// The character sequences of a list of components.
pub open spec fn comps_views(v: Seq<Vec<char>>) -> Seq<Seq<char>> {
    v.map_values(|c: Vec<char>| c@)
}

/// The components of a path.
pub fn path_components(p: &str) -> (r: Vec<Vec<char>>)
    ensures
        comps_views(r@) == components(p@),
{
    let pc = chars_of(p);
    if pc.len() > 0 && pc[0] == '/' {
        let rest = comps_of(&pc, 1);
        let mut root: Vec<char> = Vec::new();
        root.push('/');
        assert(root@ =~= seq!['/']);
        let mut all: Vec<Vec<char>> = Vec::new();
        all.push(root);
        assert(comps_views(all@) =~= seq![seq!['/']] + comps_views(rest@).take(0));
        let mut k: usize = 0;
        while k < rest.len()
            invariant
                k <= rest@.len(),
                comps_views(all@) == seq![seq!['/']] + comps_views(rest@).take(k as int),
            decreases rest@.len() - k,
        {
            let c = crate::text::slice_chars(&rest[k], 0, rest[k].len());
            assert(c@ =~= rest@[k as int]@);
            let ghost before = all@;
            all.push(c);
            assert(all@ == before.push(c));
            assert(comps_views(all@) =~= comps_views(before) + seq![c@]);
            assert(comps_views(rest@).take(k + 1) =~= comps_views(rest@).take(k as int) + seq![rest@[k as int]@]);
            assert(comps_views(all@) =~= seq![seq!['/']] + comps_views(rest@).take(k + 1));
            k = k + 1;
        }
        assert(comps_views(rest@).take(rest@.len() as int) =~= comps_views(rest@));
        return all;
    }
    if pc.len() > 0 && pc[0] == '.' && (pc.len() == 1 || pc[1] == '/') {
        let rest = comps_of(&pc, 1);
        let mut cur: Vec<char> = Vec::new();
        cur.push('.');
        assert(cur@ =~= seq!['.']);
        let mut all: Vec<Vec<char>> = Vec::new();
        all.push(cur);
        assert(comps_views(all@) =~= seq![seq!['.']] + comps_views(rest@).take(0));
        let mut k: usize = 0;
        while k < rest.len()
            invariant
                k <= rest@.len(),
                comps_views(all@) == seq![seq!['.']] + comps_views(rest@).take(k as int),
            decreases rest@.len() - k,
        {
            let c = crate::text::slice_chars(&rest[k], 0, rest[k].len());
            assert(c@ =~= rest@[k as int]@);
            let ghost before = all@;
            all.push(c);
            assert(all@ == before.push(c));
            assert(comps_views(all@) =~= comps_views(before) + seq![c@]);
            assert(comps_views(rest@).take(k + 1) =~= comps_views(rest@).take(k as int) + seq![rest@[k as int]@]);
            assert(comps_views(all@) =~= seq![seq!['.']] + comps_views(rest@).take(k + 1));
            k = k + 1;
        }
        assert(comps_views(rest@).take(rest@.len() as int) =~= comps_views(rest@));
        return all;
    }
    comps_of(&pc, 0)
}

/// Whether the components of `base` begin the components of `p`
/// (`Path::starts_with`).
pub open spec fn path_has_prefix(p: Seq<char>, base: Seq<char>) -> bool {
    components(base).len() <= components(p).len() && components(p).take(
        components(base).len() as int,
    ) == components(base)
}

/// Whether the components of `base` begin the components of `p`.
pub fn path_starts_with(p: &str, base: &str) -> (r: bool)
    ensures
        r == path_has_prefix(p@, base@),
{
    let pc = path_components(p);
    let bc = path_components(base);
    if bc.len() > pc.len() {
        return false;
    }
    let mut i: usize = 0;
    while i < bc.len()
        invariant
            bc@.len() <= pc@.len(),
            i <= bc@.len(),
            comps_views(pc@) == components(p@),
            comps_views(bc@) == components(base@),
            forall|k: int| 0 <= k < i ==> pc@[k]@ == bc@[k]@,
        decreases bc@.len() - i,
    {
        if !crate::text::chars_eq(&pc[i], &bc[i]) {
            assert(components(p@).take(bc@.len() as int)[i as int] == pc@[i as int]@);
            assert(components(base@)[i as int] == bc@[i as int]@);
            return false;
        }
        i = i + 1;
    }
    assert(components(p@).take(bc@.len() as int) =~= components(base@));
    true
}

/// Whether a path has a `..` component.
pub open spec fn has_traversal(p: Seq<char>) -> bool {
    components(p).contains(seq!['.', '.'])
}

/// Whether a path has a `..` component.
pub fn path_contains_traversal(path: &str) -> (r: bool)
    ensures
        r == has_traversal(path@),
{
    let pc = path_components(path);
    let dots = vec!['.', '.'];
    let mut i: usize = 0;
    while i < pc.len()
        invariant
            i <= pc@.len(),
            comps_views(pc@) == components(path@),
            dots@ == seq!['.', '.'],
            forall|k: int| 0 <= k < i ==> pc@[k]@ != seq!['.', '.'],
        decreases pc@.len() - i,
    {
        if crate::text::chars_eq(&pc[i], &dots) {
            assert(components(path@)[i as int] == seq!['.', '.']);
            return true;
        }
        i = i + 1;
    }
    assert forall|k: int| 0 <= k < components(path@).len() implies components(path@)[k] != seq![
        '.',
        '.',
    ] by {
        assert(components(path@)[k] == pc@[k]@);
    }
    false
}

/// A path shown relative to `root` when it lies under it (its remaining
/// components joined by `/`), else the path as given.
pub open spec fn relative_text(p: Seq<char>, root: Seq<char>) -> Seq<char> {
    if path_has_prefix(p, root) {
        crate::context::join(components(p).skip(components(root).len() as int), "/"@)
    } else {
        p
    }
}

/// Shows a path relative to `root` when it lies under it.
pub fn make_relative(path: &str, repo_root: &str) -> (r: String)
    ensures
        r@ == relative_text(path@, repo_root@),
{
    if !path_starts_with(path, repo_root) {
        return crate::text::owned(path);
    }
    let pc = path_components(path);
    let n = path_components(repo_root).len();
    let mut rest: Vec<String> = Vec::new();
    let mut i: usize = n;
    while i < pc.len()
        invariant
            n <= i <= pc@.len(),
            n == components(repo_root@).len(),
            comps_views(pc@) == components(path@),
            crate::context::views(rest@) == components(path@).subrange(n as int, i as int),
        decreases pc@.len() - i,
    {
        let ghost before = rest@;
        rest.push(string_from_chars(&pc[i]));
        assert(crate::context::views(rest@) =~= crate::context::views(before) + seq![pc@[i as int]@]);
        assert(components(path@).subrange(n as int, i + 1) =~= components(path@).subrange(
            n as int,
            i as int,
        ) + seq![components(path@)[i as int]]);
        i = i + 1;
    }
    assert(components(path@).subrange(n as int, pc@.len() as int) =~= components(path@).skip(
        n as int,
    ));
    crate::context::join_strings(&rest, "/")
}

// ---------------------------------------------------------------------------
// Paths under a parent
// ---------------------------------------------------------------------------

proof fn lemma_next_slash_child(parent: Seq<char>, s: Seq<char>, i: int)
    requires
        0 <= i <= parent.len(),
        s.len() > parent.len(),
        s.take(parent.len() as int) == parent,
        s[parent.len() as int] == '/',
    ensures
        next_slash(s, i) == next_slash(parent, i),
    decreases parent.len() - i,
{
    if i < parent.len() {
        assert(s[i] == s.take(parent.len() as int)[i]);
        lemma_next_slash_child(parent, s, i + 1);
    }
}

proof fn lemma_next_slash_none(s: Seq<char>, i: int)
    requires
        0 <= i <= s.len(),
        forall|k: int| i <= k < s.len() ==> s[k] != '/',
    ensures
        next_slash(s, i) == s.len(),
    decreases s.len() - i,
{
    if i < s.len() {
        lemma_next_slash_none(s, i + 1);
    }
}

proof fn lemma_comps_child(parent: Seq<char>, name: Seq<char>, i: int)
    requires
        0 <= i <= parent.len() + 1,
        name.len() > 0,
        name != seq!['.'],
        forall|k: int| 0 <= k < name.len() ==> name[k] != '/',
    ensures
        comps_from(parent + seq!['/'] + name, i) == comps_from(parent, i) + seq![name],
    decreases parent.len() + 1 - i,
{
    let s = parent + seq!['/'] + name;
    let n = parent.len() as int;
    assert(s.take(n) =~= parent);
    assert(s[n] == '/');
    if i == n + 1 {
        assert forall|k: int| n + 1 <= k < s.len() implies s[k] != '/' by {
            assert(s[k] == name[k - n - 1]);
        }
        lemma_next_slash_none(s, n + 1);
        assert(s.subrange(n + 1, s.len() as int) =~= name);
        assert(comps_from(s, s.len() + 1int) == Seq::<Seq<char>>::empty());
        assert(comps_from(s, i) =~= seq![name]);
        assert(comps_from(parent, i) + seq![name] =~= seq![name]);
    } else if i == n {
        assert(next_slash(s, n) == n);
        lemma_comps_child(parent, name, n + 1);
        assert(s.subrange(n, n) =~= Seq::<char>::empty());
        assert(comps_from(parent, n) + seq![name] =~= seq![name]);
    } else {
        lemma_next_slash_child(parent, s, i);
        lemma_next_slash(parent, i);
        let j = next_slash(parent, i);
        assert(s.subrange(i, j) =~= parent.subrange(i, j));
        lemma_comps_child(parent, name, j + 1);
        let seg = parent.subrange(i, j);
        if seg.len() == 0 || seg == seq!['.'] {
        } else {
            assert(seq![seg] + comps_from(s, j + 1) =~= (seq![seg] + comps_from(parent, j + 1)) + seq![name]);
        }
    }
}

/// A path written as `parent/name`, for one component `name` (not empty,
/// not `.`, without `/`), has the components of `parent` followed by `name`,
/// so it lies under `parent` (`Path::starts_with` compares whole
/// components), while `parent` does not lie under it; every path lies under
/// itself.
pub proof fn lemma_child_is_under(parent: Seq<char>, name: Seq<char>)
    requires
        parent.len() > 0,
        name.len() > 0,
        name != seq!['.'],
        forall|k: int| 0 <= k < name.len() ==> name[k] != '/',
    ensures
        components(parent + seq!['/'] + name) == components(parent).push(name),
        path_has_prefix(parent + seq!['/'] + name, parent),
        !path_has_prefix(parent, parent + seq!['/'] + name),
        path_has_prefix(parent, parent),
{
    let s = parent + seq!['/'] + name;
    assert(s[0] == parent[0]);
    if parent.len() > 1 {
        assert(s[1] == parent[1]);
    } else {
        assert(s[1] == '/');
    }
    lemma_comps_child(parent, name, 0);
    lemma_comps_child(parent, name, 1);
    if is_absolute(parent) {
        assert(seq![seq!['/']] + (comps_from(parent, 1) + seq![name]) =~= (seq![seq!['/']] + comps_from(parent, 1)).push(name));
    } else if parent[0] == '.' && (parent.len() == 1 || parent[1] == '/') {
        assert(seq![seq!['.']] + (comps_from(parent, 1) + seq![name]) =~= (seq![seq!['.']] + comps_from(parent, 1)).push(name));
    } else {
        assert(comps_from(parent, 0) + seq![name] =~= comps_from(parent, 0).push(name));
    }
    assert(components(s).take(components(parent).len() as int) =~= components(parent));
    assert(components(parent).take(components(parent).len() as int) =~= components(parent));
}

} // verus!
