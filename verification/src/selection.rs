//! Task selection, priorities and dependency checks for claiming.

use crate::context::{join, views};
use crate::error::BurlError;
use crate::naming::{has_path_parts, malformed_id_text, traversal_text, validate_task_id, well_formed_id};
use crate::task::{find_task, TaskIndex};
use crate::text::{chars_of, contains, occurs, lowercase, push_all, push_str, str_eq, string_from_chars, to_lowercase};
use vstd::prelude::*;

verus! {

broadcast use vstd::string::group_string_axioms;

/// Rank of a lowercased priority: `high` 0, `medium` 1, `low` 2, anything else 3.
pub open spec fn rank_of(p: Seq<char>) -> u32 {
    if p == "high"@ {
        0
    } else if p == "medium"@ {
        1
    } else if p == "low"@ {
        2
    } else {
        3
    }
}

/// Priority ordering for task selection (high > medium > low > none/other);
/// lower ranks are claimed first. Case-insensitive.
pub fn priority_rank(priority: &str) -> (r: u32)
    ensures
        r == rank_of(lowercase(priority@)),
{
    let low = to_lowercase(priority);
    if str_eq(low.as_str(), "high") {
        0
    } else if str_eq(low.as_str(), "medium") {
        1
    } else if str_eq(low.as_str(), "low") {
        2
    } else {
        3
    }
}

/// Whether a lowercased priority is one of the accepted levels.
pub open spec fn valid_priority(p: Seq<char>) -> bool {
    p == "high"@ || p == "medium"@ || p == "low"@
}

/// Validates a priority and normalizes it to lowercase.
pub fn validate_priority(priority: &str) -> (r: Result<String, BurlError>)
    ensures
        r is Ok <==> valid_priority(lowercase(priority@)),
        r matches Ok(s) ==> s@ == lowercase(priority@),
        r matches Err(e) ==> e is UserError && e.text() == "invalid priority '"@ + priority@
            + "': must be 'high', 'medium', or 'low'"@,
{
    let low = to_lowercase(priority);
    if str_eq(low.as_str(), "high") || str_eq(low.as_str(), "medium") || str_eq(low.as_str(), "low") {
        Ok(low)
    } else {
        let mut m: Vec<char> = Vec::new();
        push_str(&mut m, "invalid priority '");
        push_str(&mut m, priority);
        push_str(&mut m, "': must be 'high', 'medium', or 'low'");
        Err(BurlError::UserError(string_from_chars(&m)))
    }
}

// ---------------------------------------------------------------------------
// Dependencies
// ---------------------------------------------------------------------------

/// The description of an unmet dependency, if `dep` is unmet.
#[verifier::opaque]
pub open spec fn unmet_item(index: TaskIndex, dep: Seq<char>) -> Option<Seq<char>> {
    match find_task(index.tasks@, dep) {
        Some(t) => if t.bucket@ == "DONE"@ {
            None
        } else {
            Some(dep + " (currently in "@ + t.bucket@ + ")"@)
        },
        None => Some(dep + " (not found)"@),
    }
}

/// The descriptions of the unmet dependencies among `deps`, in order.
pub open spec fn unmet_items(index: TaskIndex, deps: Seq<Seq<char>>) -> Seq<Seq<char>>
    decreases deps.len(),
{
    if deps.len() == 0 {
        Seq::empty()
    } else {
        let rest = unmet_items(index, deps.drop_last());
        match unmet_item(index, deps.last()) {
            Some(item) => rest.push(item),
            None => rest,
        }
    }
}

/// Whether every dependency is a task in DONE.
pub open spec fn deps_satisfied(index: TaskIndex, deps: Seq<Seq<char>>) -> bool {
    forall|i: int| 0 <= i < deps.len() ==> unmet_item(index, #[trigger] deps[i]) is None
}

proof fn lemma_unmet_items_empty(index: TaskIndex, deps: Seq<Seq<char>>)
    ensures
        unmet_items(index, deps).len() == 0 <==> deps_satisfied(index, deps),
    decreases deps.len(),
{
    if deps.len() > 0 {
        lemma_unmet_items_empty(index, deps.drop_last());
        assert(deps.last() == deps[deps.len() - 1]);
        if deps_satisfied(index, deps) {
            assert forall|i: int| 0 <= i < deps.drop_last().len() implies unmet_item(
                index,
                #[trigger] deps.drop_last()[i],
            ) is None by {
                assert(deps.drop_last()[i] == deps[i]);
            }
        }
        if unmet_items(index, deps).len() == 0 {
            assert forall|i: int| 0 <= i < deps.len() implies unmet_item(
                index,
                #[trigger] deps[i],
            ) is None by {
                if i < deps.len() - 1 {
                    assert(deps.drop_last()[i] == deps[i]);
                }
            }
        }
    }
}

/// The message reported when dependencies are unmet.
pub open spec fn unmet_message(items: Seq<Seq<char>>) -> Seq<char> {
    "cannot claim task: dependencies not satisfied.\n\nUnmet dependencies:\n  - "@ + join(
        items,
        "\n  - "@,
    ) + "\n\nComplete these tasks first before claiming this one."@
}

proof fn lemma_occurs_extend(a: Seq<char>, s: Seq<char>, b: Seq<char>, pat: Seq<char>, i: int)
    requires
        occurs(s, pat, i),
    ensures
        occurs(a + s + b, pat, a.len() + i),
{
    assert((a + s + b).subrange(a.len() + i, a.len() + i + pat.len()) =~= s.subrange(i, i + pat.len()));
}

proof fn lemma_join_occurs(items: Seq<Seq<char>>, sep: Seq<char>, k: int)
    requires
        0 <= k < items.len(),
    ensures
        exists|p: int| #[trigger] occurs(join(items, sep), items[k], p),
    decreases items.len(),
{
    let e = Seq::<char>::empty();
    if items.len() == 1 {
        assert(items[0].subrange(0, items[0].len() as int) =~= items[0]);
        assert(occurs(join(items, sep), items[k], 0));
    } else if k == items.len() - 1 {
        let j = join(items.drop_last(), sep);
        assert(items[k].subrange(0, items[k].len() as int) =~= items[k]);
        lemma_occurs_extend(j + sep, items[k], e, items[k], 0);
        assert(j + sep + items[k] + e =~= join(items, sep));
        assert(occurs(join(items, sep), items[k], (j + sep).len() as int));
    } else {
        let d = items.drop_last();
        lemma_join_occurs(d, sep, k);
        assert(d[k] == items[k]);
        let p = choose|p: int| #[trigger] occurs(join(d, sep), d[k], p);
        lemma_occurs_extend(e, join(d, sep), sep + items.last(), items[k], p);
        assert(e + join(d, sep) + (sep + items.last()) =~= join(items, sep));
        assert(occurs(join(items, sep), items[k], p));
    }
}

proof fn lemma_unmet_in_items(index: TaskIndex, deps: Seq<Seq<char>>, i: int)
    requires
        0 <= i < deps.len(),
        unmet_item(index, deps[i]) is Some,
    ensures
        exists|k: int|
            0 <= k < unmet_items(index, deps).len() && #[trigger] unmet_items(index, deps)[k] == unmet_item(
                index,
                deps[i],
            )->Some_0,
    decreases deps.len(),
{
    let rest = unmet_items(index, deps.drop_last());
    if i == deps.len() - 1 {
        assert(deps.last() == deps[i]);
        assert(unmet_items(index, deps)[rest.len() as int] == unmet_item(index, deps[i])->Some_0);
    } else {
        assert(deps.drop_last()[i] == deps[i]);
        lemma_unmet_in_items(index, deps.drop_last(), i);
        let k = choose|k: int|
            0 <= k < rest.len() && #[trigger] rest[k] == unmet_item(index, deps[i])->Some_0;
        assert(unmet_items(index, deps)[k] == rest[k]);
    }
}

/// A refused claim names every unmet dependency: a dependency that is no
/// task of the index, or a task outside DONE, occurs in the message.
pub proof fn lemma_refusal_names_unmet(index: TaskIndex, deps: Seq<Seq<char>>, i: int)
    requires
        0 <= i < deps.len(),
        !(find_task(index.tasks@, deps[i]) matches Some(t) && t.bucket@ == "DONE"@),
    ensures
        !deps_satisfied(index, deps),
        contains(unmet_message(unmet_items(index, deps)), deps[i]),
{
    reveal(unmet_item);
    let d = deps[i];
    let item = unmet_item(index, d)->Some_0;
    assert(item.subrange(0, d.len() as int) =~= d);
    assert(occurs(item, d, 0));
    lemma_unmet_in_items(index, deps, i);
    let items = unmet_items(index, deps);
    let k = choose|k: int| 0 <= k < items.len() && #[trigger] items[k] == item;
    let sep = "\n  - "@;
    lemma_join_occurs(items, sep, k);
    let p = choose|p: int| #[trigger] occurs(join(items, sep), items[k], p);
    let head = "cannot claim task: dependencies not satisfied.\n\nUnmet dependencies:\n  - "@;
    let tail = "\n\nComplete these tasks first before claiming this one."@;
    lemma_occurs_extend(head, join(items, sep), tail, item, p);
    let m = unmet_message(items);
    let q = head.len() + p;
    assert(m.subrange(q, q + d.len()) =~= item.subrange(0, d.len() as int)) by {
        assert forall|x: int| 0 <= x < d.len() implies m[q + x] == item[x] by {
            assert(m.subrange(q, q + item.len())[x] == m[q + x]);
        }
    }
    assert(occurs(m, d, q));
}

/// Checks that every dependency of a task is in DONE.
pub fn check_dependencies_satisfied(depends_on: &Vec<String>, index: &TaskIndex) -> (r: Result<(), BurlError>)
    ensures
        r is Ok <==> deps_satisfied(*index, views(depends_on@)),
        r matches Err(e) ==> e is UserError && e.text() == unmet_message(
            unmet_items(*index, views(depends_on@)),
        ),
{
    let mut items: Vec<Vec<char>> = Vec::new();
    let mut i: usize = 0;
    let ghost deps = views(depends_on@);
    while i < depends_on.len()
        invariant
            i <= depends_on@.len(),
            deps == views(depends_on@),
            items@.map_values(|v: Vec<char>| v@) == unmet_items(*index, deps.take(i as int)),
        decreases depends_on@.len() - i,
    {
        let dep = depends_on[i].as_str();
        assert(deps.take(i + 1).drop_last() =~= deps.take(i as int));
        assert(deps.take(i + 1).last() == dep@);
        let ghost before = items@.map_values(|v: Vec<char>| v@);
        proof {
            reveal(unmet_item);
        }
        match index.find(dep) {
            Some(info) => {
                if !str_eq(info.bucket.as_str(), "DONE") {
                    let mut m = chars_of(dep);
                    push_str(&mut m, " (currently in ");
                    push_str(&mut m, info.bucket.as_str());
                    push_str(&mut m, ")");
                    items.push(m);
                    assert(items@.map_values(|v: Vec<char>| v@) =~= before.push(
                        dep@ + " (currently in "@ + info.bucket@ + ")"@,
                    ));
                }
            },
            None => {
                let mut m = chars_of(dep);
                push_str(&mut m, " (not found)");
                items.push(m);
                assert(items@.map_values(|v: Vec<char>| v@) =~= before.push(dep@ + " (not found)"@));
            },
        }
        i = i + 1;
    }
    assert(deps.take(depends_on@.len() as int) =~= deps);
    proof {
        lemma_unmet_items_empty(*index, deps);
    }
    if items.len() == 0 {
        return Ok(());
    }
    let mut m: Vec<char> = Vec::new();
    push_str(&mut m, "cannot claim task: dependencies not satisfied.\n\nUnmet dependencies:\n  - ");
    let joined = join_chars(&items, "\n  - ");
    push_all(&mut m, &joined);
    push_str(&mut m, "\n\nComplete these tasks first before claiming this one.");
    Err(BurlError::UserError(string_from_chars(&m)))
}

/// Joins character sequences with a separator.
pub fn join_chars(items: &Vec<Vec<char>>, sep: &str) -> (r: Vec<char>)
    ensures
        r@ == join(items@.map_values(|v: Vec<char>| v@), sep@),
{
    let sepc = chars_of(sep);
    let ghost all = items@.map_values(|v: Vec<char>| v@);
    let mut out: Vec<char> = Vec::new();
    let mut i: usize = 0;
    while i < items.len()
        invariant
            i <= items@.len(),
            sepc@ == sep@,
            all == items@.map_values(|v: Vec<char>| v@),
            out@ == join(all.take(i as int), sep@),
        decreases items@.len() - i,
    {
        if i > 0 {
            push_all(&mut out, &sepc);
        }
        push_all(&mut out, &items[i]);
        i = i + 1;
        assert(all.take(i as int).drop_last() =~= all.take(i - 1));
        assert(out@ =~= join(all.take(i as int), sep@)) by {
            if i == 1 {
                assert(all.take(0) =~= Seq::<Seq<char>>::empty());
            }
        }
    }
    assert(all.take(items@.len() as int) =~= all);
    out
}

// ---------------------------------------------------------------------------
// Selecting the next task
// ---------------------------------------------------------------------------

/// A READY task considered for claiming.
#[derive(Debug, Clone)]
pub struct ReadyTask {
    /// Task identifier.
    pub id: String,
    /// Numeric part of the identifier.
    pub number: u32,
    /// Priority from the task file.
    pub priority: String,
    /// Dependencies from the task file.
    pub depends_on: Vec<String>,
}

/// Whether a candidate may be claimed now.
pub open spec fn claimable(index: TaskIndex, t: ReadyTask) -> bool {
    deps_satisfied(index, views(t.depends_on@))
}

/// Whether candidate `a` (at position `i`) comes before candidate `b` (at
/// position `j`): higher priority first, then lower number, then input order.
pub open spec fn comes_before(a: ReadyTask, i: int, b: ReadyTask, j: int) -> bool {
    let ra = rank_of(lowercase(a.priority@));
    let rb = rank_of(lowercase(b.priority@));
    ||| ra < rb
    ||| ra == rb && a.number < b.number
    ||| ra == rb && a.number == b.number && i <= j
}

/// Whether a task of (lowercased) priority `p` may be claimed before one of
/// priority `q`: high before medium before low before any other priority.
pub open spec fn level_at_least(p: Seq<char>, q: Seq<char>) -> bool {
    &&& q == "high"@ ==> p == "high"@
    &&& q == "medium"@ ==> p == "high"@ || p == "medium"@
    &&& q == "low"@ ==> p == "high"@ || p == "medium"@ || p == "low"@
}

/// Whether two (lowercased) priorities stand at the same level: equal, or
/// neither of high, medium and low.
pub open spec fn same_level(p: Seq<char>, q: Seq<char>) -> bool {
    p == q || (!valid_priority(p) && !valid_priority(q))
}

/// The ranks order the levels: 0 is high, 1 medium, 2 low, 3 anything else.
pub proof fn lemma_rank_levels(p: Seq<char>)
    ensures
        rank_of(p) == 0 <==> p == "high"@,
        rank_of(p) == 1 <==> p == "medium"@,
        rank_of(p) == 2 <==> p == "low"@,
        rank_of(p) == 3 <==> !valid_priority(p),
{
    reveal_strlit("high");
    reveal_strlit("medium");
    reveal_strlit("low");
    assert("high"@ != "medium"@) by {
        assert("high"@.len() != "medium"@.len());
    }
    assert("high"@ != "low"@) by {
        assert("high"@[0] != "low"@[0]);
    }
    assert("medium"@ != "low"@) by {
        assert("medium"@.len() != "low"@.len());
    }
}

/// A candidate that comes before another has a priority at least as high,
/// and, at the same priority level, a number no larger.
pub proof fn lemma_comes_before_respects_priority(a: ReadyTask, i: int, b: ReadyTask, j: int)
    requires
        comes_before(a, i, b, j),
    ensures
        level_at_least(lowercase(a.priority@), lowercase(b.priority@)),
        same_level(lowercase(a.priority@), lowercase(b.priority@)) ==> a.number <= b.number,
{
    lemma_rank_levels(lowercase(a.priority@));
    lemma_rank_levels(lowercase(b.priority@));
}

/// Selects the next claimable task deterministically: among the candidates
/// whose dependencies are all in DONE, the one with the highest priority,
/// then the lowest number (first in input order on ties).
pub fn select_next_task_id(ready_tasks: &Vec<ReadyTask>, index: &TaskIndex) -> (r: Option<String>)
    ensures
        r is None <==> forall|i: int| 0 <= i < ready_tasks@.len() ==> !claimable(*index, #[trigger] ready_tasks@[i]),
        r matches Some(id) ==> exists|k: int|
            0 <= k < ready_tasks@.len() && ready_tasks@[k].id@ == id@ && claimable(*index, ready_tasks@[k])
                && forall|m: int| 0 <= m < ready_tasks@.len() && claimable(*index, #[trigger] ready_tasks@[m])
                    ==> comes_before(ready_tasks@[k], k, ready_tasks@[m], m),
        r matches Some(id) ==> exists|k: int|
            0 <= k < ready_tasks@.len() && ready_tasks@[k].id@ == id@ && claimable(*index, ready_tasks@[k])
                && forall|m: int| 0 <= m < ready_tasks@.len() && claimable(*index, #[trigger] ready_tasks@[m])
                    ==> level_at_least(lowercase(ready_tasks@[k].priority@), lowercase(ready_tasks@[m].priority@))
                    && (same_level(lowercase(ready_tasks@[k].priority@), lowercase(ready_tasks@[m].priority@))
                    ==> ready_tasks@[k].number <= ready_tasks@[m].number),
{
    let mut best: Option<usize> = None;
    let mut best_rank: u32 = 0;
    let mut i: usize = 0;
    while i < ready_tasks.len()
        invariant
            i <= ready_tasks@.len(),
            match best {
                Some(k) => k < i && claimable(*index, ready_tasks@[k as int]) && best_rank
                    == rank_of(lowercase(ready_tasks@[k as int].priority@)) && forall|m: int|
                    0 <= m < i && claimable(*index, #[trigger] ready_tasks@[m]) ==> comes_before(
                        ready_tasks@[k as int],
                        k as int,
                        ready_tasks@[m],
                        m,
                    ),
                None => forall|m: int| 0 <= m < i ==> !claimable(*index, #[trigger] ready_tasks@[m]),
            },
        decreases ready_tasks@.len() - i,
    {
        let cand = &ready_tasks[i];
        let ok = check_dependencies_satisfied(&cand.depends_on, index).is_ok();
        if ok {
            let rank = priority_rank(cand.priority.as_str());
            match best {
                None => {
                    best = Some(i);
                    best_rank = rank;
                },
                Some(k) => {
                    if rank < best_rank || (rank == best_rank && cand.number
                        < ready_tasks[k].number) {
                        best = Some(i);
                        best_rank = rank;
                    }
                },
            }
        }
        i = i + 1;
    }
    match best {
        Some(k) => {
            assert forall|m: int| 0 <= m < ready_tasks@.len() && claimable(*index, #[trigger] ready_tasks@[m])
                implies level_at_least(lowercase(ready_tasks@[k as int].priority@), lowercase(ready_tasks@[m].priority@))
                && (same_level(lowercase(ready_tasks@[k as int].priority@), lowercase(ready_tasks@[m].priority@))
                ==> ready_tasks@[k as int].number <= ready_tasks@[m].number) by {
                lemma_comes_before_respects_priority(ready_tasks@[k as int], k as int, ready_tasks@[m], m);
            }
            Some(ready_tasks[k].id.clone())
        },
        None => None,
    }
}


/// What claiming without a task answers when nothing can be claimed.
pub open spec fn nothing_claimable_text() -> Seq<char> {
    "no claimable tasks in READY.\n\nAll READY tasks may have unmet dependencies, or there are no READY tasks.\nUse `burl status` to see the workflow state."@
}

/// The task `burl claim` acts on: the one named (checked and written in
/// upper case), else the next claimable one.
pub fn claim_target(task_id: Option<&str>, ready_tasks: &Vec<ReadyTask>, index: &TaskIndex) -> (r: Result<String, BurlError>)
    ensures
        task_id matches Some(id) ==> (has_path_parts(id@) ==> (r matches Err(BurlError::UserError(m)) && m@
            == traversal_text(id@))),
        task_id matches Some(id) ==> (!has_path_parts(id@) && !well_formed_id(id@) ==> (r matches Err(
            BurlError::UserError(m),
        ) && m@ == malformed_id_text(id@))),
        task_id matches Some(id) ==> (!has_path_parts(id@) && well_formed_id(id@) ==> (r matches Ok(s) && s@
            == "TASK-"@ + id@.skip(5))),
        task_id is None ==> match r {
            Ok(s) => exists|k: int|
                0 <= k < ready_tasks@.len() && ready_tasks@[k].id@ == s@ && claimable(*index, ready_tasks@[k])
                    && forall|m: int| 0 <= m < ready_tasks@.len() && claimable(*index, #[trigger] ready_tasks@[m])
                        ==> comes_before(ready_tasks@[k], k, ready_tasks@[m], m),
            Err(e) => (e matches BurlError::UserError(m) && m@ == nothing_claimable_text()) && forall|i: int|
                0 <= i < ready_tasks@.len() ==> !claimable(*index, #[trigger] ready_tasks@[i]),
        },
{
    match task_id {
        Some(id) => validate_task_id(id),
        None => match select_next_task_id(ready_tasks, index) {
            Some(s) => Ok(s),
            None => Err(BurlError::UserError(string_from_chars(&chars_of(
                "no claimable tasks in READY.\n\nAll READY tasks may have unmet dependencies, or there are no READY tasks.\nUse `burl status` to see the workflow state.",
            )))),
        },
    }
}

} // verus!
