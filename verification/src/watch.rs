//! The decisions of the `watch` automation loop: how many tasks to claim
//! in a round, which claimed tasks get an agent, and which QA tasks to
//! validate or approve (each task once per commit it is at).

use crate::cli::WatchArgs;
use crate::context::views;
use crate::gates::select;
use crate::text::{owned, str_eq};
use vstd::prelude::*;

verus! {

broadcast use vstd::string::group_string_axioms;

/// How many tasks a round claims: enough to bring the tasks in DOING up to
/// `max_parallel`, when claiming is on.
pub open spec fn claims_wanted_spec(claim: bool, doing: nat, max_parallel: nat) -> nat {
    if claim && doing < max_parallel {
        (max_parallel - doing) as nat
    } else {
        0
    }
}

/// How many tasks this round of `watch` claims.
pub fn claims_wanted(args: &WatchArgs, doing: usize, max_parallel: u32) -> (r: u64)
    ensures
        r == claims_wanted_spec(args.claim, doing as nat, max_parallel as nat),
{
    if args.claim && (doing as u64) < (max_parallel as u64) {
        max_parallel as u64 - doing as u64
    } else {
        0
    }
}

/// The tasks claimed in this round that get an agent: all of them with
/// `--dispatch`, none without.
pub fn dispatch_targets(args: &WatchArgs, claimed: &Vec<String>) -> (r: Vec<String>)
    ensures
        args.dispatch ==> views(r@) == views(claimed@),
        !args.dispatch ==> r@.len() == 0,
{
    let mut r: Vec<String> = Vec::new();
    if args.dispatch {
        let mut i: usize = 0;
        while i < claimed.len()
            invariant
                i <= claimed@.len(),
                views(r@) == views(claimed@.take(i as int)),
            decreases claimed@.len() - i,
        {
            let ghost before = r@;
            assert(claimed@.take(i + 1) =~= claimed@.take(i as int).push(claimed@[i as int]));
            r.push(owned(claimed[i].as_str()));
            assert(views(r@) =~= views(before).push(claimed@[i as int]@));
            assert(views(claimed@.take(i + 1)) =~= views(claimed@.take(i as int)).push(claimed@[i as int]@));
            i = i + 1;
        }
        assert(claimed@.take(claimed@.len() as int) =~= claimed@);
    }
    r
}

/// A QA task at a commit: its identifier and the commit its branch is at.
pub open spec fn qa_view(q: (String, String)) -> (Seq<char>, Seq<char>) {
    (q.0@, q.1@)
}

/// Plain values of some QA tasks.
pub open spec fn qa_views(qs: Seq<(String, String)>) -> Seq<(Seq<char>, Seq<char>)> {
    qs.map_values(|q: (String, String)| qa_view(q))
}

/// The QA tasks a round processes: those whose commit was not processed
/// before (none when QA processing is off).
pub open spec fn qa_due(qa: bool, tasks: Seq<(Seq<char>, Seq<char>)>, seen: Seq<(Seq<char>, Seq<char>)>) -> Seq<
    (Seq<char>, Seq<char>),
> {
    if qa {
        select(tasks, |t: (Seq<char>, Seq<char>)| !seen.contains(t))
    } else {
        Seq::empty()
    }
}

fn seen_before(seen: &Vec<(String, String)>, id: &str, sha: &str) -> (r: bool)
    ensures
        r == qa_views(seen@).contains((id@, sha@)),
{
    let mut i: usize = 0;
    while i < seen.len()
        invariant
            i <= seen@.len(),
            forall|k: int| 0 <= k < i ==> qa_view(#[trigger] seen@[k]) != (id@, sha@),
        decreases seen@.len() - i,
    {
        if str_eq(seen[i].0.as_str(), id) && str_eq(seen[i].1.as_str(), sha) {
            assert(qa_views(seen@)[i as int] == (id@, sha@));
            return true;
        }
        i = i + 1;
    }
    assert forall|k: int| 0 <= k < qa_views(seen@).len() implies qa_views(seen@)[k] != (id@, sha@) by {
        assert(qa_views(seen@)[k] == qa_view(seen@[k]));
    }
    false
}

/// The QA tasks to validate this round (or approve, with `--approve`):
/// those, in order, whose commit has not been processed in an earlier round.
pub fn qa_targets(args: &WatchArgs, tasks: &Vec<(String, String)>, seen: &Vec<(String, String)>) -> (r: Vec<
    (String, String),
>)
    ensures
        qa_views(r@) == qa_due(args.qa || args.approve, qa_views(tasks@), qa_views(seen@)),
{
    let ghost tv = qa_views(tasks@);
    let ghost p = |t: (Seq<char>, Seq<char>)| !qa_views(seen@).contains(t);
    let mut r: Vec<(String, String)> = Vec::new();
    if args.qa || args.approve {
        let mut i: usize = 0;
        while i < tasks.len()
            invariant
                i <= tasks@.len(),
                tv == qa_views(tasks@),
                p == (|t: (Seq<char>, Seq<char>)| !qa_views(seen@).contains(t)),
                qa_views(r@) == select(tv.take(i as int), p),
            decreases tasks@.len() - i,
        {
            assert(tv.take(i + 1).drop_last() =~= tv.take(i as int));
            assert(tv.take(i + 1).last() == qa_view(tasks@[i as int]));
            let id = tasks[i].0.as_str();
            let sha = tasks[i].1.as_str();
            if !seen_before(seen, id, sha) {
                let ghost before = r@;
                r.push((owned(id), owned(sha)));
                assert(qa_views(r@) =~= qa_views(before).push((id@, sha@)));
            }
            i = i + 1;
        }
        assert(tv.take(tasks@.len() as int) =~= tv);
    }
    r
}

} // verus!
