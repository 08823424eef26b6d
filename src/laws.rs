//! Properties of the search that hold for every input, proved from the
//! specifications that the engine's functions are verified against.

use vstd::prelude::*;

use crate::candidate::{DirEntryInfo, PathProbe};
use crate::symlink::{proceeds, resolution_of, seen_after};
use crate::walk::{
    has_git_dir, is_git_entry, is_hidden_name, is_queued, name_view, outcome_of, queued,
    DirectoryOutcome,
};

verus! {

/// The real path that a resolved candidate is listed at: the link's target
/// where a link was followed, else the candidate's own path.
pub open spec fn entered_path(path: Seq<char>, probe: PathProbe) -> Seq<char> {
    match probe {
        PathProbe::Link(target) => target@,
        _ => path,
    }
}

/// Prune-on-match: a listed directory that holds a `.git` directory is a
/// repository root outside paranoid mode, whatever the hidden-entry rule
/// says of `.git`, and a root adds nothing to the stack, so nothing below
/// it is ever searched or reported.
pub proof fn lemma_git_dir_is_matched_and_pruned(
    entries: Seq<DirEntryInfo>,
    i: int,
    depth: nat,
    show_all: bool,
    max_depth: nat,
)
    requires
        0 <= i < entries.len(),
        is_git_entry(entries[i]),
    ensures
        outcome_of(entries, false, false) == DirectoryOutcome::Matched,
        is_hidden_name(name_view(entries[i])),
        !is_queued(entries[i], depth, show_all, max_depth),
{
    assert(has_git_dir(entries));
}

/// In follow mode a candidate is listed only at a real path that was not
/// entered before, and that path is entered from then on; the set of
/// entered paths never shrinks, and grows by one with each listing.
pub proof fn lemma_follow_enters_new_path(seen: Set<Seq<char>>, path: Seq<char>, probe: PathProbe)
    requires
        seen.finite(),
    ensures
        seen.subset_of(seen_after(seen, path, probe)),
        seen_after(seen, path, probe).finite(),
        proceeds(resolution_of(true, seen, path, probe).resolution) ==> {
            &&& !seen.contains(entered_path(path, probe))
            &&& seen_after(seen, path, probe) == seen.insert(entered_path(path, probe))
            &&& seen_after(seen, path, probe).len() == seen.len() + 1
        },
        seen.contains(entered_path(path, probe)) ==> !proceeds(
            resolution_of(true, seen, path, probe).resolution,
        ),
{
}

/// A set of entered paths that lies within a finite set of real paths is
/// finite and no larger than it.
pub proof fn lemma_entered_paths_bounded(seen: Set<Seq<char>>, real_paths: Set<Seq<char>>)
    requires
        real_paths.finite(),
        seen.subset_of(real_paths),
    ensures
        seen.finite(),
        seen.len() <= real_paths.len(),
{
    vstd::set_lib::lemma_len_subset(seen, real_paths);
}

/// The entered paths once the first `n` decisions of a follow-mode walk are
/// made, starting from `start`. Each decision is a candidate's path with the
/// probe's answer; `Walker::resolve` moves a walker's visited set by exactly
/// one such step, and `Walker::new` starts it empty.
pub open spec fn seen_through(
    start: Set<Seq<char>>,
    steps: Seq<(Seq<char>, PathProbe)>,
    n: nat,
) -> Set<Seq<char>>
    decreases n,
{
    if n == 0 {
        start
    } else {
        let step = steps[n - 1];
        seen_after(seen_through(start, steps, (n - 1) as nat), step.0, step.1)
    }
}

/// Decision `i` of the walk lets its candidate be listed.
pub open spec fn step_lists(start: Set<Seq<char>>, steps: Seq<(Seq<char>, PathProbe)>, i: nat) -> bool {
    proceeds(
        resolution_of(true, seen_through(start, steps, i), steps[i as int].0, steps[i as int].1).resolution,
    )
}

/// How many of the first `n` decisions let their candidate be listed.
pub open spec fn listings(start: Set<Seq<char>>, steps: Seq<(Seq<char>, PathProbe)>, n: nat) -> nat
    decreases n,
{
    if n == 0 {
        0
    } else {
        listings(start, steps, (n - 1) as nat) + if step_lists(start, steps, (n - 1) as nat) {
            1nat
        } else {
            0nat
        }
    }
}

proof fn lemma_seen_after_grows(seen: Set<Seq<char>>, path: Seq<char>, probe: PathProbe)
    ensures
        seen.subset_of(seen_after(seen, path, probe)),
        proceeds(resolution_of(true, seen, path, probe).resolution) ==> seen_after(
            seen,
            path,
            probe,
        ) == seen.insert(entered_path(path, probe)) && !seen.contains(entered_path(path, probe)),
        !proceeds(resolution_of(true, seen, path, probe).resolution) ==> seen_after(
            seen,
            path,
            probe,
        ) == seen,
{
    if !proceeds(resolution_of(true, seen, path, probe).resolution) {
        assert(seen_after(seen, path, probe) =~= seen);
    }
}

proof fn lemma_seen_through_grows(
    start: Set<Seq<char>>,
    steps: Seq<(Seq<char>, PathProbe)>,
    i: nat,
    j: nat,
)
    requires
        i <= j,
    ensures
        seen_through(start, steps, i).subset_of(seen_through(start, steps, j)),
    decreases j - i,
{
    if i < j {
        lemma_seen_through_grows(start, steps, i, (j - 1) as nat);
        let step = steps[j - 1];
        lemma_seen_after_grows(seen_through(start, steps, (j - 1) as nat), step.0, step.1);
    }
}

/// Each decision that lets a candidate be listed enters one new real path,
/// and no other decision enters any: after `n` decisions the entered paths
/// are the starting ones plus one per listing.
pub proof fn lemma_seen_through_len(
    start: Set<Seq<char>>,
    steps: Seq<(Seq<char>, PathProbe)>,
    n: nat,
)
    requires
        start.finite(),
    ensures
        seen_through(start, steps, n).finite(),
        seen_through(start, steps, n).len() == start.len() + listings(start, steps, n),
    decreases n,
{
    if n > 0 {
        let m = (n - 1) as nat;
        lemma_seen_through_len(start, steps, m);
        let step = steps[n - 1];
        lemma_seen_after_grows(seen_through(start, steps, m), step.0, step.1);
    }
}

/// Termination of a follow-mode walk, whatever cycles its links form: when
/// every path it enters is one of finitely many real paths, it lists at most
/// as many directories as there are real paths it had not entered at the
/// start (all of them, from `Walker::new`'s empty start).
pub proof fn lemma_walk_listings_bounded(
    start: Set<Seq<char>>,
    steps: Seq<(Seq<char>, PathProbe)>,
    n: nat,
    real_paths: Set<Seq<char>>,
)
    requires
        start.finite(),
        real_paths.finite(),
        seen_through(start, steps, n).subset_of(real_paths),
    ensures
        start.len() + listings(start, steps, n) <= real_paths.len(),
{
    lemma_seen_through_len(start, steps, n);
    vstd::set_lib::lemma_len_subset(seen_through(start, steps, n), real_paths);
}

/// No real directory is listed twice in a follow-mode walk: of any two
/// decisions in the sequence that both let their candidate be listed, the
/// real paths listed differ.
pub proof fn lemma_walk_lists_each_real_path_once(
    start: Set<Seq<char>>,
    steps: Seq<(Seq<char>, PathProbe)>,
    i: nat,
    j: nat,
)
    requires
        i < j < steps.len(),
        step_lists(start, steps, i),
        step_lists(start, steps, j),
    ensures
        entered_path(steps[i as int].0, steps[i as int].1) != entered_path(
            steps[j as int].0,
            steps[j as int].1,
        ),
{
    let step = steps[i as int];
    lemma_seen_after_grows(seen_through(start, steps, i), step.0, step.1);
    assert(seen_through(start, steps, i + 1) == seen_after(
        seen_through(start, steps, i),
        step.0,
        step.1,
    ));
    lemma_seen_through_grows(start, steps, i + 1, j);
    let later = steps[j as int];
    lemma_seen_after_grows(seen_through(start, steps, j), later.0, later.1);
}

/// No real directory is listed twice in one follow-mode walk: once a
/// candidate has been listed at a real path, any later candidate that
/// resolves to the same real path (through a link cycle, or any other way)
/// is abandoned, never listed.
pub proof fn lemma_real_path_listed_once(
    seen: Set<Seq<char>>,
    first_path: Seq<char>,
    first_probe: PathProbe,
    later_seen: Set<Seq<char>>,
    later_path: Seq<char>,
    later_probe: PathProbe,
)
    requires
        proceeds(resolution_of(true, seen, first_path, first_probe).resolution),
        seen_after(seen, first_path, first_probe).subset_of(later_seen),
        entered_path(later_path, later_probe) == entered_path(first_path, first_probe),
    ensures
        !proceeds(resolution_of(true, later_seen, later_path, later_probe).resolution),
{
    assert(later_seen.contains(entered_path(first_path, first_probe)));
}

/// Some entry of the listing has path `p` and a name that is not hidden.
pub open spec fn from_visible_entry(entries: Seq<DirEntryInfo>, p: Seq<char>) -> bool {
    exists|i: int|
        0 <= i < entries.len() && #[trigger] entries[i].path@ == p && !is_hidden_name(
            name_view(entries[i]),
        )
}

/// The hidden-entry rule: without `show_all`, every candidate that a listing
/// queues comes from an entry whose name is valid text not starting with `.`.
pub proof fn lemma_hidden_never_queued(entries: Seq<DirEntryInfo>, depth: nat, max_depth: nat)
    ensures
        forall|k: int|
            0 <= k < queued(entries, depth, false, max_depth).len() ==> from_visible_entry(
                entries,
                #[trigger] queued(entries, depth, false, max_depth)[k].0,
            ),
    decreases entries.len(),
{
    if entries.len() > 0 {
        let prev = entries.drop_last();
        lemma_hidden_never_queued(prev, depth, max_depth);
        let q = queued(entries, depth, false, max_depth);
        let qp = queued(prev, depth, false, max_depth);
        assert forall|k: int| 0 <= k < q.len() implies from_visible_entry(entries, #[trigger] q[k].0) by {
            if k < qp.len() {
                assert(q[k] == qp[k]);
                assert(from_visible_entry(prev, qp[k].0));
                let i = choose|i: int|
                    0 <= i < prev.len() && #[trigger] prev[i].path@ == qp[k].0 && !is_hidden_name(
                        name_view(prev[i]),
                    );
                assert(entries[i] == prev[i]);
                assert(entries[i].path@ == q[k].0);
            } else {
                let last = entries.len() - 1;
                assert(entries[last] == entries.last());
                assert(is_queued(entries.last(), depth, false, max_depth));
                assert(entries[last].path@ == q[k].0);
            }
        }
    }
}

/// The depth limit: every queued candidate is exactly one level below its
/// parent and no deeper than the limit.
pub proof fn lemma_queued_within_depth(
    entries: Seq<DirEntryInfo>,
    depth: nat,
    show_all: bool,
    max_depth: nat,
)
    ensures
        forall|k: int|
            0 <= k < queued(entries, depth, show_all, max_depth).len() ==> {
                &&& #[trigger] queued(entries, depth, show_all, max_depth)[k].1 == depth + 1
                &&& queued(entries, depth, show_all, max_depth)[k].1 <= max_depth
            },
    decreases entries.len(),
{
    if entries.len() > 0 {
        let prev = entries.drop_last();
        lemma_queued_within_depth(prev, depth, show_all, max_depth);
        let q = queued(entries, depth, show_all, max_depth);
        let qp = queued(prev, depth, show_all, max_depth);
        assert forall|k: int| 0 <= k < q.len() implies #[trigger] q[k].1 == depth + 1 && q[k].1
            <= max_depth by {
            if k < qp.len() {
                assert(q[k] == qp[k]);
            }
        }
    }
}

/// With the limit lifted (`usize::MAX`, as `--any-depth` sets it), the depth
/// never keeps an entry off the stack: what is queued is what an unbounded
/// limit would queue.
pub proof fn lemma_unbounded_depth(e: DirEntryInfo, depth: nat, show_all: bool, bound: nat)
    requires
        depth < usize::MAX,
        depth < bound,
    ensures
        is_queued(e, depth, show_all, usize::MAX as nat) == is_queued(e, depth, show_all, bound),
{
}

/// Paranoid mode: a `.git` directory that the check does not confirm is
/// never reported as a repository root.
pub proof fn lemma_paranoid_rejection(entries: Seq<DirEntryInfo>)
    ensures
        outcome_of(entries, true, false) != DirectoryOutcome::Matched,
        has_git_dir(entries) ==> outcome_of(entries, true, false) == DirectoryOutcome::Rejected,
{
}

} // verus!
