use vstd::prelude::*;

use crate::candidate::{PathProbe, SearchCandidate};

verus! {

/// How symbolic links met during the walk are treated.
pub enum SymlinkBehaviour {
    /// Links, and entries whose type cannot be read, are not entered.
    Skip,
    /// Links are entered at their canonical target; each real path is
    /// entered at most once.
    Follow(FollowState),
}

/// The real paths already entered during one walk in follow mode.
pub struct FollowState {
    seen_items: Vec<String>,
}

/// What the policy decided for one candidate.
#[derive(Debug)]
pub enum SymlinkResolveOutcome {
    /// An ordinary entry: list it.
    NotSymlink,
    /// A link, or an entry of unknown or special type, in skip mode: abandon it.
    SkipSymlink,
    /// A link in follow mode: list its target.
    FollowSymlink,
    /// The real path was entered before: abandon it.
    AlreadyTraversed,
    /// The link's target could not be canonicalized: abandon it.
    CanonicalizeFailed(String),
    /// The entry could not be read as a link: abandon it.
    ReadLinkFailed(String),
}

/// The decision, with the path that replaces the candidate's own where a
/// link was resolved.
#[derive(Debug)]
pub struct SymlinkResolveResult {
    pub resolution: SymlinkResolveOutcome,
    pub updated_path: Option<String>,
}

impl View for FollowState {
    type V = Set<Seq<char>>;

    closed spec fn view(&self) -> Set<Seq<char>> {
        Set::new(
            |p: Seq<char>|
                exists|i: int| 0 <= i < self.seen_items.len() && #[trigger] self.seen_items[i]@ == p,
        )
    }
}

impl FollowState {
    pub fn new() -> (r: FollowState)
        ensures
            r@ == Set::<Seq<char>>::empty(),
            r@.finite(),
    {
        let r = FollowState { seen_items: Vec::new() };
        assert(r@ =~= Set::<Seq<char>>::empty());
        proof {
            r.lemma_finite();
        }
        r
    }

    /// Every visited set is finite: it holds the paths recorded so far.
    pub proof fn lemma_finite(&self)
        ensures
            self@.finite(),
    {
        let paths = self.seen_items@.map_values(|item: String| item@);
        vstd::seq_lib::seq_to_set_is_finite(paths);
        assert forall|p: Seq<char>| #[trigger] self@.contains(p) == paths.to_set().contains(p) by {
            if self@.contains(p) {
                let i = choose|i: int| 0 <= i < self.seen_items.len() && #[trigger] self.seen_items[i]@ == p;
                assert(paths[i] == p);
            }
            if paths.to_set().contains(p) {
                let i = choose|i: int| 0 <= i < paths.len() && paths[i] == p;
                assert(self.seen_items[i]@ == p);
            }
        }
        assert(self@ =~= paths.to_set());
    }

    /// Tells whether `path` was entered before, and records it as entered.
    pub fn check_already_visited_and_update(&mut self, path: &str) -> (r: bool)
        ensures
            r == old(self)@.contains(path@),
            final(self)@ == old(self)@.insert(path@),
            final(self)@.finite(),
    {
        proof {
            self.lemma_finite();
        }
        if self.is_seen(path) {
            assert(self@.insert(path@) =~= self@);
            return true;
        }
        self.mark_seen(path);
        proof {
            self.lemma_finite();
        }
        false
    }

    fn is_seen(&self, path: &str) -> (r: bool)
        ensures
            r == self@.contains(path@),
    {
        let wanted = path.to_owned();
        let mut i: usize = 0;
        while i < self.seen_items.len()
            invariant
                0 <= i <= self.seen_items.len(),
                wanted@ == path@,
                forall|j: int| 0 <= j < i ==> #[trigger] self.seen_items[j]@ != path@,
            decreases self.seen_items.len() - i,
        {
            if self.seen_items[i] == wanted {
                assert(self.seen_items[i as int]@ == path@);
                return true;
            }
            i = i + 1;
        }
        false
    }

    fn mark_seen(&mut self, path: &str)
        ensures
            final(self)@ == old(self)@.insert(path@),
    {
        let ghost before = self.seen_items@;
        self.seen_items.push(path.to_owned());
        assert forall|p: Seq<char>| #[trigger] self@.contains(p) == old(self)@.insert(path@).contains(p) by {
            if p == path@ {
                assert(self.seen_items[before.len() as int]@ == p);
            }
            if old(self)@.contains(p) {
                let i = choose|i: int| 0 <= i < before.len() && #[trigger] before[i]@ == p;
                assert(self.seen_items[i]@ == p);
            }
            if self@.contains(p) && p != path@ {
                let i = choose|i: int| 0 <= i < self.seen_items.len() && #[trigger] self.seen_items[i]@ == p;
                assert(old(self).seen_items[i]@ == p);
            }
        }
        assert(self@ =~= old(self)@.insert(path@));
    }
}

/// The decision for a candidate at `path` with the probe's answer, given
/// whether links are followed and which real paths were entered before.
pub open spec fn resolution_of(
    follow: bool,
    seen: Set<Seq<char>>,
    path: Seq<char>,
    probe: PathProbe,
) -> SymlinkResolveResult {
    if !follow {
        SymlinkResolveResult {
            resolution: if is_symlink_like(probe) {
                SymlinkResolveOutcome::SkipSymlink
            } else {
                SymlinkResolveOutcome::NotSymlink
            },
            updated_path: None,
        }
    } else {
        match probe {
            PathProbe::Link(target) => SymlinkResolveResult {
                resolution: if seen.contains(target@) {
                    SymlinkResolveOutcome::AlreadyTraversed
                } else {
                    SymlinkResolveOutcome::FollowSymlink
                },
                updated_path: Some(target),
            },
            PathProbe::BrokenLink(reason) => SymlinkResolveResult {
                resolution: SymlinkResolveOutcome::CanonicalizeFailed(reason),
                updated_path: None,
            },
            PathProbe::Unreadable(reason) => SymlinkResolveResult {
                resolution: SymlinkResolveOutcome::ReadLinkFailed(reason),
                updated_path: None,
            },
            _ => SymlinkResolveResult {
                resolution: if seen.contains(path) {
                    SymlinkResolveOutcome::AlreadyTraversed
                } else {
                    SymlinkResolveOutcome::NotSymlink
                },
                updated_path: None,
            },
        }
    }
}

/// The real paths entered once follow mode has decided on a candidate.
pub open spec fn seen_after(seen: Set<Seq<char>>, path: Seq<char>, probe: PathProbe) -> Set<
    Seq<char>,
> {
    match probe {
        PathProbe::Link(target) => seen.insert(target@),
        PathProbe::BrokenLink(_) => seen,
        PathProbe::Unreadable(_) => seen,
        _ => seen.insert(path),
    }
}

/// In skip mode anything but a directory or a regular file counts as a link:
/// a link itself, a special file, or an entry whose metadata cannot be read.
pub open spec fn is_symlink_like(probe: PathProbe) -> bool {
    !(probe is Directory || probe is File)
}

/// Tells whether skip mode treats the probed entry as a link.
pub fn is_metadata_symlink(probe: &PathProbe) -> (r: bool)
    ensures
        r == is_symlink_like(*probe),
{
    match probe {
        PathProbe::Directory | PathProbe::File => false,
        _ => true,
    }
}

/// The candidate goes on to be listed.
pub open spec fn proceeds(r: SymlinkResolveOutcome) -> bool {
    r is NotSymlink || r is FollowSymlink
}

impl SymlinkBehaviour {
    pub open spec fn follows(&self) -> bool {
        self is Follow
    }

    /// The real paths entered so far (none in skip mode).
    pub open spec fn visited(&self) -> Set<Seq<char>> {
        match self {
            SymlinkBehaviour::Follow(state) => state@,
            SymlinkBehaviour::Skip => Set::empty(),
        }
    }

    /// The entered paths are finitely many.
    pub proof fn lemma_visited_finite(&self)
        ensures
            self.visited().finite(),
    {
        if let SymlinkBehaviour::Follow(state) = self {
            state.lemma_finite();
        }
    }

    pub fn resolve_candidate(&mut self, candidate: &SearchCandidate, probe: PathProbe) -> (r:
        SymlinkResolveResult)
        ensures
            r == resolution_of(old(self).follows(), old(self).visited(), candidate.path@, probe),
            final(self).follows() == old(self).follows(),
            final(self).visited() == if old(self).follows() {
                seen_after(old(self).visited(), candidate.path@, probe)
            } else {
                old(self).visited()
            },
            final(self).visited().finite(),
    {
        let r = match self {
            SymlinkBehaviour::Skip => {
                if is_metadata_symlink(&probe) {
                    SymlinkResolveResult::from_outcome(SymlinkResolveOutcome::SkipSymlink)
                } else {
                    SymlinkResolveResult::from_outcome(SymlinkResolveOutcome::NotSymlink)
                }
            },
            SymlinkBehaviour::Follow(follow_state) => match probe {
                PathProbe::Link(target) => SymlinkBehaviour::follow_link(target, follow_state),
                PathProbe::BrokenLink(reason) => SymlinkResolveResult::from_outcome(
                    SymlinkResolveOutcome::CanonicalizeFailed(reason),
                ),
                PathProbe::Unreadable(reason) => SymlinkResolveResult::from_outcome(
                    SymlinkResolveOutcome::ReadLinkFailed(reason),
                ),
                _ => {
                    if follow_state.check_already_visited_and_update(candidate.to_path()) {
                        SymlinkResolveResult::from_outcome(SymlinkResolveOutcome::AlreadyTraversed)
                    } else {
                        SymlinkResolveResult::from_outcome(SymlinkResolveOutcome::NotSymlink)
                    }
                },
            },
        };
        proof {
            self.lemma_visited_finite();
        }
        r
    }

    /// Decides on a link whose canonical target is `absolute`.
    fn follow_link(absolute: String, follow_state: &mut FollowState) -> (r: SymlinkResolveResult)
        ensures
            r.resolution == if old(follow_state)@.contains(absolute@) {
                SymlinkResolveOutcome::AlreadyTraversed
            } else {
                SymlinkResolveOutcome::FollowSymlink
            },
            r.updated_path == Some(absolute),
            final(follow_state)@ == old(follow_state)@.insert(absolute@),
    {
        if follow_state.check_already_visited_and_update(absolute.as_str()) {
            SymlinkResolveResult::from_outcome_and_path(
                SymlinkResolveOutcome::AlreadyTraversed,
                absolute,
            )
        } else {
            SymlinkResolveResult::from_outcome_and_path(SymlinkResolveOutcome::FollowSymlink, absolute)
        }
    }
}

impl SymlinkResolveResult {
    pub fn from_outcome(outcome: SymlinkResolveOutcome) -> (r: SymlinkResolveResult)
        ensures
            r.resolution == outcome,
            r.updated_path is None,
    {
        SymlinkResolveResult { updated_path: None, resolution: outcome }
    }

    pub fn from_outcome_and_path(outcome: SymlinkResolveOutcome, updated_path: String) -> (r:
        SymlinkResolveResult)
        ensures
            r.resolution == outcome,
            r.updated_path == Some(updated_path),
    {
        SymlinkResolveResult { updated_path: Some(updated_path), resolution: outcome }
    }
}

impl SearchCandidate {
    /// Applies the symlink policy to this candidate. Where a link was
    /// resolved, the candidate's path becomes the link's canonical target,
    /// so that it is listed, tested and reported at its real location.
    pub fn resolve_symlinks(&mut self, symlink_behaviour: &mut SymlinkBehaviour, probe: PathProbe) -> (r:
        SymlinkResolveOutcome)
        ensures
            ({
                let res = resolution_of(
                    old(symlink_behaviour).follows(),
                    old(symlink_behaviour).visited(),
                    old(self).path@,
                    probe,
                );
                &&& r == res.resolution
                &&& final(self).path@ == match res.updated_path {
                    Some(p) => p@,
                    None => old(self).path@,
                }
            }),
            final(self).depth == old(self).depth,
            final(self).kind == old(self).kind,
            final(symlink_behaviour).follows() == old(symlink_behaviour).follows(),
            final(symlink_behaviour).visited() == if old(symlink_behaviour).follows() {
                seen_after(old(symlink_behaviour).visited(), old(self).path@, probe)
            } else {
                old(symlink_behaviour).visited()
            },
    {
        let result = symlink_behaviour.resolve_candidate(self, probe);
        if let Some(updated_path) = result.updated_path {
            self.path = updated_path;
        }
        result.resolution
    }
}

} // verus!
