use vstd::prelude::*;

use crate::candidate::{DirEntryInfo, FileKind, PathProbe, SearchCandidate};
use crate::options::InvokeOptions;
use crate::symlink::{
    resolution_of, seen_after, FollowState, SymlinkBehaviour, SymlinkResolveOutcome,
};

verus! {

/// The name of an entry as text, where it is valid text.
pub open spec fn name_view(e: DirEntryInfo) -> Option<Seq<char>> {
    match e.name {
        Some(n) => Some(n@),
        None => None,
    }
}

/// The entry is the `.git` directory that marks a repository root: a
/// directory, or a link to one. A `.git` file (a worktree pointer) does not
/// count.
pub open spec fn is_git_entry(e: DirEntryInfo) -> bool {
    name_view(e) == Some(seq!['.', 'g', 'i', 't']) && (e.kind == FileKind::Directory || e.kind
        == FileKind::DirectoryLink)
}

/// Some entry of the listing is the `.git` directory.
pub open spec fn has_git_dir(entries: Seq<DirEntryInfo>) -> bool {
    exists|i: int| 0 <= i < entries.len() && is_git_entry(#[trigger] entries[i])
}

/// The hidden-entry rule: a name that starts with `.` is hidden, and so is a
/// name that is not valid text.
pub open spec fn is_hidden_name(name: Option<Seq<char>>) -> bool {
    match name {
        Some(n) => n.len() > 0 && n[0] == '.',
        None => true,
    }
}

pub open spec fn skips_name(name: Option<Seq<char>>, show_all: bool) -> bool {
    !show_all && is_hidden_name(name)
}

/// The entry goes on the stack, one level below a directory at `depth`: it
/// may be a directory (a link is resolved when it is taken off), it is not
/// the `.git` marker, it is not hidden, and it is within the depth limit.
pub open spec fn is_queued(e: DirEntryInfo, depth: nat, show_all: bool, max_depth: nat) -> bool {
    (e.kind == FileKind::Directory || e.kind == FileKind::Symlink || e.kind
        == FileKind::DirectoryLink) && !is_git_entry(e)
        && !skips_name(name_view(e), show_all) && depth + 1 <= max_depth
}

/// A candidate as the contracts see it: its path, depth and listed type.
pub open spec fn candidate_view(c: SearchCandidate) -> (Seq<char>, nat, Option<FileKind>) {
    (c.path@, c.depth as nat, c.kind)
}

/// The candidates that a listing adds to the stack, in listing order.
pub open spec fn queued(entries: Seq<DirEntryInfo>, depth: nat, show_all: bool, max_depth: nat) -> Seq<
    (Seq<char>, nat, Option<FileKind>),
>
    decreases entries.len(),
{
    if entries.len() == 0 {
        Seq::empty()
    } else {
        let prev = queued(entries.drop_last(), depth, show_all, max_depth);
        let e = entries.last();
        if is_queued(e, depth, show_all, max_depth) {
            prev.push((e.path@, depth + 1, Some(e.kind)))
        } else {
            prev
        }
    }
}

/// What became of a listed directory.
#[derive(Clone, Copy, Debug, PartialEq, Eq, Structural)]
pub enum DirectoryOutcome {
    /// It holds a `.git` directory (confirmed, in paranoid mode): it is a
    /// repository root, to be reported; nothing below it is searched.
    Matched,
    /// It holds a `.git` directory that the paranoid check did not confirm.
    Rejected,
    /// It holds no `.git` directory; its subdirectories were queued.
    Descended,
}

/// The outcome for a listing: a repository root needs the `.git` directory,
/// and in paranoid mode the check's confirmation too.
pub open spec fn outcome_of(entries: Seq<DirEntryInfo>, paranoid: bool, validated: bool) -> DirectoryOutcome {
    if has_git_dir(entries) {
        if !paranoid || validated {
            DirectoryOutcome::Matched
        } else {
            DirectoryOutcome::Rejected
        }
    } else {
        DirectoryOutcome::Descended
    }
}

/// Tells whether an entry is hidden from recursion under the hidden-entry rule.
pub fn should_skip_directory(entry: &DirEntryInfo, opts: &InvokeOptions) -> (r: bool)
    ensures
        r == skips_name(name_view(*entry), opts.show_all),
{
    !opts.show_all() && has_hidden_name(entry)
}

/// Tells whether an entry's name is hidden: it starts with `.`, or it is not
/// valid text.
fn has_hidden_name(entry: &DirEntryInfo) -> (r: bool)
    ensures
        r == is_hidden_name(name_view(*entry)),
{
    match &entry.name {
        None => true,
        Some(n) => {
            let s = n.as_str();
            s.unicode_len() > 0 && s.get_char(0) == '.'
        },
    }
}

/// Tells whether an entry is the `.git` directory.
pub fn is_git_dir_entry(entry: &DirEntryInfo) -> (r: bool)
    ensures
        r == is_git_entry(*entry),
{
    if entry.kind != FileKind::Directory && entry.kind != FileKind::DirectoryLink {
        return false;
    }
    match &entry.name {
        None => false,
        Some(n) => {
            let s = n.as_str();
            if s.unicode_len() == 4 && s.get_char(0) == '.' && s.get_char(1) == 'g' && s.get_char(2)
                == 'i' && s.get_char(3) == 't' {
                assert(n@ =~= seq!['.', 'g', 'i', 't']);
                true
            } else {
                assert(n@.len() != 4 || n@[0] != '.' || n@[1] != 'g' || n@[2] != 'i' || n@[3] != 't');
                false
            }
        },
    }
}

/// Tells whether a listing holds the `.git` directory.
pub fn is_git_repo(entries: &Vec<DirEntryInfo>) -> (r: bool)
    ensures
        r == has_git_dir(entries@),
{
    let mut i: usize = 0;
    while i < entries.len()
        invariant
            0 <= i <= entries.len(),
            forall|j: int| 0 <= j < i ==> !is_git_entry(#[trigger] entries@[j]),
        decreases entries.len() - i,
    {
        if is_git_dir_entry(&entries[i]) {
            return true;
        }
        i = i + 1;
    }
    false
}

/// The search engine: a stack of candidates, the symlink policy, and the
/// options that decide what is queued. The caller takes candidates off,
/// probes and lists them on the filesystem, and hands the results back.
pub struct Walker {
    stack: Vec<SearchCandidate>,
    symlinks: SymlinkBehaviour,
    show_all: bool,
    paranoid: bool,
    max_depth: usize,
    descend_rejected: bool,
}

impl Walker {
    #[verifier::type_invariant]
    spec fn within_depth(&self) -> bool {
        forall|i: int| 0 <= i < self.stack@.len() ==> #[trigger] self.stack@[i].depth <= self.max_depth
    }

    /// The candidates waiting, the last one on top.
    pub closed spec fn pending(&self) -> Seq<(Seq<char>, nat, Option<FileKind>)> {
        self.stack@.map_values(|c: SearchCandidate| candidate_view(c))
    }

    pub closed spec fn spec_show_all(&self) -> bool {
        self.show_all
    }

    pub closed spec fn spec_paranoid(&self) -> bool {
        self.paranoid
    }

    pub closed spec fn spec_max_depth(&self) -> nat {
        self.max_depth as nat
    }

    /// Whether the subdirectories of a directory whose `.git` the paranoid
    /// check rejected are still searched.
    pub closed spec fn spec_descend_rejected(&self) -> bool {
        self.descend_rejected
    }

    pub closed spec fn follows(&self) -> bool {
        self.symlinks.follows()
    }

    /// The real paths entered so far in follow mode.
    pub closed spec fn visited(&self) -> Set<Seq<char>> {
        self.symlinks.visited()
    }

    /// The real paths entered by a walk are finitely many, at every step.
    pub proof fn lemma_visited_finite(&self)
        ensures
            self.visited().finite(),
    {
        self.symlinks.lemma_visited_finite();
    }

    /// Starts a search at the options' root, at depth 0. `descend_rejected`
    /// chooses whether a directory whose `.git` the paranoid check rejected
    /// is still searched below.
    pub fn new(opts: &InvokeOptions, descend_rejected: bool) -> (r: Walker)
        ensures
            r.pending() == seq![(opts.search_root@, 0nat, None::<FileKind>)],
            r.follows() == opts.follow_symlinks,
            r.visited() == Set::<Seq<char>>::empty(),
            r.visited().finite(),
            r.spec_show_all() == opts.show_all,
            r.spec_paranoid() == opts.paranoid,
            r.spec_max_depth() == opts.max_depth,
            r.spec_descend_rejected() == descend_rejected,
    {
        let root = SearchCandidate::from_path(opts.search_root.clone(), 0);
        let mut stack: Vec<SearchCandidate> = Vec::new();
        stack.push(root);
        let symlinks = if opts.follow_symlinks() {
            SymlinkBehaviour::Follow(FollowState::new())
        } else {
            SymlinkBehaviour::Skip
        };
        let r = Walker {
            stack,
            symlinks,
            show_all: opts.show_all(),
            paranoid: opts.paranoid(),
            max_depth: opts.max_depth(),
            descend_rejected,
        };
        assert(r.pending() =~= seq![(opts.search_root@, 0nat, None::<FileKind>)]);
        r
    }

    /// Takes the next candidate off the stack; `None` once the search is over.
    pub fn pop_candidate(&mut self) -> (r: Option<SearchCandidate>)
        ensures
            old(self).pending().len() == 0 ==> r is None && final(self).pending() == old(
                self,
            ).pending(),
            old(self).pending().len() > 0 ==> (r matches Some(c) && candidate_view(c) == old(
                self,
            ).pending().last()) && final(self).pending() == old(self).pending().drop_last(),
            r matches Some(c) ==> c.depth <= old(self).spec_max_depth(),
            final(self).follows() == old(self).follows(),
            final(self).visited() == old(self).visited(),
            final(self).spec_show_all() == old(self).spec_show_all(),
            final(self).spec_paranoid() == old(self).spec_paranoid(),
            final(self).spec_max_depth() == old(self).spec_max_depth(),
            final(self).spec_descend_rejected() == old(self).spec_descend_rejected(),
    {
        proof {
            use_type_invariant(&*self);
        }
        let mut stack: Vec<SearchCandidate> = Vec::new();
        std::mem::swap(&mut stack, &mut self.stack);
        let ghost before = stack@;
        let r = stack.pop();
        proof {
            if before.len() > 0 {
                assert(stack@ == before.drop_last());
                assert(before.last().depth <= self.max_depth) by {
                    assert(before[before.len() - 1].depth <= self.max_depth);
                }
            }
        }
        std::mem::swap(&mut stack, &mut self.stack);
        proof {
            assert(self.pending() =~= old(self).pending().subrange(0, self.stack@.len() as int));
        }
        r
    }

    /// Applies the symlink policy to a candidate taken off the stack, with
    /// what the filesystem reported about its path.
    pub fn resolve(&mut self, candidate: &mut SearchCandidate, probe: PathProbe) -> (r:
        SymlinkResolveOutcome)
        ensures
            ({
                let res = resolution_of(
                    old(self).follows(),
                    old(self).visited(),
                    old(candidate).path@,
                    probe,
                );
                &&& r == res.resolution
                &&& final(candidate).path@ == match res.updated_path {
                    Some(p) => p@,
                    None => old(candidate).path@,
                }
            }),
            final(candidate).depth == old(candidate).depth,
            final(candidate).kind == old(candidate).kind,
            final(self).visited() == if old(self).follows() {
                seen_after(old(self).visited(), old(candidate).path@, probe)
            } else {
                old(self).visited()
            },
            final(self).visited().finite(),
            final(self).pending() == old(self).pending(),
            final(self).follows() == old(self).follows(),
            final(self).spec_show_all() == old(self).spec_show_all(),
            final(self).spec_paranoid() == old(self).spec_paranoid(),
            final(self).spec_max_depth() == old(self).spec_max_depth(),
            final(self).spec_descend_rejected() == old(self).spec_descend_rejected(),
    {
        proof {
            use_type_invariant(&*self);
        }
        let mut symlinks = SymlinkBehaviour::Skip;
        std::mem::swap(&mut symlinks, &mut self.symlinks);
        let r = candidate.resolve_symlinks(&mut symlinks, probe);
        std::mem::swap(&mut symlinks, &mut self.symlinks);
        proof {
            self.lemma_visited_finite();
        }
        r
    }

    /// Tells whether the listing calls for the paranoid check: paranoid mode
    /// is on and the directory holds a `.git` directory.
    pub fn needs_validation(&self, entries: &Vec<DirEntryInfo>) -> (r: bool)
        ensures
            r == (self.spec_paranoid() && has_git_dir(entries@)),
    {
        self.paranoid && is_git_repo(entries)
    }

    /// Tells whether an entry of a listed directory is a subdirectory that
    /// the hidden-entry rule alone kept off the stack (worth a mention in
    /// verbose mode).
    pub fn reports_hidden(&self, parent: &SearchCandidate, entry: &DirEntryInfo) -> (r: bool)
        ensures
            r == (entry.kind == FileKind::Directory && !is_git_entry(*entry) && skips_name(
                name_view(*entry),
                self.spec_show_all(),
            ) && parent.depth < self.spec_max_depth()),
    {
        if self.show_all || entry.kind != FileKind::Directory || parent.depth >= self.max_depth {
            return false;
        }
        !is_git_dir_entry(entry) && has_hidden_name(entry)
    }

    /// Pushes the entry when it is to be searched one level below `depth`.
    fn queue_entry(stack: &mut Vec<SearchCandidate>, entry: &DirEntryInfo, depth: usize, show_all: bool, max_depth: usize)
        requires
            forall|i: int| 0 <= i < old(stack)@.len() ==> #[trigger] old(stack)@[i].depth <= max_depth,
        ensures
            final(stack)@.map_values(|c: SearchCandidate| candidate_view(c)) == if is_queued(
                *entry,
                depth as nat,
                show_all,
                max_depth as nat,
            ) {
                old(stack)@.map_values(|c: SearchCandidate| candidate_view(c)).push(
                    (entry.path@, (depth + 1) as nat, Some(entry.kind)),
                )
            } else {
                old(stack)@.map_values(|c: SearchCandidate| candidate_view(c))
            },
            forall|i: int| 0 <= i < final(stack)@.len() ==> #[trigger] final(stack)@[i].depth <= max_depth,
    {
        let is_dir = entry.kind == FileKind::Directory || entry.kind == FileKind::Symlink
            || entry.kind == FileKind::DirectoryLink;
        let hidden = !show_all && has_hidden_name(entry);
        if is_dir && !is_git_dir_entry(entry) && !hidden && depth < max_depth {
            let child = SearchCandidate {
                depth: depth + 1,
                path: entry.path.clone(),
                kind: Some(entry.kind),
            };
            stack.push(child);
            assert(final(stack)@.map_values(|c: SearchCandidate| candidate_view(c)) =~= old(
                stack,
            )@.map_values(|c: SearchCandidate| candidate_view(c)).push(
                (entry.path@, (depth + 1) as nat, Some(entry.kind)),
            ));
        }
    }

    /// Concludes a listed directory. The entries are scanned in order, and
    /// its subdirectories queued, until a `.git` directory turns up. Then the
    /// directory is a match, unless the paranoid check (whose answer is
    /// `validated`) rejects it, and the stack is cut back to where it stood
    /// before the scan: nothing below a repository root is searched. A
    /// rejected directory is searched below only where the walker was made
    /// to descend into rejected directories.
    pub fn finish_directory(
        &mut self,
        candidate: &SearchCandidate,
        entries: &Vec<DirEntryInfo>,
        validated: bool,
    ) -> (r: DirectoryOutcome)
        ensures
            r == outcome_of(entries@, old(self).spec_paranoid(), validated),
            final(self).pending() == old(self).pending() + if r is Descended || (r is Rejected
                && old(self).spec_descend_rejected()) {
                queued(
                    entries@,
                    candidate.depth as nat,
                    old(self).spec_show_all(),
                    old(self).spec_max_depth(),
                )
            } else {
                Seq::empty()
            },
            final(self).follows() == old(self).follows(),
            final(self).visited() == old(self).visited(),
            final(self).spec_show_all() == old(self).spec_show_all(),
            final(self).spec_paranoid() == old(self).spec_paranoid(),
            final(self).spec_max_depth() == old(self).spec_max_depth(),
            final(self).spec_descend_rejected() == old(self).spec_descend_rejected(),
    {
        proof {
            use_type_invariant(&*self);
        }
        let depth = candidate.depth;
        let mut stack: Vec<SearchCandidate> = Vec::new();
        std::mem::swap(&mut stack, &mut self.stack);
        let ghost base = stack@.map_values(|c: SearchCandidate| candidate_view(c));
        let checkpoint = stack.len();
        let mut found = false;
        let mut i: usize = 0;
        while i < entries.len() && !found
            invariant
                0 <= i <= entries.len(),
                stack@.map_values(|c: SearchCandidate| candidate_view(c)) == base + queued(
                    entries@.subrange(0, i as int),
                    depth as nat,
                    self.show_all,
                    self.max_depth as nat,
                ),
                base.len() == checkpoint,
                found ==> i > 0 && is_git_entry(entries@[i - 1]),
                !found ==> forall|j: int| 0 <= j < i ==> !is_git_entry(#[trigger] entries@[j]),
                forall|k: int| 0 <= k < stack@.len() ==> #[trigger] stack@[k].depth <= self.max_depth,
            decreases entries.len() - i,
        {
            if is_git_dir_entry(&entries[i]) {
                found = true;
            } else {
                Walker::queue_entry(&mut stack, &entries[i], depth, self.show_all, self.max_depth);
            }
            proof {
                let sub = entries@.subrange(0, i + 1);
                assert(sub.drop_last() =~= entries@.subrange(0, i as int));
                assert(sub.last() == entries@[i as int]);
            }
            i = i + 1;
        }
        let ghost queued_prefix = queued(
            entries@.subrange(0, i as int),
            depth as nat,
            self.show_all,
            self.max_depth as nat,
        );
        proof {
            if found {
                assert(has_git_dir(entries@)) by {
                    assert(is_git_entry(entries@[i - 1]));
                }
            } else {
                assert(entries@.subrange(0, i as int) =~= entries@);
            }
        }
        let r = if found && (!self.paranoid || validated) {
            DirectoryOutcome::Matched
        } else if found {
            DirectoryOutcome::Rejected
        } else {
            DirectoryOutcome::Descended
        };
        if found {
            let ghost full = stack@;
            stack.truncate(checkpoint);
            proof {
                assert(full.map_values(|c: SearchCandidate| candidate_view(c)).len() == base.len()
                    + queued_prefix.len());
                assert(stack@.map_values(|c: SearchCandidate| candidate_view(c)) =~= base) by {
                    assert forall|k: int| 0 <= k < checkpoint implies stack@.map_values(
                        |c: SearchCandidate| candidate_view(c),
                    )[k] == base[k] by {
                        assert(stack@[k] == full[k]);
                        assert((base + queued_prefix)[k] == base[k]);
                    }
                }
            }
            if !self.paranoid || validated || !self.descend_rejected {
                std::mem::swap(&mut stack, &mut self.stack);
                proof {
                    assert(self.pending() =~= old(self).pending() + Seq::empty());
                }
                return r;
            }
            let mut j: usize = 0;
            while j < entries.len()
                invariant
                    0 <= j <= entries.len(),
                    stack@.map_values(|c: SearchCandidate| candidate_view(c)) == base + queued(
                        entries@.subrange(0, j as int),
                        depth as nat,
                        self.show_all,
                        self.max_depth as nat,
                    ),
                    forall|k: int| 0 <= k < stack@.len() ==> #[trigger] stack@[k].depth <= self.max_depth,
                decreases entries.len() - j,
            {
                Walker::queue_entry(&mut stack, &entries[j], depth, self.show_all, self.max_depth);
                proof {
                    let sub = entries@.subrange(0, j + 1);
                    assert(sub.drop_last() =~= entries@.subrange(0, j as int));
                    assert(sub.last() == entries@[j as int]);
                }
                j = j + 1;
            }
            proof {
                assert(entries@.subrange(0, j as int) =~= entries@);
            }
        }
        std::mem::swap(&mut stack, &mut self.stack);
        r
    }
}

} // verus!
