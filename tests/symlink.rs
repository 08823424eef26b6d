use fgr::candidate::{PathProbe, SearchCandidate};
use fgr::symlink::{
    is_metadata_symlink, FollowState, SymlinkBehaviour, SymlinkResolveOutcome, SymlinkResolveResult,
};

fn candidate(path: &str) -> SearchCandidate {
    SearchCandidate::from_path(path.to_string(), 1)
}

#[test]
fn follow_state_records_each_path() {
    let mut s = FollowState::new();
    assert!(!s.check_already_visited_and_update("/a"));
    assert!(s.check_already_visited_and_update("/a"));
    assert!(!s.check_already_visited_and_update("/b"));
    assert!(s.check_already_visited_and_update("/b"));
    assert!(s.check_already_visited_and_update("/a"));
}

#[test]
fn skip_mode_lists_directories_and_files_only() {
    let mut b = SymlinkBehaviour::Skip;
    let c = candidate("/a");
    let r = b.resolve_candidate(&c, PathProbe::Directory);
    assert!(matches!(r.resolution, SymlinkResolveOutcome::NotSymlink));
    assert!(r.updated_path.is_none());
    let r = b.resolve_candidate(&c, PathProbe::File);
    assert!(matches!(r.resolution, SymlinkResolveOutcome::NotSymlink));
    let r = b.resolve_candidate(&c, PathProbe::Link("/b".to_string()));
    assert!(matches!(r.resolution, SymlinkResolveOutcome::SkipSymlink));
    assert!(r.updated_path.is_none());
    let r = b.resolve_candidate(&c, PathProbe::Special);
    assert!(matches!(r.resolution, SymlinkResolveOutcome::SkipSymlink));
    let r = b.resolve_candidate(&c, PathProbe::Unreadable("denied".to_string()));
    assert!(matches!(r.resolution, SymlinkResolveOutcome::SkipSymlink));
    let r = b.resolve_candidate(&c, PathProbe::BrokenLink("gone".to_string()));
    assert!(matches!(r.resolution, SymlinkResolveOutcome::SkipSymlink));
}

#[test]
fn skip_mode_lists_the_same_directory_again() {
    let mut b = SymlinkBehaviour::Skip;
    let c = candidate("/a");
    let r = b.resolve_candidate(&c, PathProbe::Directory);
    assert!(matches!(r.resolution, SymlinkResolveOutcome::NotSymlink));
    let r = b.resolve_candidate(&c, PathProbe::Directory);
    assert!(matches!(r.resolution, SymlinkResolveOutcome::NotSymlink));
}

#[test]
fn follow_mode_follows_a_link_to_its_target_once() {
    let mut b = SymlinkBehaviour::Follow(FollowState::new());
    let c = candidate("/root/link");
    let r = b.resolve_candidate(&c, PathProbe::Link("/root/real".to_string()));
    assert!(matches!(r.resolution, SymlinkResolveOutcome::FollowSymlink));
    assert_eq!(r.updated_path.as_deref(), Some("/root/real"));
    let r = b.resolve_candidate(&candidate("/root/other"), PathProbe::Link("/root/real".to_string()));
    assert!(matches!(r.resolution, SymlinkResolveOutcome::AlreadyTraversed));
    assert_eq!(r.updated_path.as_deref(), Some("/root/real"));
}

#[test]
fn follow_mode_detects_link_back_to_a_listed_directory() {
    let mut b = SymlinkBehaviour::Follow(FollowState::new());
    let r = b.resolve_candidate(&candidate("/root"), PathProbe::Directory);
    assert!(matches!(r.resolution, SymlinkResolveOutcome::NotSymlink));
    let r = b.resolve_candidate(&candidate("/root/link"), PathProbe::Link("/root".to_string()));
    assert!(matches!(r.resolution, SymlinkResolveOutcome::AlreadyTraversed));
    let r = b.resolve_candidate(&candidate("/root"), PathProbe::Directory);
    assert!(matches!(r.resolution, SymlinkResolveOutcome::AlreadyTraversed));
}

#[test]
fn follow_mode_reports_unresolvable_links() {
    let mut b = SymlinkBehaviour::Follow(FollowState::new());
    let r = b.resolve_candidate(&candidate("/a"), PathProbe::BrokenLink("no such file".to_string()));
    match r.resolution {
        SymlinkResolveOutcome::CanonicalizeFailed(m) => assert_eq!(m, "no such file"),
        other => panic!("unexpected {:?}", other),
    }
    let r = b.resolve_candidate(&candidate("/a"), PathProbe::Unreadable("denied".to_string()));
    match r.resolution {
        SymlinkResolveOutcome::ReadLinkFailed(m) => assert_eq!(m, "denied"),
        other => panic!("unexpected {:?}", other),
    }
    // a failed resolution does not mark the path as entered
    let r = b.resolve_candidate(&candidate("/a"), PathProbe::Directory);
    assert!(matches!(r.resolution, SymlinkResolveOutcome::NotSymlink));
}

#[test]
fn candidate_moves_to_link_target() {
    let mut b = SymlinkBehaviour::Follow(FollowState::new());
    let mut c = candidate("/root/link");
    let r = c.resolve_symlinks(&mut b, PathProbe::Link("/srv/real".to_string()));
    assert!(matches!(r, SymlinkResolveOutcome::FollowSymlink));
    assert_eq!(c.to_path(), "/srv/real");
    assert_eq!(c.depth(), 1);
    let mut d = candidate("/root/plain");
    let r = d.resolve_symlinks(&mut b, PathProbe::Directory);
    assert!(matches!(r, SymlinkResolveOutcome::NotSymlink));
    assert_eq!(d.to_path(), "/root/plain");
}

#[test]
fn result_constructors() {
    let r = SymlinkResolveResult::from_outcome(SymlinkResolveOutcome::SkipSymlink);
    assert!(r.updated_path.is_none());
    let r = SymlinkResolveResult::from_outcome_and_path(
        SymlinkResolveOutcome::FollowSymlink,
        "/x".to_string(),
    );
    assert_eq!(r.updated_path.as_deref(), Some("/x"));
    assert!(matches!(r.resolution, SymlinkResolveOutcome::FollowSymlink));
}

#[test]
fn only_directories_and_files_are_not_link_like() {
    assert!(!is_metadata_symlink(&PathProbe::Directory));
    assert!(!is_metadata_symlink(&PathProbe::File));
    assert!(is_metadata_symlink(&PathProbe::Special));
    assert!(is_metadata_symlink(&PathProbe::Link("/t".to_string())));
    assert!(is_metadata_symlink(&PathProbe::BrokenLink("x".to_string())));
    assert!(is_metadata_symlink(&PathProbe::Unreadable("x".to_string())));
}
