use vstd::prelude::*;

use crate::symlink::SymlinkResolveOutcome;

verus! {

/// How serious a diagnostic is.
#[derive(Clone, Copy, Debug, PartialEq, Eq, Structural)]
pub enum Level {
    Info,
    Warning,
    Error,
}

/// Informational and warning messages are shown in verbose mode only;
/// errors are always shown.
pub fn should_emit(level: Level, verbose: bool) -> (r: bool)
    ensures
        r == (level is Error || verbose),
{
    match level {
        Level::Error => true,
        _ => verbose,
    }
}

/// The diagnostic that a symlink decision calls for, if any: a skipped entry
/// is news, a path met again or a link that cannot be resolved is a warning.
pub fn resolution_level(outcome: &SymlinkResolveOutcome) -> (r: Option<Level>)
    ensures
        r == match *outcome {
            SymlinkResolveOutcome::NotSymlink => None,
            SymlinkResolveOutcome::FollowSymlink => None,
            SymlinkResolveOutcome::SkipSymlink => Some(Level::Info),
            _ => Some(Level::Warning),
        },
{
    match outcome {
        SymlinkResolveOutcome::NotSymlink => None,
        SymlinkResolveOutcome::FollowSymlink => None,
        SymlinkResolveOutcome::SkipSymlink => Some(Level::Info),
        _ => Some(Level::Warning),
    }
}

} // verus!
