//! Finds the directories of a tree that are roots of git repositories.
//!
//! The library holds the decisions of the search: the options, the symlink
//! policy with its set of visited real paths, the candidates on the work
//! stack, and the walk engine itself. The program around it performs the
//! filesystem reads and hands their results to the engine.

pub mod candidate;
pub mod laws;
pub mod normalize;
pub mod options;
pub mod report;
pub mod symlink;
pub mod walk;
