//! The disposable checkout a run works in: its identity and the path it
//! lives at under the repository root. Creating and removing the checkout
//! is version-control work and stays outside the library.

use vstd::prelude::*;

verus! {

/// A run's detached checkout: owned by exactly one run and never reused.
#[derive(Debug, Clone)]
pub struct Worktree {
    pub path: String,
    pub id: String,
}

impl Worktree {
    /// The worktree a run owns: `.council/worktrees/<run_id>` under the
    /// repository root.
    pub fn at(repo_root: &str, run_id: &str) -> (r: Worktree)
        ensures
            r.path@ == repo_root@ + "/.council/worktrees/"@ + run_id@,
            r.id@ == run_id@,
    {
        let path = crate::cleanup::worktree_path_for_run(repo_root, run_id);
        Worktree { path, id: String::from_str(run_id) }
    }
}

/// A lighter-weight isolation than a full worktree: chosen files
/// extracted at the committed revision into a scratch directory. The
/// scratch directory's lifecycle is filesystem work outside the library.
#[derive(Debug, Clone)]
pub struct Snapshot {
    pub path: String,
}

/// The object name that reads a file's committed content, as in
/// `show HEAD:<path>`.
pub fn head_object_name(rel_path: &str) -> (r: String)
    ensures
        r@ == "HEAD:"@ + rel_path@,
{
    let mut out = String::from_str("HEAD:");
    out.append(rel_path);
    out
}

} // verus!
