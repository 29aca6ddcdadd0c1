//! Loading a workspace: validation and assembly.
//!
//! A workspace load first validates the root path (it must exist and be a
//! directory), then makes sure the reserved `assets` subdirectory exists,
//! then scans.  The filesystem checks and mutations are the embedding
//! program's job; this module decides what they mean and assembles the
//! result.

use vstd::prelude::*;
use crate::laws::{
    lemma_tree_docs_md, lemma_tree_excludes_assets, lemma_tree_sorted, tree_docs_md,
    tree_excludes_assets, tree_sorted,
};
use crate::node::{FileSystemNode, RawEntry};
use crate::scan::{build_file_tree, level_ok};

verus! {

/// Why a workspace load is rejected before any scanning begins.
#[derive(Debug, PartialEq, Eq, Structural)]
pub enum LoadError {
    /// The workspace root path does not exist.
    DoesNotExist,
    /// The workspace root path exists but is not a directory.
    NotADirectory,
}

impl LoadError {
    /// The message surfaced to the caller of a failed load.
    pub fn message(&self) -> (m: String)
        ensures
            *self is DoesNotExist ==> m@ == "Workspace directory does not exist"@,
            *self is NotADirectory ==> m@ == "Workspace path is not a directory"@,
    {
        match self {
            LoadError::DoesNotExist => String::from_str("Workspace directory does not exist"),
            LoadError::NotADirectory => String::from_str("Workspace path is not a directory"),
        }
    }
}

/// A loaded workspace: the root path and the ordered forest of nodes
/// scanned under it.
pub struct WorkspaceInfo {
    pub path: String,
    pub tree: Vec<FileSystemNode>,
}

/// Decides whether a workspace root may be loaded, from what the
/// filesystem reports about it.  A load proceeds exactly when the path
/// exists and is a directory; the two failures are told apart.
pub fn validate_root(root_exists: bool, root_is_dir: bool) -> (r: Result<(), LoadError>)
    ensures
        r is Ok <==> root_exists && root_is_dir,
        !root_exists ==> r == Err::<(), LoadError>(LoadError::DoesNotExist),
        root_exists && !root_is_dir ==> r == Err::<(), LoadError>(LoadError::NotADirectory),
{
    if !root_exists {
        Err(LoadError::DoesNotExist)
    } else if !root_is_dir {
        Err(LoadError::NotADirectory)
    } else {
        Ok(())
    }
}

/// The root validation as the caller of a load sees it: `Ok` exactly when
/// the path exists and is a directory, else the exact surfaced message,
/// telling a missing root from one that is not a directory.
pub fn check_root(root_exists: bool, root_is_dir: bool) -> (r: Result<(), String>)
    ensures
        r is Ok <==> root_exists && root_is_dir,
        !root_exists ==> (r matches Err(m) && m@ == "Workspace directory does not exist"@),
        root_exists && !root_is_dir ==> (r matches Err(m) && m@
            == "Workspace path is not a directory"@),
{
    match validate_root(root_exists, root_is_dir) {
        Ok(()) => Ok(()),
        Err(e) => Err(e.message()),
    }
}

/// The path of the reserved subdirectory that a load creates under the
/// workspace root when it is absent.
pub fn assets_path(root: &str) -> (p: String)
    ensures
        p@ == root@ + "/"@ + "assets"@,
{
    let mut p = root.to_owned();
    p.append("/");
    p.append("assets");
    p
}

/// Assembles the workspace from a validated root path and the raw entries
/// scanned under it.  The tree is built by the scanner, so every level
/// satisfies the scanner's contract; in particular the reserved subtree
/// is absent, only Markdown documents appear, and every level is sorted.
pub fn load_workspace(path: String, entries: Vec<RawEntry>) -> (w: WorkspaceInfo)
    ensures
        w.path == path,
        level_ok(entries@, w.tree@),
        tree_excludes_assets(w.tree@),
        tree_docs_md(w.tree@),
        tree_sorted(w.tree@),
{
    let tree = build_file_tree(&entries);
    proof {
        lemma_tree_excludes_assets(entries@, tree@);
        lemma_tree_docs_md(entries@, tree@);
        lemma_tree_sorted(entries@, tree@);
    }
    WorkspaceInfo { path, tree }
}

} // verus!
