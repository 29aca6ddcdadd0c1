//! The data model of a scanned workspace.
//!
//! A `RawEntry` is what the embedding program reports for one directory
//! entry: its display name, its absolute path, and whether the filesystem
//! says it is a file, a directory, or something else.  A `FileSystemNode` is
//! one node of the indexed tree the scanner returns: a Markdown document or
//! a subdirectory with its own ordered children.

use vstd::prelude::*;
use crate::name_order::lex_le;

verus! {

/// One directory entry as the filesystem reports it, before any filtering.
/// `entries` of a `Dir` are the entries read from that subdirectory.
pub enum RawEntry {
    File { name: String, path: String },
    Dir { name: String, path: String, entries: Vec<RawEntry> },
    Other { name: String, path: String },
}

/// One node of the indexed workspace tree.
pub enum FileSystemNode {
    Document { name: String, path: String },
    Directory { name: String, path: String, children: Vec<FileSystemNode> },
}

/// The display name of a node.
pub open spec fn node_name(n: FileSystemNode) -> Seq<char> {
    match n {
        FileSystemNode::Document { name, .. } => name@,
        FileSystemNode::Directory { name, .. } => name@,
    }
}

/// The absolute path of a node.
pub open spec fn node_path(n: FileSystemNode) -> Seq<char> {
    match n {
        FileSystemNode::Document { path, .. } => path@,
        FileSystemNode::Directory { path, .. } => path@,
    }
}

/// The display name of a raw entry.
pub open spec fn entry_name(e: RawEntry) -> Seq<char> {
    match e {
        RawEntry::File { name, .. } => name@,
        RawEntry::Dir { name, .. } => name@,
        RawEntry::Other { name, .. } => name@,
    }
}

/// The absolute path of a raw entry.
pub open spec fn entry_path(e: RawEntry) -> Seq<char> {
    match e {
        RawEntry::File { path, .. } => path@,
        RawEntry::Dir { path, .. } => path@,
        RawEntry::Other { path, .. } => path@,
    }
}

/// A name has the Markdown extension exactly when it ends in `.md` and the
/// dot is not its first character, so a bare `.md` does not count; this is
/// how the host's path library assigns extensions.
pub open spec fn is_md_name(name: Seq<char>) -> bool {
    &&& name.len() >= 4
    &&& name[name.len() - 3] == '.'
    &&& name[name.len() - 2] == 'm'
    &&& name[name.len() - 1] == 'd'
}

/// Executable check for the Markdown extension, proved against
/// [`is_md_name`].
pub fn has_md_extension(name: &str) -> (r: bool)
    ensures
        r == is_md_name(name@),
{
    let n: usize = name.unicode_len();
    if n < 4 {
        return false;
    }
    let dot = name.get_char(n - 3);
    let m = name.get_char(n - 2);
    let d = name.get_char(n - 1);
    dot == '.' && m == 'm' && d == 'd'
}

/// The reserved subdirectory name that is never indexed.
pub open spec fn assets_name() -> Seq<char> {
    "assets"@
}

/// Executable check for the reserved name, proved against [`assets_name`].
pub fn is_assets_name(name: &String) -> (r: bool)
    ensures
        r == (name@ == assets_name()),
{
    let reserved: String = String::from_str("assets");
    name.eq(&reserved)
}

/// A directory with this name is descended into and indexed; one named
/// `assets` is skipped entirely.
pub fn should_descend(name: &String) -> (r: bool)
    ensures
        r == (name@ != assets_name()),
{
    !is_assets_name(name)
}

/// Whether a raw entry contributes a node to the tree: directories unless
/// they carry the reserved name, files exactly when their name has the
/// Markdown extension, nothing else.
pub open spec fn entry_included(e: RawEntry) -> bool {
    match e {
        RawEntry::File { name, .. } => is_md_name(name@),
        RawEntry::Dir { name, .. } => name@ != assets_name(),
        RawEntry::Other { .. } => false,
    }
}

/// The part of a node that identifies it at its own level: whether it is a
/// directory, its name, and its path.  Children are not part of it.
pub type ShallowNode = (bool, Seq<char>, Seq<char>);

/// The shallow identity of a node.
pub open spec fn shallow(n: FileSystemNode) -> ShallowNode {
    match n {
        FileSystemNode::Document { name, path } => (false, name@, path@),
        FileSystemNode::Directory { name, path, .. } => (true, name@, path@),
    }
}

/// The shallow identity of the node an included raw entry gives rise to.
pub open spec fn shallow_of_entry(e: RawEntry) -> ShallowNode {
    match e {
        RawEntry::File { name, path } => (false, name@, path@),
        RawEntry::Dir { name, path, .. } => (true, name@, path@),
        RawEntry::Other { name, path } => (false, name@, path@),
    }
}

/// The sort policy at one directory level: every directory comes before
/// every document, and within each class names ascend lexicographically.
pub open spec fn node_le(a: FileSystemNode, b: FileSystemNode) -> bool {
    if a is Directory && b is Document {
        true
    } else if a is Document && b is Directory {
        false
    } else {
        lex_le(node_name(a), node_name(b))
    }
}

/// Executable comparison under the sort policy, proved against [`node_le`].
pub fn node_le_exec(a: &FileSystemNode, b: &FileSystemNode) -> (r: bool)
    ensures
        r == node_le(*a, *b),
{
    match (a, b) {
        (FileSystemNode::Directory { .. }, FileSystemNode::Document { .. }) => true,
        (FileSystemNode::Document { .. }, FileSystemNode::Directory { .. }) => false,
        (
            FileSystemNode::Directory { name: name_a, .. },
            FileSystemNode::Directory { name: name_b, .. },
        ) => crate::name_order::name_le(name_a.as_str(), name_b.as_str()),
        (
            FileSystemNode::Document { name: name_a, .. },
            FileSystemNode::Document { name: name_b, .. },
        ) => crate::name_order::name_le(name_a.as_str(), name_b.as_str()),
    }
}

/// The sort policy is total: any two nodes are comparable.
pub proof fn lemma_node_le_total(a: FileSystemNode, b: FileSystemNode)
    ensures
        node_le(a, b) || node_le(b, a),
{
    crate::name_order::lemma_lex_le_total(node_name(a), node_name(b));
}

/// The sort policy is transitive.
pub proof fn lemma_node_le_transitive(a: FileSystemNode, b: FileSystemNode, c: FileSystemNode)
    requires
        node_le(a, b),
        node_le(b, c),
    ensures
        node_le(a, c),
{
    if !(a is Directory && c is Document) {
        if a is Document && c is Directory {
            assert(false);
        } else {
            crate::name_order::lemma_lex_le_transitive(
                node_name(a),
                node_name(b),
                node_name(c),
            );
        }
    }
}

/// The key the sort policy compares: the class (directory or not) and the
/// display name.  Nodes with equal keys are ties of the sort.
pub type NodeKey = (bool, Seq<char>);

/// The sort key of a node.
pub open spec fn node_key(n: FileSystemNode) -> NodeKey {
    (n is Directory, node_name(n))
}

/// The sort key carried by a shallow identity.
pub open spec fn shallow_key(s: ShallowNode) -> NodeKey {
    (s.0, s.1)
}

/// Nodes with equal keys compare equal under the sort policy.
pub proof fn lemma_equal_keys_tie(a: FileSystemNode, b: FileSystemNode)
    requires
        node_key(a) == node_key(b),
    ensures
        node_le(a, b),
        node_le(b, a),
{
    crate::name_order::lemma_lex_le_reflexive(node_name(a));
}

/// A children sequence that obeys the sort policy.
pub open spec fn sorted_level(s: Seq<FileSystemNode>) -> bool {
    forall|i: int, j: int| 0 <= i < j < s.len() ==> node_le(s[i], s[j])
}

} // verus!

