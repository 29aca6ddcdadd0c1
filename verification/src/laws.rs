//! The guarantees the scanner's contract gives for a whole tree.
//!
//! [`level_ok`](crate::scan::level_ok) speaks about one directory level and
//! recurses through directory nodes.  The proof functions here draw out the
//! tree-wide consequences: the reserved `assets` subtree never appears, a
//! file appears as a document exactly when its name has the Markdown
//! extension, and every level of the tree is sorted.

use vstd::prelude::*;
use crate::node::{
    FileSystemNode, RawEntry, ShallowNode, shallow, shallow_of_entry, entry_included,
    entry_name, entry_path, node_name, node_path, sorted_level, is_md_name, assets_name,
};
use crate::scan::{level_ok, node_sourced, dir_matches, shallow_included};
use crate::tree_sort::shallow_seq;

verus! {

broadcast use
    vstd::seq_lib::group_to_multiset_ensures,
    vstd::multiset::group_multiset_axioms,
;

/// Every level of the tree obeys the sort policy.
pub open spec fn tree_sorted(nodes: Seq<FileSystemNode>) -> bool
    decreases nodes,
{
    &&& sorted_level(nodes)
    &&& forall|j: int|
        #![trigger nodes[j]]
        0 <= j < nodes.len() ==> subtree_sorted(nodes[j])
}

/// The children of a directory node obey the sort policy at every level.
pub open spec fn subtree_sorted(n: FileSystemNode) -> bool
    decreases n,
{
    n is Directory ==> tree_sorted(n->children@)
}

/// No directory node anywhere in the tree carries the reserved name.
pub open spec fn tree_excludes_assets(nodes: Seq<FileSystemNode>) -> bool
    decreases nodes,
{
    forall|j: int|
        #![trigger nodes[j]]
        0 <= j < nodes.len() ==> subtree_excludes_assets(nodes[j])
}

/// The node is not a directory named `assets`, nor holds one below it.
pub open spec fn subtree_excludes_assets(n: FileSystemNode) -> bool
    decreases n,
{
    n is Directory ==> node_name(n) != assets_name() && tree_excludes_assets(n->children@)
}

/// Every document node anywhere in the tree has the Markdown extension.
pub open spec fn tree_docs_md(nodes: Seq<FileSystemNode>) -> bool
    decreases nodes,
{
    forall|j: int|
        #![trigger nodes[j]]
        0 <= j < nodes.len() ==> subtree_docs_md(nodes[j])
}

/// The node is a Markdown document, or a directory all of whose
/// descendants that are documents are Markdown documents.
pub open spec fn subtree_docs_md(n: FileSystemNode) -> bool
    decreases n,
{
    &&& n is Document ==> is_md_name(node_name(n))
    &&& n is Directory ==> tree_docs_md(n->children@)
}

/// An included entry contributes its shallow identity to the level.
proof fn lemma_shallow_included_contains(entries: Seq<RawEntry>, i: int)
    requires
        0 <= i < entries.len(),
        entry_included(entries[i]),
    ensures
        shallow_included(entries).contains(shallow_of_entry(entries[i])),
    decreases entries.len(),
{
    if i == entries.len() - 1 {
        let s = shallow_included(entries);
        assert(s[s.len() - 1] == shallow_of_entry(entries[i]));
    } else {
        assert(entries.drop_last()[i] == entries[i]);
        lemma_shallow_included_contains(entries.drop_last(), i);
        let prefix = shallow_included(entries.drop_last());
        let k = choose|k: int| 0 <= k < prefix.len() && prefix[k] == shallow_of_entry(entries[i]);
        assert(shallow_included(entries)[k] == shallow_of_entry(entries[i]));
    }
}

/// Every shallow identity on a level comes from an included entry.
proof fn lemma_shallow_included_source(entries: Seq<RawEntry>, key: ShallowNode)
    requires
        shallow_included(entries).contains(key),
    ensures
        exists|i: int|
            #![trigger entries[i]]
            0 <= i < entries.len() && entry_included(entries[i]) && shallow_of_entry(entries[i])
                == key,
    decreases entries.len(),
{
    let s = shallow_included(entries);
    assert(entries.len() > 0);
    let last = entries.last();
    if entry_included(last) && shallow_of_entry(last) == key {
        assert(entries[entries.len() - 1] == last);
    } else {
        let k = choose|k: int| 0 <= k < s.len() && s[k] == key;
        let prefix = shallow_included(entries.drop_last());
        assert(k < prefix.len() && prefix[k] == key);
        lemma_shallow_included_source(entries.drop_last(), key);
        let i = choose|i: int|
            0 <= i < entries.drop_last().len() && entry_included(entries.drop_last()[i])
                && shallow_of_entry(entries.drop_last()[i]) == key;
        assert(entries.drop_last()[i] == entries[i]);
    }
}

/// Every node on a level built by the scanner descends from an included
/// entry with the same shallow identity.
pub proof fn lemma_node_has_source(entries: Seq<RawEntry>, nodes: Seq<FileSystemNode>, j: int)
    requires
        level_ok(entries, nodes),
        0 <= j < nodes.len(),
    ensures
        exists|i: int|
            #![trigger entries[i]]
            0 <= i < entries.len() && entry_included(entries[i]) && shallow_of_entry(entries[i])
                == shallow(nodes[j]),
{
    let key = shallow(nodes[j]);
    assert(shallow_seq(nodes)[j] == key);
    assert(shallow_seq(nodes).contains(key));
    assert(shallow_seq(nodes).to_multiset().count(key) > 0);
    assert(shallow_included(entries).to_multiset().count(key) > 0);
    assert(shallow_included(entries).contains(key));
    lemma_shallow_included_source(entries, key);
}

/// Every included entry gives rise to a node with its shallow identity on
/// the scanned level.
pub proof fn lemma_entry_has_node(entries: Seq<RawEntry>, nodes: Seq<FileSystemNode>, i: int)
    requires
        level_ok(entries, nodes),
        0 <= i < entries.len(),
        entry_included(entries[i]),
    ensures
        exists|j: int|
            #![trigger nodes[j]]
            0 <= j < nodes.len() && shallow(nodes[j]) == shallow_of_entry(entries[i]),
{
    let key = shallow_of_entry(entries[i]);
    lemma_shallow_included_contains(entries, i);
    assert(shallow_included(entries).to_multiset().count(key) > 0);
    assert(shallow_seq(nodes).to_multiset().count(key) > 0);
    assert(shallow_seq(nodes).contains(key));
    let j = choose|j: int| 0 <= j < shallow_seq(nodes).len() && shallow_seq(nodes)[j] == key;
    assert(shallow_seq(nodes)[j] == shallow(nodes[j]));
}

/// A file whose name has the Markdown extension appears as a document node
/// with the same name and path on the scanned level.
pub proof fn lemma_md_file_has_document(
    entries: Seq<RawEntry>,
    nodes: Seq<FileSystemNode>,
    i: int,
)
    requires
        level_ok(entries, nodes),
        0 <= i < entries.len(),
        entries[i] is File,
        is_md_name(entry_name(entries[i])),
    ensures
        exists|j: int|
            #![trigger nodes[j]]
            0 <= j < nodes.len() && nodes[j] is Document && node_name(nodes[j]) == entry_name(
                entries[i],
            ) && node_path(nodes[j]) == entry_path(entries[i]),
{
    lemma_entry_has_node(entries, nodes, i);
    let j = choose|j: int|
        #![trigger nodes[j]]
        0 <= j < nodes.len() && shallow(nodes[j]) == shallow_of_entry(entries[i]);
    assert(nodes[j] is Document && node_name(nodes[j]) == entry_name(entries[i])
        && node_path(nodes[j]) == entry_path(entries[i]));
}

/// Directory entries are told apart by name and path on every level: two
/// distinct subdirectory entries of one directory never share both.  Any
/// listing read from a filesystem has this shape.
pub open spec fn dirs_distinct(entries: Seq<RawEntry>) -> bool
    decreases entries,
{
    &&& forall|i: int, k: int|
        #![trigger entries[i], entries[k]]
        0 <= i < k < entries.len() && entries[i] is Dir && entries[k] is Dir && entry_name(
            entries[i],
        ) == entry_name(entries[k]) ==> entry_path(entries[i]) != entry_path(entries[k])
    &&& forall|i: int|
        #![trigger entries[i]]
        0 <= i < entries.len() ==> entry_dirs_distinct(entries[i])
}

/// A subdirectory entry's own entries are distinct in the same way.
pub open spec fn entry_dirs_distinct(e: RawEntry) -> bool
    decreases e,
{
    e is Dir ==> dirs_distinct(e->entries@)
}

/// Every Markdown file at any depth outside the reserved subtree appears
/// as a document node, and every admitted subdirectory as a directory
/// node whose children are complete in turn.
pub open spec fn tree_complete(entries: Seq<RawEntry>, nodes: Seq<FileSystemNode>) -> bool
    decreases entries,
{
    forall|i: int|
        #![trigger entries[i]]
        0 <= i < entries.len() ==> entry_represented(entries[i], nodes)
}

/// What the tree owes one raw entry: a matching document node for a
/// Markdown file, a matching directory node with complete children for an
/// admitted subdirectory, and nothing for anything else.
pub open spec fn entry_represented(e: RawEntry, nodes: Seq<FileSystemNode>) -> bool
    decreases e,
{
    &&& e is File && is_md_name(entry_name(e)) ==> exists|j: int|
        #![trigger nodes[j]]
        0 <= j < nodes.len() && nodes[j] is Document && node_name(nodes[j]) == entry_name(e)
            && node_path(nodes[j]) == entry_path(e)
    &&& e is Dir && entry_name(e) != assets_name() ==> exists|j: int|
        #![trigger nodes[j]]
        0 <= j < nodes.len() && nodes[j] is Directory && node_name(nodes[j]) == entry_name(e)
            && node_path(nodes[j]) == entry_path(e) && tree_complete(
            e->entries@,
            nodes[j]->children@,
        )
}

/// The completeness law: a tree built by the scanner from distinct
/// directory listings represents every Markdown file and every admitted
/// subdirectory, at every depth.
pub proof fn lemma_tree_complete(entries: Seq<RawEntry>, nodes: Seq<FileSystemNode>)
    requires
        level_ok(entries, nodes),
        dirs_distinct(entries),
    ensures
        tree_complete(entries, nodes),
    decreases entries,
{
    assert forall|i: int| #![trigger entries[i]] 0 <= i < entries.len() implies
        entry_represented(entries[i], nodes) by {
        let e = entries[i];
        if e is File && is_md_name(entry_name(e)) {
            lemma_md_file_has_document(entries, nodes, i);
        }
        if e is Dir && entry_name(e) != assets_name() {
            lemma_entry_has_node(entries, nodes, i);
            let j = choose|j: int|
                #![trigger nodes[j]]
                0 <= j < nodes.len() && shallow(nodes[j]) == shallow_of_entry(e);
            assert(nodes[j] is Directory);
            assert(node_sourced(entries, nodes[j]));
            let k = choose|k: int|
                #![trigger entries[k]]
                0 <= k < entries.len() && dir_matches(entries[k], nodes[j]);
            assert(entries[k] is Dir);
            assert(entry_name(entries[k]) == node_name(nodes[j]));
            assert(entry_path(entries[k]) == node_path(nodes[j]));
            assert(k == i);
            assert(dir_matches(e, nodes[j]));
            assert(entry_dirs_distinct(e));
            lemma_tree_complete(e->entries@, nodes[j]->children@);
        }
    }
}

/// The exclusion law: a tree built by the scanner holds no directory named
/// `assets` at any level.
pub proof fn lemma_tree_excludes_assets(entries: Seq<RawEntry>, nodes: Seq<FileSystemNode>)
    requires
        level_ok(entries, nodes),
    ensures
        tree_excludes_assets(nodes),
    decreases entries,
{
    assert forall|j: int| #![trigger nodes[j]] 0 <= j < nodes.len() implies
        subtree_excludes_assets(nodes[j]) by {
        if nodes[j] is Directory {
            lemma_node_has_source(entries, nodes, j);
            let i = choose|i: int|
                #![trigger entries[i]]
                0 <= i < entries.len() && entry_included(entries[i]) && shallow_of_entry(
                    entries[i],
                ) == shallow(nodes[j]);
            assert(entries[i] is Dir);
            assert(node_name(nodes[j]) != assets_name());
            assert(node_sourced(entries, nodes[j]));
            let k = choose|k: int|
                #![trigger entries[k]]
                0 <= k < entries.len() && dir_matches(entries[k], nodes[j]);
            lemma_tree_excludes_assets(entries[k]->entries@, nodes[j]->children@);
        }
    }
}

/// The sort law: every level of a tree built by the scanner is sorted,
/// directories first, names ascending within each class.
pub proof fn lemma_tree_sorted(entries: Seq<RawEntry>, nodes: Seq<FileSystemNode>)
    requires
        level_ok(entries, nodes),
    ensures
        tree_sorted(nodes),
    decreases entries,
{
    assert forall|j: int| #![trigger nodes[j]] 0 <= j < nodes.len() implies
        subtree_sorted(nodes[j]) by {
        if nodes[j] is Directory {
            assert(node_sourced(entries, nodes[j]));
            let k = choose|k: int|
                #![trigger entries[k]]
                0 <= k < entries.len() && dir_matches(entries[k], nodes[j]);
            lemma_tree_sorted(entries[k]->entries@, nodes[j]->children@);
        }
    }
}

/// The extension law, one direction: every document node anywhere in a
/// tree built by the scanner has the Markdown extension.
pub proof fn lemma_tree_docs_md(entries: Seq<RawEntry>, nodes: Seq<FileSystemNode>)
    requires
        level_ok(entries, nodes),
    ensures
        tree_docs_md(nodes),
    decreases entries,
{
    assert forall|j: int| #![trigger nodes[j]] 0 <= j < nodes.len() implies
        subtree_docs_md(nodes[j]) by {
        if nodes[j] is Document {
            lemma_node_has_source(entries, nodes, j);
            let i = choose|i: int|
                #![trigger entries[i]]
                0 <= i < entries.len() && entry_included(entries[i]) && shallow_of_entry(
                    entries[i],
                ) == shallow(nodes[j]);
            assert(entries[i] is File);
            assert(is_md_name(node_name(nodes[j])));
        }
        if nodes[j] is Directory {
            assert(node_sourced(entries, nodes[j]));
            let k = choose|k: int|
                #![trigger entries[k]]
                0 <= k < entries.len() && dir_matches(entries[k], nodes[j]);
            lemma_tree_docs_md(entries[k]->entries@, nodes[j]->children@);
        }
    }
}

} // verus!
