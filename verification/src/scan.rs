//! The path scanner: from raw directory entries to the indexed tree.
//!
//! [`build_file_tree`] turns the raw entries of one directory into the
//! ordered forest of `FileSystemNode`s, applying the reserved-name
//! exclusion, the Markdown extension filter and the sort policy at every
//! level.  Its contract is the relation [`level_ok`], which pins down, for
//! every level of the result: the sort order, exactly which entries appear,
//! and that every directory node's children come from that directory's own
//! entries in the same way.

use vstd::prelude::*;
use crate::node::{
    FileSystemNode, NodeKey, RawEntry, ShallowNode, shallow, shallow_of_entry,
    entry_included, sorted_level, has_md_extension, should_descend,
};
use crate::tree_sort::{
    key_filter, key_shallows, lemma_shallow_of_key_filter, shallow_seq, sort_nodes,
};

verus! {

broadcast use
    vstd::seq_lib::group_to_multiset_ensures,
    vstd::multiset::group_multiset_axioms,
;

/// The shallow identities of the nodes that a raw entry sequence
/// contributes to its level, in traversal order.
pub open spec fn shallow_included(entries: Seq<RawEntry>) -> Seq<ShallowNode>
    decreases entries.len(),
{
    if entries.len() == 0 {
        Seq::empty()
    } else {
        shallow_included(entries.drop_last()) + (if entry_included(entries.last()) {
            seq![shallow_of_entry(entries.last())]
        } else {
            Seq::empty()
        })
    }
}

/// The scanner's contract for one directory level: the nodes are sorted;
/// their shallow identities are exactly those of the included entries,
/// with ties on the sort key kept in traversal order (the sort is
/// stable); and every directory node is built from a matching raw
/// subdirectory.
pub open spec fn level_ok(entries: Seq<RawEntry>, nodes: Seq<FileSystemNode>) -> bool
    decreases entries, 2int,
{
    &&& sorted_level(nodes)
    &&& shallow_seq(nodes).to_multiset() == shallow_included(entries).to_multiset()
    &&& forall|k: NodeKey| #[trigger] key_shallows(shallow_seq(nodes), k) == key_shallows(
        shallow_included(entries),
        k,
    )
    &&& forall|j: int|
        #![trigger nodes[j]]
        0 <= j < nodes.len() ==> node_sourced(entries, nodes[j])
}

/// A document node stands on its own; a directory node must be built from
/// a matching raw subdirectory among the given entries.
pub open spec fn node_sourced(entries: Seq<RawEntry>, n: FileSystemNode) -> bool
    decreases entries, 1int,
{
    n is Directory ==> exists|i: int|
        #![trigger entries[i]]
        0 <= i < entries.len() && dir_matches(entries[i], n)
}

/// A directory node is built from a raw subdirectory entry when their names
/// and paths agree and the children satisfy the scanner's contract for the
/// subdirectory's own entries.
pub open spec fn dir_matches(e: RawEntry, n: FileSystemNode) -> bool
    decreases e, 0int,
{
    match (e, n) {
        (
            RawEntry::Dir { name: entry_name, path: entry_path, entries: sub },
            FileSystemNode::Directory { name, path, children },
        ) => entry_name@ == name@ && entry_path@ == path@ && level_ok(sub@, children@),
        _ => false,
    }
}

/// Extending a prefix of the entries by one extends its shallow
/// contribution by that entry's contribution.
proof fn lemma_shallow_included_step(entries: Seq<RawEntry>, i: int)
    requires
        0 <= i < entries.len(),
    ensures
        shallow_included(entries.subrange(0, i + 1)) == shallow_included(entries.subrange(0, i))
            + (if entry_included(entries[i]) {
            seq![shallow_of_entry(entries[i])]
        } else {
            Seq::empty()
        }),
{
    let prefix = entries.subrange(0, i + 1);
    assert(prefix.drop_last() =~= entries.subrange(0, i));
    assert(prefix.last() == entries[i]);
}

/// Builds the indexed tree for one directory from its raw entries:
/// subdirectories recurse unless they carry the reserved name, files stay
/// exactly when their name has the Markdown extension, and every level is
/// sorted.
pub fn build_file_tree(entries: &Vec<RawEntry>) -> (r: Vec<FileSystemNode>)
    ensures
        level_ok(entries@, r@),
    decreases entries@,
{
    let mut collected: Vec<FileSystemNode> = Vec::new();
    let mut i: usize = 0;
    while i < entries.len()
        invariant
            0 <= i <= entries@.len(),
            shallow_seq(collected@) == shallow_included(entries@.subrange(0, i as int)),
            forall|j: int|
                #![trigger collected@[j]]
                0 <= j < collected@.len() ==> node_sourced(entries@, collected@[j]),
        decreases entries@.len() - i,
    {
        let ghost collected_before = collected@;
        let entry = &entries[i];
        match entry {
            RawEntry::File { name, path } => {
                if has_md_extension(name.as_str()) {
                    collected.push(
                        FileSystemNode::Document { name: name.clone(), path: path.clone() },
                    );
                }
            },
            RawEntry::Dir { name, path, entries: sub } => {
                if should_descend(name) {
                    proof {
                        assert(decreases_to!(entries@ => sub@));
                    }
                    let children = build_file_tree(sub);
                    collected.push(
                        FileSystemNode::Directory {
                            name: name.clone(),
                            path: path.clone(),
                            children,
                        },
                    );
                    proof {
                        assert(collected@ =~= collected_before.push(collected@.last()));
                        assert(dir_matches(entries@[i as int], collected@.last()));
                        assert(node_sourced(entries@, collected@.last()));
                    }
                }
            },
            RawEntry::Other { .. } => {},
        }
        proof {
            lemma_shallow_included_step(entries@, i as int);
            if entry_included(entries@[i as int]) {
                let node = collected@.last();
                assert(collected@ =~= collected_before.push(node));
                assert(shallow_seq(collected@) =~= shallow_seq(collected_before).push(
                    shallow(node),
                ));
                assert(shallow(node) == shallow_of_entry(entries@[i as int]));
                let with_key = shallow_included(entries@.subrange(0, i as int)).push(
                    shallow_of_entry(entries@[i as int]),
                );
                assert(shallow_included(entries@.subrange(0, i + 1)) =~= with_key);
            } else {
                assert(collected@ == collected_before);
                assert(shallow_included(entries@.subrange(0, i + 1)) =~= shallow_included(
                    entries@.subrange(0, i as int),
                ));
            }
        }
        i = i + 1;
    }
    proof {
        assert(entries@.subrange(0, i as int) =~= entries@);
    }
    let r = sort_nodes(collected);
    proof {
        assert forall|j: int| #![trigger r@[j]] 0 <= j < r@.len() implies node_sourced(
            entries@,
            r@[j],
        ) by {
            assert(r@.contains(r@[j]));
            assert(r@.to_multiset().count(r@[j]) > 0);
            assert(collected@.to_multiset().count(r@[j]) > 0);
            assert(collected@.contains(r@[j]));
            let jj = choose|jj: int| 0 <= jj < collected@.len() && collected@[jj] == r@[j];
            assert(node_sourced(entries@, collected@[jj]));
        }
        assert forall|k: NodeKey| #[trigger] key_shallows(shallow_seq(r@), k) == key_shallows(
            shallow_included(entries@),
            k,
        ) by {
            lemma_shallow_of_key_filter(r@, k);
            lemma_shallow_of_key_filter(collected@, k);
            assert(key_filter(r@, k) == key_filter(collected@, k));
        }
    }
    r
}

} // verus!
