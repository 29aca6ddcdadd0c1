//! The tree builder's sort policy, as a verified insertion sort.
//!
//! At every directory level the children are reordered so that directories
//! come before documents and each class ascends by name.  The sort keeps
//! exactly the nodes it was given: the result is a permutation, both of the
//! nodes themselves and of their shallow identities.

use vstd::prelude::*;
use crate::node::{
    FileSystemNode, NodeKey, ShallowNode, node_key, shallow, shallow_key, node_le,
    sorted_level, node_le_exec, lemma_node_le_total, lemma_node_le_transitive,
    lemma_equal_keys_tie,
};

verus! {

broadcast use
    vstd::seq_lib::group_to_multiset_ensures,
    vstd::multiset::group_multiset_axioms,
    Seq::filter_distributes_over_add,
;

/// The shallow identities of a node sequence, in order.
pub open spec fn shallow_seq(s: Seq<FileSystemNode>) -> Seq<ShallowNode> {
    s.map_values(|n: FileSystemNode| shallow(n))
}

/// Inserting a node into a sequence inserts its shallow identity into the
/// sequence of shallow identities.
proof fn lemma_shallow_seq_insert(s: Seq<FileSystemNode>, i: int, x: FileSystemNode)
    requires
        0 <= i <= s.len(),
    ensures
        shallow_seq(s.insert(i, x)) =~= shallow_seq(s).insert(i, shallow(x)),
{
}

/// Dropping the last node drops the last shallow identity.
proof fn lemma_shallow_seq_drop_last(s: Seq<FileSystemNode>)
    requires
        s.len() > 0,
    ensures
        shallow_seq(s) =~= shallow_seq(s.subrange(0, s.len() - 1)).push(shallow(s.last())),
{
}

/// The ties of one sort key, in order: the subsequence of nodes whose key
/// is `k`.
pub open spec fn key_filter(s: Seq<FileSystemNode>, k: NodeKey) -> Seq<FileSystemNode> {
    s.filter(|n: FileSystemNode| node_key(n) == k)
}

/// The ties of one sort key among shallow identities, in order.
pub open spec fn key_shallows(s: Seq<ShallowNode>, k: NodeKey) -> Seq<ShallowNode> {
    s.filter(|sh: ShallowNode| shallow_key(sh) == k)
}

/// Taking shallow identities commutes with restricting to one sort key.
pub proof fn lemma_shallow_of_key_filter(s: Seq<FileSystemNode>, k: NodeKey)
    ensures
        shallow_seq(key_filter(s, k)) =~= key_shallows(shallow_seq(s), k),
    decreases s.len(),
{
    reveal(Seq::filter);
    if s.len() > 0 {
        lemma_shallow_of_key_filter(s.drop_last(), k);
        assert(shallow_seq(s).drop_last() =~= shallow_seq(s.drop_last()));
        assert(shallow_seq(s).last() == shallow(s.last()));
        assert(shallow_key(shallow(s.last())) == node_key(s.last()));
        if node_key(s.last()) == k {
            assert(shallow_seq(key_filter(s.drop_last(), k).push(s.last()))
                =~= shallow_seq(key_filter(s.drop_last(), k)).push(shallow(s.last())));
        }
    }
}

/// A sequence none of whose nodes carries the key filters to nothing.
proof fn lemma_key_filter_none(s: Seq<FileSystemNode>, k: NodeKey)
    requires
        forall|i: int| 0 <= i < s.len() ==> node_key(s[i]) != k,
    ensures
        key_filter(s, k) =~= Seq::<FileSystemNode>::empty(),
    decreases s.len(),
{
    reveal(Seq::filter);
    if s.len() > 0 {
        assert(forall|i: int|
            0 <= i < s.drop_last().len() ==> node_key(s.drop_last()[i]) != k);
        lemma_key_filter_none(s.drop_last(), k);
    }
}

/// Filtering a single node keeps it exactly when it carries the key.
proof fn lemma_key_filter_singleton(x: FileSystemNode, k: NodeKey)
    ensures
        node_key(x) == k ==> key_filter(seq![x], k) =~= seq![x],
        node_key(x) != k ==> key_filter(seq![x], k) =~= Seq::<FileSystemNode>::empty(),
{
    reveal_with_fuel(Seq::filter, 2);
    assert(seq![x].drop_last() =~= Seq::<FileSystemNode>::empty());
    assert(seq![x].last() == x);
}

/// Inserting a node below all its ties puts it at the front of its key's
/// subsequence and leaves every other key's subsequence alone.
proof fn lemma_key_filter_insert(t: Seq<FileSystemNode>, j: int, x: FileSystemNode)
    requires
        0 <= j <= t.len(),
        forall|m: int| 0 <= m < j ==> node_key(t[m]) != node_key(x),
    ensures
        key_filter(t.insert(j, x), node_key(x)) =~= seq![x] + key_filter(t, node_key(x)),
        forall|k: NodeKey|
            k != node_key(x) ==> key_filter(t.insert(j, x), k) =~= key_filter(t, k),
{
    let pre = t.subrange(0, j);
    let suf = t.subrange(j, t.len() as int);
    assert(t.insert(j, x) =~= (pre + seq![x]) + suf);
    assert(t =~= pre + suf);
    assert(key_filter((pre + seq![x]) + suf, node_key(x)) == key_filter(pre + seq![x], node_key(x))
        + key_filter(suf, node_key(x)));
    assert(key_filter(pre + seq![x], node_key(x)) == key_filter(pre, node_key(x)) + key_filter(
        seq![x],
        node_key(x),
    ));
    lemma_key_filter_none(pre, node_key(x));
    lemma_key_filter_singleton(x, node_key(x));
    assert(key_filter(t.insert(j, x), node_key(x)) =~= seq![x] + key_filter(t, node_key(x)));
    assert forall|k: NodeKey| k != node_key(x) implies key_filter(t.insert(j, x), k)
        =~= key_filter(t, k) by {
        assert(key_filter((pre + seq![x]) + suf, k) == key_filter(pre + seq![x], k) + key_filter(
            suf,
            k,
        ));
        assert(key_filter(pre + seq![x], k) == key_filter(pre, k) + key_filter(seq![x], k));
        lemma_key_filter_singleton(x, k);
        assert(key_filter(t, k) == key_filter(pre, k) + key_filter(suf, k));
    }
}

/// Sorts one level of the tree: directories before documents, names
/// ascending within each class.  The result holds exactly the given
/// nodes, and the sort is stable: nodes that tie on class and name keep
/// their original order.
pub fn sort_nodes(nodes: Vec<FileSystemNode>) -> (r: Vec<FileSystemNode>)
    ensures
        sorted_level(r@),
        r@.to_multiset() == nodes@.to_multiset(),
        shallow_seq(r@).to_multiset() == shallow_seq(nodes@).to_multiset(),
        forall|k: NodeKey| #[trigger] key_filter(r@, k) == key_filter(nodes@, k),
{
    let ghost orig = nodes@;
    let mut rest = nodes;
    let mut r: Vec<FileSystemNode> = Vec::new();
    proof {
        assert(orig.subrange(0, orig.len() as int) =~= orig);
        assert(orig.skip(rest@.len() as int) =~= Seq::<FileSystemNode>::empty());
        assert forall|k: NodeKey| #[trigger] key_filter(r@, k) == key_filter(
            orig.skip(rest@.len() as int),
            k,
        ) by {
            reveal(Seq::filter);
        }
    }
    while rest.len() > 0
        invariant
            sorted_level(r@),
            rest@.len() <= orig.len(),
            rest@ == orig.subrange(0, rest@.len() as int),
            r@.to_multiset().add(rest@.to_multiset()) == orig.to_multiset(),
            shallow_seq(r@).to_multiset().add(shallow_seq(rest@).to_multiset())
                == shallow_seq(orig).to_multiset(),
            forall|k: NodeKey| #[trigger] key_filter(r@, k) == key_filter(
                orig.skip(rest@.len() as int),
                k,
            ),
        decreases rest@.len(),
    {
        let ghost rest_before = rest@;
        let x = rest.pop().unwrap();
        proof {
            assert(rest_before =~= rest@.push(x));
            lemma_shallow_seq_drop_last(rest_before);
            assert(shallow_seq(rest_before) =~= shallow_seq(rest@).push(shallow(x)));
            assert(rest_before.to_multiset() == rest@.to_multiset().insert(x));
            assert(shallow_seq(rest_before).to_multiset()
                == shallow_seq(rest@).to_multiset().insert(shallow(x)));
            assert(rest@ =~= orig.subrange(0, rest@.len() as int));
            assert(x == orig[rest@.len() as int]);
            assert(orig.skip(rest@.len() as int) =~= seq![x] + orig.skip(
                rest_before.len() as int,
            ));
        }
        let mut j: usize = 0;
        while j < r.len() && !node_le_exec(&x, &r[j])
            invariant
                0 <= j <= r@.len(),
                forall|k: int| 0 <= k < j ==> !node_le(x, r@[k]),
            decreases r@.len() - j,
        {
            j = j + 1;
        }
        proof {
            assert forall|k: int| 0 <= k < j implies node_le(r@[k], x) by {
                lemma_node_le_total(r@[k], x);
            }
            if j < r@.len() {
                assert forall|m: int| j <= m < r@.len() implies node_le(x, r@[m]) by {
                    if m > j {
                        lemma_node_le_transitive(x, r@[j as int], r@[m]);
                    }
                }
            }
            assert forall|m: int| 0 <= m < j implies node_key(r@[m]) != node_key(x) by {
                if node_key(r@[m]) == node_key(x) {
                    lemma_equal_keys_tie(x, r@[m]);
                }
            }
        }
        let ghost r_before = r@;
        r.insert(j, x);
        proof {
            assert(r@ == r_before.insert(j as int, x));
            assert(sorted_level(r@)) by {
                assert forall|p: int, q: int| 0 <= p < q < r@.len() implies node_le(
                    r@[p],
                    r@[q],
                ) by {
                    if p < j && q == j {
                    } else if p == j && q > j {
                    } else if p < j && q > j {
                        assert(node_le(r_before[p], r_before[q - 1]));
                    }
                }
            }
            lemma_shallow_seq_insert(r_before, j as int, x);
            lemma_key_filter_insert(r_before, j as int, x);
            assert forall|k: NodeKey| #[trigger] key_filter(r@, k) == key_filter(
                orig.skip(rest@.len() as int),
                k,
            ) by {
                let processed_old = orig.skip(rest_before.len() as int);
                assert(key_filter(seq![x] + processed_old, k) == key_filter(seq![x], k)
                    + key_filter(processed_old, k));
                lemma_key_filter_singleton(x, k);
                if k == node_key(x) {
                    assert(key_filter(r@, k) =~= seq![x] + key_filter(r_before, k));
                    assert(key_filter(orig.skip(rest@.len() as int), k) =~= seq![x]
                        + key_filter(processed_old, k));
                } else {
                    assert(key_filter(r@, k) =~= key_filter(r_before, k));
                    assert(key_filter(orig.skip(rest@.len() as int), k) =~= key_filter(
                        processed_old,
                        k,
                    ));
                }
            }
        }
    }
    proof {
        assert(rest@.to_multiset().len() == 0);
        vstd::multiset::lemma_multiset_empty_len(rest@.to_multiset());
        assert(r@.to_multiset().add(rest@.to_multiset()) =~= r@.to_multiset());
        assert(shallow_seq(rest@) =~= Seq::<ShallowNode>::empty());
        assert(shallow_seq(rest@).to_multiset().len() == 0);
        vstd::multiset::lemma_multiset_empty_len(shallow_seq(rest@).to_multiset());
        assert(shallow_seq(r@).to_multiset().add(shallow_seq(rest@).to_multiset())
            =~= shallow_seq(r@).to_multiset());
        assert(orig.skip(0) =~= orig);
    }
    r
}

} // verus!
