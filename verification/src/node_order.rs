//! The order in which a folder's entries are shown: folders first, then by
//! name.

use vstd::prelude::*;
use vstd::utf8::encode_utf8;
use crate::fs::{lemma_node_view, node_view, nodes_view, FileNode, NodeView};
use crate::text::{
    lemma_bytes_le_total, lemma_bytes_le_transitive, str_sorted, text_le,
};

verus! {

/// `a` is shown no later than `b`: a folder before a file, and among two of
/// a kind the one whose name sorts first.
pub open spec fn node_le(a: NodeView, b: NodeView) -> bool {
    if a.is_folder == b.is_folder {
        text_le(a.name, b.name)
    } else {
        a.is_folder
    }
}

/// Every node is shown no later than the nodes after it.
pub open spec fn is_sorted(nodes: Seq<NodeView>) -> bool {
    forall|i: int, j: int| 0 <= i < j < nodes.len() ==> node_le(nodes[i], nodes[j])
}

/// `node` put into a sorted list, in front of the first node that it is
/// shown no later than.
pub open spec fn insert_node(node: NodeView, sorted: Seq<NodeView>) -> Seq<NodeView>
    decreases sorted.len(),
{
    if sorted.len() == 0 {
        seq![node]
    } else if node_le(node, sorted[0]) {
        seq![node] + sorted
    } else {
        seq![sorted[0]] + insert_node(node, sorted.drop_first())
    }
}

/// The nodes in display order. Nodes that compare equal keep the order they
/// came in.
pub open spec fn sorted_nodes(nodes: Seq<NodeView>) -> Seq<NodeView>
    decreases nodes.len(),
{
    if nodes.len() == 0 {
        Seq::empty()
    } else {
        insert_node(nodes[0], sorted_nodes(nodes.drop_first()))
    }
}

/// Any two nodes are comparable.
pub proof fn lemma_node_le_total(a: NodeView, b: NodeView)
    ensures
        node_le(a, b) || node_le(b, a),
{
    lemma_bytes_le_total(encode_utf8(a.name), encode_utf8(b.name));
}

/// The display order is transitive.
pub proof fn lemma_node_le_transitive(a: NodeView, b: NodeView, c: NodeView)
    requires
        node_le(a, b),
        node_le(b, c),
    ensures
        node_le(a, c),
{
    if a.is_folder == b.is_folder && b.is_folder == c.is_folder {
        lemma_bytes_le_transitive(encode_utf8(a.name), encode_utf8(b.name), encode_utf8(c.name));
    }
}

proof fn lemma_insert_at(node: NodeView, sorted: Seq<NodeView>, at: int)
    requires
        0 <= at <= sorted.len(),
        forall|k: int| 0 <= k < at ==> !node_le(node, sorted[k]),
        at < sorted.len() ==> node_le(node, sorted[at]),
    ensures
        insert_node(node, sorted) == sorted.insert(at, node),
    decreases sorted.len(),
{
    if sorted.len() == 0 {
        assert(sorted.insert(at, node) =~= seq![node]);
    } else if at == 0 {
        assert(sorted.insert(0, node) =~= seq![node] + sorted);
    } else {
        let rest = sorted.drop_first();
        assert forall|k: int| 0 <= k < at - 1 implies !node_le(node, rest[k]) by {
            assert(rest[k] == sorted[k + 1]);
        }
        lemma_insert_at(node, rest, at - 1);
        assert(sorted.insert(at, node) =~= seq![sorted[0]] + rest.insert(at - 1, node));
    }
}

proof fn lemma_insert_keeps_sorted(node: NodeView, sorted: Seq<NodeView>)
    requires
        is_sorted(sorted),
    ensures
        is_sorted(insert_node(node, sorted)),
        insert_node(node, sorted).len() == sorted.len() + 1,
        insert_node(node, sorted).to_multiset() == sorted.to_multiset().insert(node),
    decreases sorted.len(),
{
    broadcast use vstd::seq_lib::group_to_multiset_ensures;

    let after = insert_node(node, sorted);
    if sorted.len() == 0 {
        assert(after =~= Seq::<NodeView>::empty().push(node));
        assert(sorted =~= Seq::<NodeView>::empty());
    } else if node_le(node, sorted[0]) {
        assert(after =~= sorted.insert(0, node));
        assert forall|i: int, j: int| 0 <= i < j < after.len() implies node_le(
            after[i],
            after[j],
        ) by {
            if i == 0 {
                if j > 1 {
                    lemma_node_le_transitive(node, sorted[0], sorted[j - 1]);
                }
            } else {
                assert(after[i] == sorted[i - 1] && after[j] == sorted[j - 1]);
            }
        }
        vstd::seq_lib::to_multiset_insert(sorted, 0, node);
    } else {
        let rest = sorted.drop_first();
        let inner = insert_node(node, rest);
        assert forall|i: int, j: int| 0 <= i < j < rest.len() implies node_le(rest[i], rest[j]) by {
            assert(rest[i] == sorted[i + 1] && rest[j] == sorted[j + 1]);
        }
        lemma_insert_keeps_sorted(node, rest);
        lemma_node_le_total(node, sorted[0]);
        assert(after =~= inner.insert(0, sorted[0]));
        assert forall|k: int| 0 <= k < inner.len() implies node_le(sorted[0], #[trigger] inner[k]) by {
            assert(inner.to_multiset().contains(inner[k]));
            if inner[k] != node {
                assert(rest.to_multiset().contains(inner[k]));
                let at = choose|at: int| 0 <= at < rest.len() && rest[at] == inner[k];
                assert(rest[at] == sorted[at + 1]);
            }
        }
        assert forall|i: int, j: int| 0 <= i < j < after.len() implies node_le(
            after[i],
            after[j],
        ) by {
            if i == 0 {
                assert(after[j] == inner[j - 1]);
            } else {
                assert(after[i] == inner[i - 1] && after[j] == inner[j - 1]);
            }
        }
        vstd::seq_lib::to_multiset_insert(inner, 0, sorted[0]);
        vstd::seq_lib::to_multiset_insert(rest, 0, sorted[0]);
        assert(sorted =~= rest.insert(0, sorted[0]));
        assert(after.to_multiset() =~= sorted.to_multiset().insert(node));
    }
}

/// Sorting yields the same nodes, each as often as before, in display
/// order.
pub proof fn lemma_sorted_nodes(nodes: Seq<NodeView>)
    ensures
        is_sorted(sorted_nodes(nodes)),
        sorted_nodes(nodes).len() == nodes.len(),
        sorted_nodes(nodes).to_multiset() == nodes.to_multiset(),
    decreases nodes.len(),
{
    broadcast use vstd::seq_lib::group_to_multiset_ensures;

    if nodes.len() == 0 {
        assert(nodes =~= Seq::<NodeView>::empty());
    } else {
        let rest = nodes.drop_first();
        lemma_sorted_nodes(rest);
        lemma_insert_keeps_sorted(nodes[0], sorted_nodes(rest));
        vstd::seq_lib::to_multiset_insert(rest, 0, nodes[0]);
        assert(nodes =~= rest.insert(0, nodes[0]));
    }
}

/// Whether `a` is shown no later than `b`.
pub fn shown_before(a: &FileNode, b: &FileNode) -> (le: bool)
    ensures
        le == node_le(a@, b@),
{
    proof {
        lemma_node_view(*a);
        lemma_node_view(*b);
    }
    if a.is_folder == b.is_folder {
        str_sorted(a.name.as_str(), b.name.as_str())
    } else {
        a.is_folder
    }
}

/// Puts the nodes in display order: folders first, then by name. Nodes that
/// compare equal keep their order.
pub fn sort_nodes(nodes: Vec<FileNode>) -> (sorted: Vec<FileNode>)
    ensures
        nodes_view(sorted@) == sorted_nodes(nodes_view(nodes@)),
        is_sorted(nodes_view(sorted@)),
        sorted@.len() == nodes@.len(),
        nodes_view(sorted@).to_multiset() == nodes_view(nodes@).to_multiset(),
{
    let ghost views = nodes_view(nodes@);
    let mut rest = nodes;
    let mut sorted: Vec<FileNode> = Vec::new();
    proof {
        assert(views.skip(views.len() as int) =~= Seq::<NodeView>::empty());
        assert(nodes_view(sorted@) =~= Seq::<NodeView>::empty());
    }
    while rest.len() > 0
        invariant
            rest@.len() <= views.len(),
            nodes_view(rest@) == views.take(rest@.len() as int),
            nodes_view(sorted@) == sorted_nodes(views.skip(rest@.len() as int)),
        decreases rest@.len(),
    {
        let ghost before = rest@;
        let ghost n = rest@.len() as int;
        let node = rest.pop().unwrap();
        proof {
            assert(node_view(node) == nodes_view(before)[n - 1]);
            assert(nodes_view(rest@) =~= views.take(n - 1));
            assert(views.skip(n - 1).drop_first() =~= views.skip(n));
            assert(views.skip(n - 1)[0] == node_view(node));
        }
        let mut at: usize = 0;
        while at < sorted.len() && !shown_before(&node, &sorted[at])
            invariant
                at <= sorted@.len(),
                forall|k: int| 0 <= k < at ==> !node_le(node_view(node), nodes_view(sorted@)[k]),
            decreases sorted@.len() - at,
        {
            at += 1;
        }
        proof {
            lemma_insert_at(node_view(node), nodes_view(sorted@), at as int);
        }
        let ghost placed = nodes_view(sorted@);
        sorted.insert(at, node);
        assert(nodes_view(sorted@) =~= placed.insert(at as int, node_view(node)));
    }
    proof {
        assert(views.skip(0) =~= views);
        lemma_sorted_nodes(views);
    }
    sorted
}

} // verus!
