//! Comparing what is on disk under a folder with what the index holds for
//! it.

use vstd::prelude::*;
use crate::fs::{
    lemma_node_view, node_view, nodes_view, strings_view, FileNode, FilePatch, NodeView, PatchView,
};
use crate::text::str_eq;

verus! {

/// Some node of `nodes` has the path `path`.
pub open spec fn lists_path(nodes: Seq<NodeView>, path: Seq<char>) -> bool {
    exists|i: int| 0 <= i < nodes.len() && (#[trigger] nodes[i]).path == path
}

/// The test "no node of `others` has this node's path".
pub open spec fn missing_from(others: Seq<NodeView>) -> spec_fn(NodeView) -> bool {
    |node: NodeView| !lists_path(others, node.path)
}

/// The paths of the nodes, in order.
pub open spec fn paths_of(nodes: Seq<NodeView>) -> Seq<Seq<char>> {
    Seq::new(nodes.len(), |i: int| nodes[i].path)
}

/// The nodes on disk that the index lacks, in disk order.
pub open spec fn added_nodes(disk: Seq<NodeView>, indexed: Seq<NodeView>) -> Seq<NodeView> {
    disk.filter(missing_from(indexed))
}

/// The paths in the index that are gone from disk, in index order.
pub open spec fn removed_paths(disk: Seq<NodeView>, indexed: Seq<NodeView>) -> Seq<Seq<char>> {
    paths_of(indexed.filter(missing_from(disk)))
}

/// Whether some node of `nodes` has the path `path`.
pub fn has_path(nodes: &Vec<FileNode>, path: &str) -> (found: bool)
    ensures
        found == lists_path(nodes_view(nodes@), path@),
{
    let mut i: usize = 0;
    while i < nodes.len()
        invariant
            i <= nodes@.len(),
            forall|k: int| 0 <= k < i ==> (#[trigger] nodes_view(nodes@)[k]).path != path@,
        decreases nodes@.len() - i,
    {
        proof {
            lemma_node_view(nodes@[i as int]);
        }
        if str_eq(nodes[i].path.as_str(), path) {
            assert(nodes_view(nodes@)[i as int].path == path@);
            return true;
        }
        i += 1;
    }
    false
}

/// The patch that brings the index of `parent_path` in line with the disk:
/// `disk_nodes` is the fresh listing of the folder, `db_nodes` what the
/// index holds for it. Entries are matched by path.
pub fn calculate_diff(
    project_id: &str,
    parent_path: &str,
    disk_nodes: &Vec<FileNode>,
    db_nodes: &Vec<FileNode>,
) -> (patch: FilePatch)
    ensures
        patch@ == (PatchView {
            project_id: project_id@,
            parent_path: parent_path@,
            added: added_nodes(nodes_view(disk_nodes@), nodes_view(db_nodes@)),
            removed: removed_paths(nodes_view(disk_nodes@), nodes_view(db_nodes@)),
        }),
{
    let ghost disk = nodes_view(disk_nodes@);
    let ghost indexed = nodes_view(db_nodes@);
    let mut added: Vec<FileNode> = Vec::new();
    let mut removed: Vec<String> = Vec::new();
    proof {
        reveal(Seq::filter);
        assert(nodes_view(added@) =~= disk.take(0).filter(missing_from(indexed)));
        assert(strings_view(removed@) =~= paths_of(indexed.take(0).filter(missing_from(disk))));
    }
    let mut i: usize = 0;
    while i < disk_nodes.len()
        invariant
            i <= disk_nodes@.len(),
            disk == nodes_view(disk_nodes@),
            indexed == nodes_view(db_nodes@),
            nodes_view(added@) == disk.take(i as int).filter(missing_from(indexed)),
        decreases disk_nodes@.len() - i,
    {
        let node = &disk_nodes[i];
        let ghost before = nodes_view(added@);
        proof {
            reveal(Seq::filter);
            lemma_node_view(*node);
            assert(disk.take(i + 1).drop_last() =~= disk.take(i as int));
            assert(disk.take(i + 1).last() == node_view(*node));
        }
        if !has_path(db_nodes, node.path.as_str()) {
            let copy = node.clone();
            added.push(copy);
            assert(nodes_view(added@) =~= before.push(node_view(*node)));
        }
        i += 1;
    }
    let mut j: usize = 0;
    while j < db_nodes.len()
        invariant
            j <= db_nodes@.len(),
            disk == nodes_view(disk_nodes@),
            indexed == nodes_view(db_nodes@),
            strings_view(removed@) == paths_of(indexed.take(j as int).filter(missing_from(disk))),
        decreases db_nodes@.len() - j,
    {
        let node = &db_nodes[j];
        let ghost before = strings_view(removed@);
        let ghost kept = indexed.take(j as int).filter(missing_from(disk));
        proof {
            reveal(Seq::filter);
            lemma_node_view(*node);
            assert(indexed.take(j + 1).drop_last() =~= indexed.take(j as int));
            assert(indexed.take(j + 1).last() == node_view(*node));
        }
        if !has_path(disk_nodes, node.path.as_str()) {
            removed.push(node.path.clone());
            assert(strings_view(removed@) =~= before.push(node.path@));
            assert(paths_of(kept.push(node_view(*node))) =~= paths_of(kept).push(node.path@));
        }
        j += 1;
    }
    proof {
        assert(disk.take(disk.len() as int) =~= disk);
        assert(indexed.take(indexed.len() as int) =~= indexed);
    }
    FilePatch {
        project_id: project_id.to_owned(),
        parent_path: parent_path.to_owned(),
        added,
        removed,
    }
}

/// Whether a patch asks for any change to the index.
pub fn has_changes(patch: &FilePatch) -> (changed: bool)
    ensures
        changed == (patch@.added.len() > 0 || patch@.removed.len() > 0),
{
    patch.added.len() > 0 || patch.removed.len() > 0
}

} // verus!
