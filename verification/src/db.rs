//! The pure side of the relational index: rows in, nodes out.

use vstd::prelude::*;
use crate::fs::{lemma_node_view, nodes_view, FileNode, NodeView};
use crate::scan_dir::{is_skipped_dir, skips_dir};

verus! {

/// The node that a row of the index stands for. A folder comes back with an
/// empty list of children, to be filled on demand.
pub open spec fn row_node(name: Seq<char>, path: Seq<char>, is_folder: i32) -> NodeView {
    NodeView {
        name,
        path,
        is_folder: is_folder == 1,
        children: if is_folder == 1 {
            Some(Seq::empty())
        } else {
            None
        },
    }
}

/// Builds the node for one row of the index.
pub fn node_from_row(name: String, path: String, is_folder: i32) -> (node: FileNode)
    ensures
        node@ == row_node(name@, path@, is_folder),
{
    let is_dir = is_folder == 1;
    let children = if is_dir {
        let none: Vec<FileNode> = Vec::new();
        assert(nodes_view(none@) =~= Seq::<NodeView>::empty());
        Some(none)
    } else {
        None
    };
    let node = FileNode { name, path, is_folder: is_dir, children };
    proof {
        lemma_node_view(node);
    }
    node
}

/// The number stored in a row for a folder flag.
pub fn folder_flag(is_folder: bool) -> (flag: i32)
    ensures
        flag == if is_folder { 1i32 } else { 0i32 },
{
    if is_folder {
        1
    } else {
        0
    }
}

/// Whether an entry of this name is left out of the index.
pub fn skips_indexing(name: &str) -> (skipped: bool)
    ensures
        skipped == is_skipped_dir(name@, false),
{
    skips_dir(name, false)
}

} // verus!
