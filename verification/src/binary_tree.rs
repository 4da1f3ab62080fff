//! Compact binary form of a scanned project.
//!
//! Layout of one node, all counts little-endian and 32 bits wide:
//!
//! ```text
//! [1 byte : is_folder]
//! [4 bytes: length of the name in bytes]
//! [4 bytes: length of the path in bytes]
//! [4 bytes: number of children]
//! [name, UTF-8] [path, UTF-8] [children, each laid out the same way]
//! ```
//!
//! A scan is the count of top-level nodes, those nodes, the count of images,
//! and the images.

use vstd::prelude::*;
use vstd::bytes::{spec_u32_to_le_bytes, u32_to_le_bytes};
use vstd::utf8::encode_utf8;
use crate::fs::{lemma_node_view, node_view, nodes_view, FileNode, NodeView};

verus! {

/// A count as it is written: its low 32 bits, little-endian.
pub open spec fn count_bytes(n: nat) -> Seq<u8> {
    spec_u32_to_le_bytes((n % 0x1_0000_0000) as u32)
}

/// The children that a node lists: none for a file.
pub open spec fn listed_children(node: NodeView) -> Seq<NodeView> {
    match node.children {
        Some(children) => children,
        None => Seq::empty(),
    }
}

/// The bytes of one node with everything below it.
pub open spec fn encode_node(node: NodeView) -> Seq<u8>
    decreases node,
{
    let name = encode_utf8(node.name);
    let path = encode_utf8(node.path);
    let below = match node.children {
        Some(children) => encode_nodes(children),
        None => Seq::empty(),
    };
    seq![if node.is_folder { 1u8 } else { 0u8 }] + count_bytes(name.len()) + count_bytes(
        path.len(),
    ) + count_bytes(listed_children(node).len()) + name + path + below
}

/// The bytes of a run of nodes, one after the other.
pub open spec fn encode_nodes(nodes: Seq<NodeView>) -> Seq<u8>
    decreases nodes,
{
    if nodes.len() == 0 {
        Seq::empty()
    } else {
        encode_nodes(nodes.drop_last()) + encode_node(nodes.last())
    }
}

/// The bytes of a whole scan: the tree section, then the images section.
pub open spec fn encode_scan(tree: Seq<NodeView>, images: Seq<NodeView>) -> Seq<u8> {
    count_bytes(tree.len()) + encode_nodes(tree) + count_bytes(images.len()) + encode_nodes(images)
}

fn push_count(buffer: &mut Vec<u8>, n: usize)
    ensures
        final(buffer)@ == old(buffer)@ + count_bytes(n as nat),
{
    let low: u64 = (n as u64) % 0x1_0000_0000u64;
    let mut bytes = u32_to_le_bytes(low as u32);
    buffer.append(&mut bytes);
}

fn push_bytes(buffer: &mut Vec<u8>, bytes: &[u8])
    ensures
        final(buffer)@ == old(buffer)@ + bytes@,
{
    let ghost before = buffer@;
    buffer.extend_from_slice(bytes);
    assert(buffer@ =~= before + bytes@);
}

fn serialize_nodes(nodes: &Vec<FileNode>, buffer: &mut Vec<u8>)
    ensures
        final(buffer)@ == old(buffer)@ + encode_nodes(nodes_view(nodes@)),
    decreases nodes,
{
    let ghost start = buffer@;
    let ghost views = nodes_view(nodes@);
    let mut i: usize = 0;
    while i < nodes.len()
        invariant
            i <= nodes@.len(),
            views == nodes_view(nodes@),
            buffer@ == start + encode_nodes(views.take(i as int)),
        decreases nodes@.len() - i,
    {
        proof {
            vstd::std_specs::vec::axiom_vec_index_decreases(*nodes, i as int);
            assert(views.take(i + 1).drop_last() =~= views.take(i as int));
            assert(views.take(i + 1).last() == node_view(nodes@[i as int]));
        }
        serialize_node(&nodes[i], buffer);
        i += 1;
    }
    assert(views.take(nodes@.len() as int) =~= views);
}

/// Appends the bytes of `node`, and of everything below it, to `buffer`.
pub fn serialize_node(node: &FileNode, buffer: &mut Vec<u8>)
    ensures
        final(buffer)@ == old(buffer)@ + encode_node(node@),
    decreases node,
{
    let ghost start = buffer@;
    proof {
        lemma_node_view(*node);
    }
    let name_bytes = node.name.as_str().as_bytes();
    let path_bytes = node.path.as_str().as_bytes();
    let children_count = match &node.children {
        Some(children) => children.len(),
        None => 0,
    };
    buffer.push(if node.is_folder { 1u8 } else { 0u8 });
    push_count(buffer, name_bytes.len());
    push_count(buffer, path_bytes.len());
    push_count(buffer, children_count);
    push_bytes(buffer, name_bytes);
    push_bytes(buffer, path_bytes);
    if let Some(children) = &node.children {
        proof {
            assert(decreases_to!(node.children => node.children->0));
        }
        serialize_nodes(children, buffer);
    }
    assert(buffer@ =~= start + encode_node(node@));
}

/// Serialises a scan: the tree, then the images.
pub fn serialize_tree_binary(tree: &[FileNode], images: &[FileNode]) -> (bytes: Vec<u8>)
    ensures
        bytes@ == encode_scan(nodes_view(tree@), nodes_view(images@)),
{
    let mut buffer: Vec<u8> = Vec::new();
    push_count(&mut buffer, tree.len());
    serialize_slice(tree, &mut buffer);
    push_count(&mut buffer, images.len());
    serialize_slice(images, &mut buffer);
    assert(buffer@ =~= encode_scan(nodes_view(tree@), nodes_view(images@)));
    buffer
}

fn serialize_slice(nodes: &[FileNode], buffer: &mut Vec<u8>)
    ensures
        final(buffer)@ == old(buffer)@ + encode_nodes(nodes_view(nodes@)),
{
    let ghost start = buffer@;
    let ghost views = nodes_view(nodes@);
    let mut i: usize = 0;
    while i < nodes.len()
        invariant
            i <= nodes@.len(),
            views == nodes_view(nodes@),
            buffer@ == start + encode_nodes(views.take(i as int)),
        decreases nodes@.len() - i,
    {
        proof {
            assert(views.take(i + 1).drop_last() =~= views.take(i as int));
            assert(views.take(i + 1).last() == node_view(nodes@[i as int]));
        }
        serialize_node(&nodes[i], buffer);
        i += 1;
    }
    assert(views.take(nodes@.len() as int) =~= views);
}

} // verus!
