//! The pure side of the key-value index of a project: flattening a tree into
//! the nodes to store, and keeping the list of children that is stored, in
//! encoded form, under each folder.

use vstd::prelude::*;
use bincode::error::{DecodeError, EncodeError};
use crate::fs::{lemma_node_view, node_view, nodes_view, strings_view, FileNode, NodeView};
use crate::text::str_eq;

verus! {

/// The codec's encoding error, carried through as an opaque value.
#[verifier::external_type_specification]
#[verifier::external_body]
pub struct ExEncodeError(EncodeError);

/// The codec's decoding error, carried through as an opaque value.
#[verifier::external_type_specification]
#[verifier::external_body]
pub struct ExDecodeError(DecodeError);

/// Most bytes that reading a stored list may account for (64 MiB). The
/// codec charges every count it reads against this limit before it
/// allocates, so that a few corrupt bytes cannot ask for more memory than
/// this.
pub const MAX_LIST_BYTES: usize = 67108864;

/// The bytes that the standard configuration of the codec writes for a list
/// of strings.
pub uninterp spec fn encoded_strings(list: Seq<Seq<char>>) -> Seq<u8>;

/// The list of strings that the codec reads from `bytes` under its
/// standard configuration with a read limit of [`MAX_LIST_BYTES`], or `None`
/// where it refuses them: bytes that are no encoded list, and lists that
/// pass the limit.
pub uninterp spec fn decoded_strings(bytes: Seq<u8>) -> Option<Seq<Seq<char>>>;

/// Why a stored list of children could not be read.
#[derive(Clone, Copy, Debug, PartialEq, Eq, Structural)]
pub enum IndexError {
    /// The stored bytes are not an encoded list of strings within the read
    /// limit.
    Corrupt,
}

/// Encodes a list of strings with `bincode::encode_to_vec` under
/// `config::standard()`. The bytes depend on the list alone. Encoding into a
/// vector has no way to fail: the writer behind it accepts every write.
#[verifier::external_body]
fn encode_strings(list: &Vec<String>) -> (encoded: Result<Vec<u8>, EncodeError>)
    ensures
        encoded is Ok,
        encoded matches Ok(bytes) ==> bytes@ == encoded_strings(strings_view(list@)),
{
    bincode::encode_to_vec(list, bincode::config::standard())
}

/// Decodes a list of strings with `bincode::decode_from_slice` under
/// `config::standard()` with a read limit of [`MAX_LIST_BYTES`]. Success and
/// the list depend on the bytes alone; the number beside the list is how
/// many bytes were read. With the limit set, a count that the input cannot
/// back is refused before anything is allocated for it.
#[verifier::external_body]
fn decode_strings(bytes: &[u8]) -> (decoded: Result<(Vec<String>, usize), DecodeError>)
    ensures
        match decoded {
            Ok((list, _)) => decoded_strings(bytes@) == Some(strings_view(list@)),
            Err(_) => decoded_strings(bytes@) is None,
        },
{
    bincode::decode_from_slice(
        bytes,
        bincode::config::standard().with_limit::<MAX_LIST_BYTES>(),
    )
}

/// A node without what is below it.
pub open spec fn bare(node: NodeView) -> NodeView {
    NodeView { children: None, ..node }
}

/// A node followed by everything below it, depth first, each stripped of
/// its children.
pub open spec fn flatten_node(node: NodeView) -> Seq<NodeView>
    decreases node,
{
    seq![bare(node)] + match node.children {
        Some(children) => flatten_nodes(children),
        None => Seq::empty(),
    }
}

/// The flattening of each node of a list, in order.
pub open spec fn flatten_nodes(nodes: Seq<NodeView>) -> Seq<NodeView>
    decreases nodes,
{
    if nodes.len() == 0 {
        Seq::empty()
    } else {
        flatten_nodes(nodes.drop_last()) + flatten_node(nodes.last())
    }
}

/// The stored list of children of a folder: empty where nothing is stored
/// yet, `None` where the stored bytes are refused.
pub open spec fn stored_children(existing: Option<Seq<u8>>) -> Option<Seq<Seq<char>>> {
    match existing {
        Some(bytes) => decoded_strings(bytes),
        None => Some(Seq::empty()),
    }
}

fn flatten_into(nodes: &Vec<FileNode>, flat: &mut Vec<FileNode>)
    ensures
        nodes_view(final(flat)@) == nodes_view(old(flat)@) + flatten_nodes(nodes_view(nodes@)),
    decreases nodes,
{
    let ghost start = nodes_view(flat@);
    let ghost views = nodes_view(nodes@);
    let mut i: usize = 0;
    while i < nodes.len()
        invariant
            i <= nodes@.len(),
            views == nodes_view(nodes@),
            nodes_view(flat@) == start + flatten_nodes(views.take(i as int)),
        decreases nodes@.len() - i,
    {
        let node = &nodes[i];
        let ghost before = flat@;
        let stripped = FileNode {
            name: node.name.clone(),
            path: node.path.clone(),
            is_folder: node.is_folder,
            children: None,
        };
        proof {
            lemma_node_view(*node);
            lemma_node_view(stripped);
            assert(views.take(i + 1).drop_last() =~= views.take(i as int));
            assert(views.take(i + 1).last() == node_view(*node));
            assert(node_view(stripped) == bare(node_view(*node)));
        }
        flat.push(stripped);
        let ghost view = node_view(*node);
        let ghost below = match view.children {
            Some(children) => flatten_nodes(children),
            None => Seq::empty(),
        };
        let ghost pushed = nodes_view(flat@);
        assert(pushed =~= nodes_view(before).push(bare(view)));
        if let Some(children) = &node.children {
            proof {
                vstd::std_specs::vec::axiom_vec_index_decreases(*nodes, i as int);
                assert(decreases_to!(node.children => node.children->0));
            }
            flatten_into(children, flat);
        }
        assert(nodes_view(flat@) =~= pushed + below);
        assert(flatten_node(view) =~= seq![bare(view)] + below);
        assert(flatten_nodes(views.take(i + 1)) == flatten_nodes(views.take(i as int))
            + flatten_node(view));
        assert(nodes_view(flat@) =~= start + flatten_nodes(views.take(i + 1)));
        i += 1;
    }
    assert(views.take(nodes@.len() as int) =~= views);
}

/// Lists every node of the trees, parents before their children, each
/// without its children.
pub fn flatten_tree(nodes: Vec<FileNode>) -> (flat: Vec<FileNode>)
    ensures
        nodes_view(flat@) == flatten_nodes(nodes_view(nodes@)),
        forall|i: int| 0 <= i < flat@.len() ==> (#[trigger] flat@[i]).children is None,
{
    let mut flat: Vec<FileNode> = Vec::new();
    assert(nodes_view(flat@) =~= Seq::<NodeView>::empty());
    flatten_into(&nodes, &mut flat);
    proof {
        assert forall|i: int| 0 <= i < flat@.len() implies (#[trigger] flat@[i]).children is None by {
            lemma_flattened_nodes_are_bare(nodes_view(nodes@), i);
            lemma_node_view(flat@[i]);
            assert(nodes_view(flat@)[i] == node_view(flat@[i]));
        }
    }
    flat
}

/// Every node of a flattened tree is bare.
pub proof fn lemma_flattened_nodes_are_bare(nodes: Seq<NodeView>, i: int)
    requires
        0 <= i < flatten_nodes(nodes).len(),
    ensures
        flatten_nodes(nodes)[i].children is None,
    decreases nodes, 1int,
{
    let butlast = flatten_nodes(nodes.drop_last());
    if i < butlast.len() {
        lemma_flattened_nodes_are_bare(nodes.drop_last(), i);
    } else {
        lemma_flattened_node_is_bare(nodes.last(), i - butlast.len());
    }
}

proof fn lemma_flattened_node_is_bare(node: NodeView, i: int)
    requires
        0 <= i < flatten_node(node).len(),
    ensures
        flatten_node(node)[i].children is None,
    decreases node, 0int,
{
    if i > 0 {
        lemma_flattened_nodes_are_bare(node.children->0, i - 1);
    }
}

/// Whether `path` is among `list`.
pub fn contains_path(list: &Vec<String>, path: &str) -> (found: bool)
    ensures
        found == strings_view(list@).contains(path@),
{
    let mut i: usize = 0;
    while i < list.len()
        invariant
            i <= list@.len(),
            forall|k: int| 0 <= k < i ==> strings_view(list@)[k] != path@,
        decreases list@.len() - i,
    {
        if str_eq(list[i].as_str(), path) {
            assert(strings_view(list@)[i as int] == path@);
            return true;
        }
        i += 1;
    }
    false
}

/// Adds `path` to a folder's list of children unless it is there already.
/// The flag says whether the list grew.
pub fn with_child(children: Vec<String>, path: &str) -> (updated: (Vec<String>, bool))
    ensures
        updated.1 == !strings_view(children@).contains(path@),
        updated.1 ==> strings_view(updated.0@) == strings_view(children@).push(path@),
        !updated.1 ==> strings_view(updated.0@) == strings_view(children@),
{
    if contains_path(&children, path) {
        (children, false)
    } else {
        let mut children = children;
        let ghost before = children@;
        children.push(path.to_owned());
        assert(strings_view(children@) =~= strings_view(before).push(path@));
        (children, true)
    }
}

/// Reads a stored list of children.
pub fn decode_children(bytes: &[u8]) -> (children: Result<Vec<String>, IndexError>)
    ensures
        match children {
            Ok(list) => decoded_strings(bytes@) == Some(strings_view(list@)),
            Err(error) => error == IndexError::Corrupt && decoded_strings(bytes@) is None,
        },
{
    match decode_strings(bytes) {
        Ok((list, _)) => Ok(list),
        Err(_) => Err(IndexError::Corrupt),
    }
}

/// Registers `path` under its parent folder. `existing` is what the index
/// holds for the parent, if anything. The answer is the bytes to store in
/// its place, or `None` when the path is listed already and nothing is to be
/// written. Stored bytes that cannot be read are an error, and the only
/// one: a list that was read is always written back.
pub fn add_child(existing: Option<&[u8]>, path: &str) -> (update: Result<Option<Vec<u8>>, IndexError>)
    ensures
        match update {
            Ok(Some(bytes)) => stored_children(opt_view(existing)) matches Some(list)
                && !list.contains(path@) && bytes@ == encoded_strings(list.push(path@)),
            Ok(None) => stored_children(opt_view(existing)) matches Some(list) && list.contains(
                path@,
            ),
            Err(IndexError::Corrupt) => stored_children(opt_view(existing)) is None,
        },
{
    let children = match existing {
        Some(bytes) => match decode_children(bytes) {
            Ok(list) => list,
            Err(error) => {
                return Err(error);
            },
        },
        None => {
            let list: Vec<String> = Vec::new();
            assert(strings_view(list@) =~= Seq::<Seq<char>>::empty());
            list
        },
    };
    let (children, grew) = with_child(children, path);
    if !grew {
        return Ok(None);
    }
    match encode_strings(&children) {
        Ok(bytes) => Ok(Some(bytes)),
        Err(_) => vstd::pervasive::unreached(),
    }
}

/// The bytes behind an optional slice.
pub open spec fn opt_view(bytes: Option<&[u8]>) -> Option<Seq<u8>> {
    match bytes {
        Some(bytes) => Some(bytes@),
        None => None,
    }
}

} // verus!
