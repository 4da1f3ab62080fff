//! The values that describe a project on disk: tree nodes, scan results,
//! patches between two scans, search hits and file previews.

use vstd::prelude::*;

verus! {

/// A file or folder of a project tree.
#[derive(Debug)]
pub struct FileNode {
    /// Last component of the path.
    pub name: String,
    /// Full path.
    pub path: String,
    /// Whether the entry is a directory.
    pub is_folder: bool,
    /// For a directory, the entries listed under it (possibly none yet);
    /// `None` for a file.
    pub children: Option<Vec<FileNode>>,
}

/// Mathematical content of a [`FileNode`].
pub struct NodeView {
    pub name: Seq<char>,
    pub path: Seq<char>,
    pub is_folder: bool,
    pub children: Option<Seq<NodeView>>,
}

/// The content of one node.
pub open spec fn node_view(node: FileNode) -> NodeView
    decreases node,
{
    NodeView {
        name: node.name@,
        path: node.path@,
        is_folder: node.is_folder,
        children: match node.children {
            Some(children) => Some(
                Seq::new(
                    children@.len(),
                    |i: int|
                        if 0 <= i < children@.len() {
                            node_view(children@[i])
                        } else {
                            arbitrary()
                        },
                ),
            ),
            None => None,
        },
    }
}

/// The contents of a list of nodes, in order.
pub open spec fn nodes_view(nodes: Seq<FileNode>) -> Seq<NodeView> {
    Seq::new(nodes.len(), |i: int| node_view(nodes[i]))
}

impl View for FileNode {
    type V = NodeView;

    open spec fn view(&self) -> NodeView {
        node_view(*self)
    }
}

/// Unfolds the content of a node by one level.
pub proof fn lemma_node_view(node: FileNode)
    ensures
        node@.name == node.name@,
        node@.path == node.path@,
        node@.is_folder == node.is_folder,
        node.children is None ==> node@.children is None,
        node.children matches Some(children) ==> node@.children == Some(nodes_view(children@)),
{
    match node.children {
        Some(children) => {
            assert(node@.children->0 =~= nodes_view(children@));
        },
        None => {},
    }
}

impl Clone for FileNode {
    /// A deep copy: the same names, paths and flags, all the way down.
    fn clone(&self) -> (copy: Self)
        ensures
            copy@ == self@,
        decreases self,
    {
        let children = match &self.children {
            Some(children) => {
                let mut copies: Vec<FileNode> = Vec::new();
                let mut i: usize = 0;
                while i < children.len()
                    invariant
                        i <= children@.len(),
                        self.children == Some(*children),
                        copies@.len() == i,
                        forall|k: int|
                            0 <= k < i ==> node_view(#[trigger] copies@[k]) == node_view(
                                children@[k],
                            ),
                    decreases children@.len() - i,
                {
                    proof {
                        vstd::std_specs::vec::axiom_vec_index_decreases(*children, i as int);
                        assert(decreases_to!(self.children => self.children->0));
                    }
                    copies.push(children[i].clone());
                    i += 1;
                }
                assert(nodes_view(copies@) =~= nodes_view(children@));
                Some(copies)
            },
            None => None,
        };
        let copy = FileNode {
            name: self.name.clone(),
            path: self.path.clone(),
            is_folder: self.is_folder,
            children,
        };
        proof {
            lemma_node_view(*self);
            lemma_node_view(copy);
        }
        copy
    }
}

/// What changed under one folder between the index and the disk.
#[derive(Debug, Clone)]
pub struct FilePatch {
    /// Project the folder belongs to.
    pub project_id: String,
    /// The folder that was compared.
    pub parent_path: String,
    /// Entries on disk that the index lacks.
    pub added: Vec<FileNode>,
    /// Paths in the index that are gone from disk.
    pub removed: Vec<String>,
}

/// Mathematical content of a [`FilePatch`].
pub struct PatchView {
    pub project_id: Seq<char>,
    pub parent_path: Seq<char>,
    pub added: Seq<NodeView>,
    pub removed: Seq<Seq<char>>,
}

/// The characters of each string of a list, in order.
pub open spec fn strings_view(strings: Seq<String>) -> Seq<Seq<char>> {
    Seq::new(strings.len(), |i: int| strings[i]@)
}

impl View for FilePatch {
    type V = PatchView;

    open spec fn view(&self) -> PatchView {
        PatchView {
            project_id: self.project_id@,
            parent_path: self.parent_path@,
            added: nodes_view(self.added@),
            removed: strings_view(self.removed@),
        }
    }
}

/// A scanned project: its tree, and the image files found in it.
#[derive(Debug)]
pub struct ScanResult {
    /// Top-level entries, folders first.
    pub tree: Vec<FileNode>,
    /// Every image file met during the scan.
    pub images: Vec<FileNode>,
}

/// One line of a file that matches a search.
#[derive(Debug)]
pub struct SearchResult {
    /// File the line is in.
    pub path: String,
    /// Line number, counted from 1.
    pub line: usize,
    /// The line without surrounding whitespace.
    pub content: String,
}

/// A window into a file, prepared for display.
#[derive(Debug)]
pub struct MmapPreview {
    /// The window as text, or a notice when the window looks binary.
    pub content: String,
    /// Size of the whole file in bytes.
    pub size: u64,
    /// Whether the window looks binary.
    pub is_binary: bool,
    /// Whether the file goes on after the window.
    pub truncated: bool,
}

} // verus!
