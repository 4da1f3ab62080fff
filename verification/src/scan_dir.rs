//! Turning directory listings into project trees.
//!
//! Reading the disk is left to the caller. Here is what is decided about
//! each entry, the limits of a scan, the batching of a streamed scan, and
//! the whole scan as a function of the listings that were read.

use vstd::prelude::*;
use vstd::string::StringExecFns;
use crate::fs::{lemma_node_view, node_view, nodes_view, FileNode, NodeView};
use crate::node_order::{sort_nodes, sorted_nodes};
use crate::text::{lowercase, lowercased, str_ends_with, str_eq, text_ends_with};

verus! {

/// Deepest level at which a directory is still listed.
pub const MAX_SCAN_DEPTH: u32 = 5;

/// Folders above this depth are descended into by a recursive scan.
pub const MAX_DESCENT_DEPTH: u32 = 3;

/// Number of entries of one directory that a scan looks at.
pub const MAX_DIR_ENTRIES: usize = 5000;

/// Number of nodes in a full batch of a streamed scan.
pub const BATCH_SIZE: usize = 100;

/// Folders that hold dependencies, build output or version control data.
pub open spec fn is_heavy_dir(name: Seq<char>) -> bool {
    name == "node_modules"@ || name == ".git"@ || name == "target"@ || name == "dist"@
}

/// Folders that a scan lists without looking inside. A streamed scan does
/// look inside `build`.
pub open spec fn is_skipped_dir(name: Seq<char>, streamed: bool) -> bool {
    is_heavy_dir(name) || (!streamed && name == "build"@)
}

/// A lowercase name ends like an image file.
pub open spec fn has_image_ending(lower: Seq<char>) -> bool {
    text_ends_with(lower, ".png"@) || text_ends_with(lower, ".jpg"@) || text_ends_with(
        lower,
        ".jpeg"@,
    ) || text_ends_with(lower, ".gif"@) || text_ends_with(lower, ".webp"@) || text_ends_with(
        lower,
        ".svg"@,
    )
}

/// A file name that, whatever its case, ends like an image file.
pub open spec fn is_image_name(name: Seq<char>) -> bool {
    has_image_ending(lowercased(name))
}

/// What a scan does with one directory entry.
#[derive(Clone, Copy, Debug, PartialEq, Eq, Structural)]
pub enum EntryPlan {
    /// A skipped folder: listed with no children, never entered.
    Stub,
    /// A folder; `descend` says whether its own entries are scanned.
    Folder { descend: bool },
    /// A file; `image` says whether it also goes to the image list.
    File { image: bool },
}

/// The plan for an entry named `name` met at `depth`.
pub open spec fn plan_of(name: Seq<char>, is_dir: bool, recursive: bool, depth: int, streamed: bool) -> EntryPlan {
    if is_dir {
        if is_skipped_dir(name, streamed) {
            EntryPlan::Stub
        } else {
            EntryPlan::Folder { descend: recursive && depth < MAX_DESCENT_DEPTH }
        }
    } else {
        EntryPlan::File { image: is_image_name(name) }
    }
}

/// The file node for an entry.
pub open spec fn file_view(name: Seq<char>, path: Seq<char>) -> NodeView {
    NodeView { name, path, is_folder: false, children: None }
}

/// The node that a plan makes of an entry. `scanned` is the scan of the
/// folder's own entries, used where the plan descends.
pub open spec fn planned_node(
    name: Seq<char>,
    path: Seq<char>,
    plan: EntryPlan,
    scanned: Seq<NodeView>,
) -> NodeView {
    match plan {
        EntryPlan::Stub => NodeView { name, path, is_folder: true, children: Some(Seq::empty()) },
        EntryPlan::Folder { descend } => NodeView {
            name,
            path,
            is_folder: true,
            children: Some(
                if descend {
                    scanned
                } else {
                    Seq::empty()
                },
            ),
        },
        EntryPlan::File { .. } => file_view(name, path),
    }
}

/// Whether a directory at `depth` is listed at all.
pub fn scan_allowed(depth: u32) -> (allowed: bool)
    ensures
        allowed == (depth <= MAX_SCAN_DEPTH),
{
    depth <= MAX_SCAN_DEPTH
}

/// Whether a scan still looks at the entry that comes after `seen` others
/// of its directory.
pub fn entry_allowed(seen: usize) -> (allowed: bool)
    ensures
        allowed == (seen < MAX_DIR_ENTRIES),
{
    seen < MAX_DIR_ENTRIES
}

/// Whether a folder of this name is listed without looking inside.
pub fn skips_dir(name: &str, streamed: bool) -> (skipped: bool)
    ensures
        skipped == is_skipped_dir(name@, streamed),
{
    str_eq(name, "node_modules") || str_eq(name, ".git") || str_eq(name, "target") || str_eq(
        name,
        "dist",
    ) || (!streamed && str_eq(name, "build"))
}

/// Whether a name that is already lowercase ends like an image file.
pub fn image_ending(lower: &str) -> (image: bool)
    ensures
        image == has_image_ending(lower@),
{
    str_ends_with(lower, ".png") || str_ends_with(lower, ".jpg") || str_ends_with(lower, ".jpeg")
        || str_ends_with(lower, ".gif") || str_ends_with(lower, ".webp") || str_ends_with(
        lower,
        ".svg",
    )
}

/// Whether a file of this name is an image, whatever the case of its name.
pub fn is_image(name: &str) -> (image: bool)
    ensures
        image == is_image_name(name@),
{
    let lower = lowercase(name);
    image_ending(lower.as_str())
}

/// Decides what to do with one directory entry.
pub fn plan_entry(name: &str, is_dir: bool, recursive: bool, depth: u32, streamed: bool) -> (plan:
    EntryPlan)
    ensures
        plan == plan_of(name@, is_dir, recursive, depth as int, streamed),
{
    if is_dir {
        if skips_dir(name, streamed) {
            EntryPlan::Stub
        } else {
            EntryPlan::Folder { descend: recursive && depth < MAX_DESCENT_DEPTH }
        }
    } else {
        EntryPlan::File { image: is_image(name) }
    }
}

/// The file node that goes to the image list.
pub fn image_node(name: &str, path: &str) -> (node: FileNode)
    ensures
        node@ == file_view(name@, path@),
{
    let node = FileNode {
        name: name.to_owned(),
        path: path.to_owned(),
        is_folder: false,
        children: None,
    };
    proof {
        lemma_node_view(node);
    }
    node
}

/// Builds the node for an entry from its plan. `scanned` is the scan of the
/// folder's entries; it is dropped where the plan does not descend.
pub fn build_node(name: String, path: String, plan: EntryPlan, scanned: Vec<FileNode>) -> (node:
    FileNode)
    ensures
        node@ == planned_node(name@, path@, plan, nodes_view(scanned@)),
{
    let node = match plan {
        EntryPlan::Stub => {
            let none: Vec<FileNode> = Vec::new();
            assert(nodes_view(none@) =~= Seq::<NodeView>::empty());
            FileNode { name, path, is_folder: true, children: Some(none) }
        },
        EntryPlan::Folder { descend } => {
            if descend {
                FileNode { name, path, is_folder: true, children: Some(scanned) }
            } else {
                let none: Vec<FileNode> = Vec::new();
                assert(nodes_view(none@) =~= Seq::<NodeView>::empty());
                FileNode { name, path, is_folder: true, children: Some(none) }
            }
        },
        EntryPlan::File { .. } => FileNode { name, path, is_folder: false, children: None },
    };
    proof {
        lemma_node_view(node);
    }
    node
}

/// Name of the event that carries a batch of a streamed scan.
pub fn chunk_event(event_id: &str) -> (name: String)
    ensures
        name@ == "fs-chunk-"@ + event_id@,
{
    String::from_str("fs-chunk-").concat(event_id)
}

/// The nodes of a streamed scan that wait to be sent. A batch is sent when
/// a node other than a skipped folder brings it to [`BATCH_SIZE`] nodes or
/// more; skipped folders wait with the others but never cause a send.
pub struct FileBatch {
    pending: Vec<FileNode>,
}

impl FileBatch {
    /// The nodes that wait, oldest first.
    pub closed spec fn pending(&self) -> Seq<NodeView> {
        nodes_view(self.pending@)
    }

    /// An empty batch.
    pub fn new() -> (batch: Self)
        ensures
            batch.pending() == Seq::<NodeView>::empty(),
    {
        let batch = FileBatch { pending: Vec::new() };
        assert(batch.pending() =~= Seq::<NodeView>::empty());
        batch
    }

    /// Adds a node. When that fills the batch, the whole batch is handed
    /// out for sending and the batch starts over.
    pub fn push(&mut self, node: FileNode) -> (full: Option<Vec<FileNode>>)
        ensures
            match full {
                Some(nodes) => old(self).pending().len() + 1 >= BATCH_SIZE && nodes_view(nodes@)
                    == old(self).pending().push(node@) && final(self).pending() == Seq::<
                    NodeView,
                >::empty(),
                None => old(self).pending().len() + 1 < BATCH_SIZE && final(self).pending() == old(
                    self,
                ).pending().push(node@),
            },
    {
        let ghost before = self.pending@;
        self.pending.push(node);
        assert(nodes_view(self.pending@) =~= nodes_view(before).push(node@));
        if self.pending.len() >= BATCH_SIZE {
            let mut nodes: Vec<FileNode> = Vec::new();
            std::mem::swap(&mut self.pending, &mut nodes);
            assert(nodes_view(self.pending@) =~= Seq::<NodeView>::empty());
            Some(nodes)
        } else {
            None
        }
    }

    /// Adds a node without handing the batch out, however many nodes wait.
    pub fn hold(&mut self, node: FileNode)
        ensures
            final(self).pending() == old(self).pending().push(node@),
    {
        let ghost before = self.pending@;
        self.pending.push(node);
        assert(nodes_view(self.pending@) =~= nodes_view(before).push(node@));
    }

    /// Adds the node that `plan` made of an entry. The node of a skipped
    /// folder only waits; any other node is pushed, which hands the batch
    /// out when it is full.
    pub fn add(&mut self, node: FileNode, plan: EntryPlan) -> (full: Option<Vec<FileNode>>)
        ensures
            match full {
                Some(nodes) => plan != EntryPlan::Stub && old(self).pending().len() + 1
                    >= BATCH_SIZE && nodes_view(nodes@) == old(self).pending().push(node@)
                    && final(self).pending() == Seq::<NodeView>::empty(),
                None => (plan == EntryPlan::Stub || old(self).pending().len() + 1 < BATCH_SIZE)
                    && final(self).pending() == old(self).pending().push(node@),
            },
    {
        match plan {
            EntryPlan::Stub => {
                self.hold(node);
                None
            },
            _ => self.push(node),
        }
    }

    /// Ends the scan of a directory: hands out what still waits, if
    /// anything.
    pub fn finish(self) -> (rest: Option<Vec<FileNode>>)
        ensures
            match rest {
                Some(nodes) => self.pending().len() > 0 && nodes_view(nodes@) == self.pending(),
                None => self.pending().len() == 0,
            },
    {
        if self.pending.len() > 0 {
            Some(self.pending)
        } else {
            None
        }
    }
}

/// One entry of a directory as it was read, with the entries read below it.
/// `entries` is empty for files, and for folders that were not read.
#[derive(Debug)]
pub struct DiskEntry {
    pub name: String,
    pub path: String,
    pub is_dir: bool,
    pub entries: Vec<DiskEntry>,
}

/// Mathematical content of a [`DiskEntry`].
pub struct EntryView {
    pub name: Seq<char>,
    pub path: Seq<char>,
    pub is_dir: bool,
    pub entries: Seq<EntryView>,
}

/// The content of one entry.
pub open spec fn entry_view(entry: DiskEntry) -> EntryView
    decreases entry,
{
    EntryView {
        name: entry.name@,
        path: entry.path@,
        is_dir: entry.is_dir,
        entries: Seq::new(
            entry.entries@.len(),
            |i: int|
                if 0 <= i < entry.entries@.len() {
                    entry_view(entry.entries@[i])
                } else {
                    arbitrary()
                },
        ),
    }
}

/// The contents of a listing, in order.
pub open spec fn entries_view(entries: Seq<DiskEntry>) -> Seq<EntryView> {
    Seq::new(entries.len(), |i: int| entry_view(entries[i]))
}

impl View for DiskEntry {
    type V = EntryView;

    open spec fn view(&self) -> EntryView {
        entry_view(*self)
    }
}

/// Unfolds the content of an entry by one level.
pub proof fn lemma_entry_view(entry: DiskEntry)
    ensures
        entry@.name == entry.name@,
        entry@.path == entry.path@,
        entry@.is_dir == entry.is_dir,
        entry@.entries == entries_view(entry.entries@),
{
    assert(entry@.entries =~= entries_view(entry.entries@));
}

/// How many entries of a listing a scan looks at.
pub open spec fn looked_at(entries: Seq<EntryView>) -> nat {
    if entries.len() <= MAX_DIR_ENTRIES {
        entries.len()
    } else {
        MAX_DIR_ENTRIES as nat
    }
}

/// The node for one entry of a plain scan at `depth`.
pub open spec fn entry_node(entry: EntryView, recursive: bool, depth: int) -> NodeView
    decreases entry, 0nat,
{
    let plan = plan_of(entry.name, entry.is_dir, recursive, depth, false);
    let scanned = if plan == (EntryPlan::Folder { descend: true }) {
        scan_nodes(entry.entries, true, depth + 1)
    } else {
        Seq::empty()
    };
    planned_node(entry.name, entry.path, plan, scanned)
}

/// The images that one entry of a plain scan contributes: the file itself,
/// or what the scan of a folder finds.
pub open spec fn entry_images(entry: EntryView, recursive: bool, depth: int) -> Seq<NodeView>
    decreases entry, 0nat,
{
    match plan_of(entry.name, entry.is_dir, recursive, depth, false) {
        EntryPlan::Stub => Seq::empty(),
        EntryPlan::Folder { descend } => if descend {
            scan_images(entry.entries, true, depth + 1)
        } else {
            Seq::empty()
        },
        EntryPlan::File { image } => if image {
            seq![file_view(entry.name, entry.path)]
        } else {
            Seq::empty()
        },
    }
}

/// The nodes of the first `n` entries, in listing order.
pub open spec fn listed_nodes(entries: Seq<EntryView>, n: nat, recursive: bool, depth: int) -> Seq<
    NodeView,
>
    decreases entries, n,
{
    if n == 0 || n > entries.len() {
        Seq::empty()
    } else {
        listed_nodes(entries, (n - 1) as nat, recursive, depth).push(
            entry_node(entries[n - 1], recursive, depth),
        )
    }
}

/// The images of the first `n` entries, in the order they are met.
pub open spec fn listed_images(entries: Seq<EntryView>, n: nat, recursive: bool, depth: int) -> Seq<
    NodeView,
>
    decreases entries, n,
{
    if n == 0 || n > entries.len() {
        Seq::empty()
    } else {
        listed_images(entries, (n - 1) as nat, recursive, depth) + entry_images(
            entries[n - 1],
            recursive,
            depth,
        )
    }
}

/// The tree of a directory at `depth`: nothing beyond the depth limit,
/// otherwise the nodes of the entries looked at, in display order.
pub open spec fn scan_nodes(entries: Seq<EntryView>, recursive: bool, depth: int) -> Seq<NodeView>
    decreases entries, entries.len() + 1,
{
    if depth > MAX_SCAN_DEPTH {
        Seq::empty()
    } else {
        sorted_nodes(listed_nodes(entries, looked_at(entries), recursive, depth))
    }
}

/// The images found under a directory at `depth`, in the order they are
/// met.
pub open spec fn scan_images(entries: Seq<EntryView>, recursive: bool, depth: int) -> Seq<NodeView>
    decreases entries, entries.len() + 1,
{
    if depth > MAX_SCAN_DEPTH {
        Seq::empty()
    } else {
        listed_images(entries, looked_at(entries), recursive, depth)
    }
}

/// Scans a directory from what was read of it. Returns the directory's
/// nodes, folders first and then by name, and appends every image file met
/// to `images`. Skipped folders are listed but not entered; folders are
/// entered only by a recursive scan and only near the top.
pub fn scan_dir(entries: &Vec<DiskEntry>, images: &mut Vec<FileNode>, recursive: bool, depth: u32) -> (nodes:
    Vec<FileNode>)
    ensures
        nodes_view(nodes@) == scan_nodes(entries_view(entries@), recursive, depth as int),
        nodes_view(final(images)@) == nodes_view(old(images)@) + scan_images(
            entries_view(entries@),
            recursive,
            depth as int,
        ),
    decreases entries,
{
    let ghost listing = entries_view(entries@);
    let ghost found = nodes_view(images@);
    let mut nodes: Vec<FileNode> = Vec::new();
    if !scan_allowed(depth) {
        assert(nodes_view(nodes@) =~= Seq::<NodeView>::empty());
        assert(nodes_view(images@) =~= found + Seq::<NodeView>::empty());
        return nodes;
    }
    let limit = if entries.len() <= MAX_DIR_ENTRIES {
        entries.len()
    } else {
        MAX_DIR_ENTRIES
    };
    assert(nodes_view(nodes@) =~= listed_nodes(listing, 0, recursive, depth as int));
    assert(nodes_view(images@) =~= found + listed_images(listing, 0, recursive, depth as int));
    let mut i: usize = 0;
    while i < limit
        invariant
            i <= limit <= entries@.len(),
            limit == looked_at(listing),
            listing == entries_view(entries@),
            nodes_view(nodes@) == listed_nodes(listing, i as nat, recursive, depth as int),
            nodes_view(images@) == found + listed_images(listing, i as nat, recursive, depth as int),
        decreases limit - i,
    {
        let entry = &entries[i];
        proof {
            lemma_entry_view(*entry);
            assert(listing[i as int] == entry_view(*entry));
        }
        let ghost nodes_before = nodes_view(nodes@);
        let ghost images_before = nodes_view(images@);
        let plan = plan_entry(entry.name.as_str(), entry.is_dir, recursive, depth, false);
        let scanned = match plan {
            EntryPlan::Folder { descend: true } => {
                proof {
                    vstd::std_specs::vec::axiom_vec_index_decreases(*entries, i as int);
                }
                scan_dir(&entry.entries, images, true, depth + 1)
            },
            EntryPlan::File { image: true } => {
                let ghost before = images@;
                let node = image_node(entry.name.as_str(), entry.path.as_str());
                images.push(node);
                assert(nodes_view(images@) =~= nodes_view(before) + seq![node@]);
                Vec::new()
            },
            _ => Vec::new(),
        };
        assert(nodes_view(images@) =~= images_before + entry_images(
            listing[i as int],
            recursive,
            depth as int,
        ));
        let node = build_node(entry.name.clone(), entry.path.clone(), plan, scanned);
        assert(node@ == entry_node(listing[i as int], recursive, depth as int));
        nodes.push(node);
        assert(nodes_view(nodes@) =~= nodes_before.push(node@));
        i += 1;
    }
    sort_nodes(nodes)
}

} // verus!
