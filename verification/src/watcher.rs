//! Which folders of which project are being watched.
//!
//! The table is generic over `W`, the watcher that the embedding
//! application attaches to a project.

use vstd::prelude::*;
use vstd::string::StringExecFns;
use crate::fs::strings_view;
use crate::lsm_index::contains_path;
use crate::registry::KeyedTable;
use crate::text::str_eq;

verus! {

/// Mathematical content of a [`WatchedProject`].
pub struct WatchView<W> {
    /// The project's watcher.
    pub watcher: W,
    /// The folders it watches, in the order they were added.
    pub paths: Seq<Seq<char>>,
}

/// A project under watch: its watcher and the folders it watches.
pub struct WatchedProject<W> {
    watcher: W,
    paths: Vec<String>,
}

impl<W> View for WatchedProject<W> {
    type V = WatchView<W>;

    closed spec fn view(&self) -> WatchView<W> {
        WatchView { watcher: self.watcher, paths: strings_view(self.paths@) }
    }
}

/// The watched projects, keyed by their identifier.
pub type WatcherMap<W> = KeyedTable<WatchedProject<W>>;

/// A list without the first occurrence of `path`.
pub open spec fn without_first(paths: Seq<Seq<char>>, path: Seq<char>) -> Seq<Seq<char>>
    decreases paths.len(),
{
    if paths.len() == 0 {
        paths
    } else if paths[0] == path {
        paths.drop_first()
    } else {
        seq![paths[0]] + without_first(paths.drop_first(), path)
    }
}

proof fn lemma_without_first(paths: Seq<Seq<char>>, path: Seq<char>, at: int)
    requires
        0 <= at < paths.len(),
        paths[at] == path,
        forall|k: int| 0 <= k < at ==> paths[k] != path,
    ensures
        without_first(paths, path) == paths.remove(at),
    decreases paths.len(),
{
    if at == 0 {
        assert(paths.remove(0) =~= paths.drop_first());
    } else {
        let rest = paths.drop_first();
        assert forall|k: int| 0 <= k < at - 1 implies rest[k] != path by {
            assert(rest[k] == paths[k + 1]);
        }
        lemma_without_first(rest, path, at - 1);
        assert(paths.remove(at) =~= seq![paths[0]] + rest.remove(at - 1));
    }
}

impl<W> WatchedProject<W> {
    /// A project whose watcher watches `root` only.
    pub fn new(watcher: W, root: String) -> (project: Self)
        ensures
            project@ == (WatchView { watcher, paths: seq![root@] }),
    {
        let mut paths: Vec<String> = Vec::new();
        paths.push(root);
        let project = WatchedProject { watcher, paths };
        assert(project@.paths =~= seq![root@]);
        project
    }

    /// Whether `path` is among the watched folders.
    pub fn watches(&self, path: &str) -> (watched: bool)
        ensures
            watched == self@.paths.contains(path@),
    {
        contains_path(&self.paths, path)
    }

    /// The watcher, for starting or stopping a watch.
    pub fn watcher_mut(&mut self) -> (watcher: &mut W)
        ensures
            *watcher == old(self)@.watcher,
            final(self)@ == (WatchView { watcher: *final(watcher), ..old(self)@ }),
    {
        &mut self.watcher
    }

    /// Gives the watcher up.
    pub fn into_watcher(self) -> (watcher: W)
        ensures
            watcher == self@.watcher,
    {
        self.watcher
    }

    /// Notes `path` as watched, unless it is noted already.
    pub fn add_path(&mut self, path: String)
        ensures
            final(self)@ == (WatchView {
                paths: if old(self)@.paths.contains(path@) {
                    old(self)@.paths
                } else {
                    old(self)@.paths.push(path@)
                },
                ..old(self)@
            }),
    {
        if !contains_path(&self.paths, path.as_str()) {
            let ghost before = self.paths@;
            self.paths.push(path);
            assert(strings_view(self.paths@) =~= strings_view(before).push(path@));
        }
    }

    /// Forgets the first note of `path`. Says whether there was one.
    pub fn remove_path(&mut self, path: &str) -> (removed: bool)
        ensures
            removed == old(self)@.paths.contains(path@),
            final(self)@ == (WatchView {
                paths: without_first(old(self)@.paths, path@),
                ..old(self)@
            }),
    {
        let ghost listed = strings_view(self.paths@);
        let mut at: usize = 0;
        while at < self.paths.len()
            invariant
                at <= self.paths@.len(),
                self.paths@ == old(self).paths@,
                self.watcher == old(self).watcher,
                listed == strings_view(self.paths@),
                forall|k: int| 0 <= k < at ==> listed[k] != path@,
            decreases self.paths@.len() - at,
        {
            if str_eq(self.paths[at].as_str(), path) {
                proof {
                    assert(listed[at as int] == path@);
                    lemma_without_first(listed, path@, at as int);
                }
                self.paths.remove(at);
                assert(strings_view(self.paths@) =~= listed.remove(at as int));
                return true;
            }
            at += 1;
        }
        proof {
            lemma_absent_without_first(listed, path@);
        }
        false
    }
}

proof fn lemma_absent_without_first(paths: Seq<Seq<char>>, path: Seq<char>)
    requires
        !paths.contains(path),
    ensures
        without_first(paths, path) == paths,
    decreases paths.len(),
{
    if paths.len() > 0 {
        let rest = paths.drop_first();
        assert(paths[0] != path);
        assert forall|k: int| 0 <= k < rest.len() implies rest[k] != path by {
            assert(rest[k] == paths[k + 1]);
        }
        lemma_absent_without_first(rest, path);
        assert(paths =~= seq![paths[0]] + rest);
    }
}

/// Name of the event that reports changes in project `id`.
pub fn change_event(id: &str) -> (name: String)
    ensures
        name@ == "fs-change-"@ + id@,
{
    String::from_str("fs-change-").concat(id)
}

/// The paths to report for a file system event: `None` when the event
/// names no path, and then nothing is emitted.
pub fn changed_paths(paths: Vec<String>) -> (report: Option<Vec<String>>)
    ensures
        report is Some == (paths@.len() > 0),
        report matches Some(list) ==> list == paths,
{
    if paths.len() > 0 {
        Some(paths)
    } else {
        None
    }
}

/// Puts project `id` under watch with a watcher that already watches
/// `path`, the project's root. A project that was watched before is
/// replaced; its old watcher is handed back.
pub fn watch_project<W>(watchers: &mut WatcherMap<W>, id: String, watcher: W, path: String) -> (replaced:
    Option<W>)
    requires
        old(watchers).wf(),
    ensures
        final(watchers).wf(),
        final(watchers)@ == old(watchers)@.insert(id@, (WatchView { watcher, paths: seq![path@] })),
        replaced is Some == old(watchers)@.contains_key(id@),
        replaced matches Some(previous) ==> previous == old(watchers)@[id@].watcher,
{
    match watchers.replace(id, WatchedProject::new(watcher, path)) {
        Some(previous) => Some(previous.into_watcher()),
        None => None,
    }
}

/// Decides whether `path` is to be added to the watch of project `id`: it
/// is when the project is watched and the folder is not. The answer is the
/// watcher to start the watch with. Nothing is noted yet; see
/// [`folder_watched`].
pub fn watch_folder<'a, W>(watchers: &'a mut WatcherMap<W>, id: &str, path: &str) -> (target: Option<
    &'a mut W,
>)
    requires
        old(watchers).wf(),
    ensures
        final(watchers).wf(),
        target is Some == (old(watchers)@.contains_key(id@) && !old(watchers)@[id@].paths.contains(
            path@,
        )),
        match target {
            Some(watcher) => *watcher == old(watchers)@[id@].watcher && final(watchers)@ == old(
                watchers,
            )@.insert(id@, (WatchView { watcher: *final(watcher), ..old(watchers)@[id@] })),
            None => final(watchers)@ == old(watchers)@,
        },
{
    match watchers.get_for_write(id) {
        Some(project) => {
            if project.watches(path) {
                proof {
                    assert(old(watchers)@.insert(id@, project@) =~= old(watchers)@);
                }
                None
            } else {
                Some(project.watcher_mut())
            }
        },
        None => None,
    }
}

/// Notes that the watcher of project `id` now watches `path`. Unknown
/// projects are ignored.
pub fn folder_watched<W>(watchers: &mut WatcherMap<W>, id: &str, path: String)
    requires
        old(watchers).wf(),
    ensures
        final(watchers).wf(),
        !old(watchers)@.contains_key(id@) ==> final(watchers)@ == old(watchers)@,
        old(watchers)@.contains_key(id@) ==> final(watchers)@ == old(watchers)@.insert(
            id@,
            (WatchView {
                paths: if old(watchers)@[id@].paths.contains(path@) {
                    old(watchers)@[id@].paths
                } else {
                    old(watchers)@[id@].paths.push(path@)
                },
                ..old(watchers)@[id@]
            }),
        ),
{
    match watchers.get_for_write(id) {
        Some(project) => {
            project.add_path(path);
        },
        None => {},
    }
}

/// Takes `path` out of the watch of project `id`. When the folder was
/// watched, the answer is the watcher to stop the watch with. Unknown
/// projects and folders are ignored.
pub fn unwatch_folder<'a, W>(watchers: &'a mut WatcherMap<W>, id: &str, path: &str) -> (target:
    Option<&'a mut W>)
    requires
        old(watchers).wf(),
    ensures
        final(watchers).wf(),
        target is Some == (old(watchers)@.contains_key(id@) && old(watchers)@[id@].paths.contains(
            path@,
        )),
        match target {
            Some(watcher) => *watcher == old(watchers)@[id@].watcher && final(watchers)@ == old(
                watchers,
            )@.insert(
                id@,
                (WatchView {
                    watcher: *final(watcher),
                    paths: without_first(old(watchers)@[id@].paths, path@),
                }),
            ),
            None => final(watchers)@ == old(watchers)@,
        },
{
    match watchers.get_for_write(id) {
        Some(project) => {
            let ghost before = project@;
            if project.remove_path(path) {
                Some(project.watcher_mut())
            } else {
                proof {
                    lemma_absent_without_first(before.paths, path@);
                    assert(project@ == before);
                    assert(old(watchers)@.insert(id@, before) =~= old(watchers)@);
                }
                None
            }
        },
        None => None,
    }
}

/// Ends the watch of project `id` and hands its watcher back. Unknown
/// projects are ignored.
pub fn unwatch_project<W>(watchers: &mut WatcherMap<W>, id: &str) -> (watcher: Option<W>)
    requires
        old(watchers).wf(),
    ensures
        final(watchers).wf(),
        final(watchers)@ == old(watchers)@.remove(id@),
        watcher is Some == old(watchers)@.contains_key(id@),
        watcher matches Some(w) ==> w == old(watchers)@[id@].watcher,
{
    match watchers.remove(id) {
        Some(project) => Some(project.into_watcher()),
        None => None,
    }
}

} // verus!
