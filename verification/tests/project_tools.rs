use oxide_core::db::{folder_flag, node_from_row, skips_indexing};
use oxide_core::diff::{calculate_diff, has_changes, has_path};
use oxide_core::fs::{FileNode, SearchResult};
use oxide_core::mmap_viewer::{build_preview, is_binary_chunk, is_truncated, preview_window};
use oxide_core::node_order::{shown_before, sort_nodes};
use oxide_core::scan_dir::{
    build_node, chunk_event, entry_allowed, image_ending, image_node, is_image, plan_entry,
    scan_allowed, scan_dir, skips_dir, DiskEntry, EntryPlan, FileBatch, BATCH_SIZE,
    MAX_DIR_ENTRIES,
};
use oxide_core::search::{
    is_search_excluded, line_matches, normalize_query, prepared_query, push_hit, search_content,
    search_lines, MAX_RESULTS,
};
use oxide_core::text::{
    bytes_contain, bytes_end_with, bytes_eq, bytes_match_at, bytes_sorted, str_contains,
    str_ends_with, str_eq, str_sorted,
};
use oxide_core::watcher::{
    change_event, changed_paths, folder_watched, unwatch_folder, unwatch_project, watch_folder,
    watch_project, WatchedProject, WatcherMap,
};

fn file(name: &str, path: &str) -> FileNode {
    FileNode { name: name.to_string(), path: path.to_string(), is_folder: false, children: None }
}

fn folder(name: &str, path: &str, children: Vec<FileNode>) -> FileNode {
    FileNode {
        name: name.to_string(),
        path: path.to_string(),
        is_folder: true,
        children: Some(children),
    }
}

fn names(nodes: &[FileNode]) -> Vec<&str> {
    nodes.iter().map(|n| n.name.as_str()).collect()
}

fn paths(nodes: &[FileNode]) -> Vec<&str> {
    nodes.iter().map(|n| n.path.as_str()).collect()
}

fn disk_file(dir: &str, name: &str) -> DiskEntry {
    DiskEntry {
        name: name.to_string(),
        path: format!("{}/{}", dir, name),
        is_dir: false,
        entries: Vec::new(),
    }
}

fn disk_dir(dir: &str, name: &str, entries: Vec<DiskEntry>) -> DiskEntry {
    DiskEntry { name: name.to_string(), path: format!("{}/{}", dir, name), is_dir: true, entries }
}

#[test]
fn byte_helpers_agree_with_the_standard_library() {
    let samples: [&str; 7] = ["", "a", "ab", "abc", "b", "ba", "é"];
    for a in samples {
        for b in samples {
            assert_eq!(bytes_eq(a.as_bytes(), b.as_bytes()), a == b);
            assert_eq!(str_eq(a, b), a == b);
            assert_eq!(bytes_end_with(a.as_bytes(), b.as_bytes()), a.ends_with(b));
            assert_eq!(str_ends_with(a, b), a.ends_with(b));
            assert_eq!(bytes_contain(a.as_bytes(), b.as_bytes()), a.contains(b));
            assert_eq!(str_contains(a, b), a.contains(b));
            assert_eq!(bytes_sorted(a.as_bytes(), b.as_bytes()), a <= b);
            assert_eq!(str_sorted(a, b), a <= b);
        }
    }
    assert!(bytes_match_at(b"hello", b"ll", 2));
    assert!(!bytes_match_at(b"hello", b"ll", 1));
    assert!(bytes_match_at(b"hello", b"", 5));
    assert!(!bytes_match_at(b"hello", b"", 6));
    assert!(!bytes_match_at(b"hello", b"lo!", 3));
    assert!(!bytes_match_at(b"hello", b"h", usize::MAX));
}

#[test]
fn heavy_folders_are_skipped() {
    for name in ["node_modules", ".git", "target", "dist"] {
        assert!(skips_dir(name, false));
        assert!(skips_dir(name, true));
        assert!(is_search_excluded(name));
        assert!(skips_indexing(name));
    }
    assert!(skips_dir("build", false));
    assert!(!skips_dir("build", true));
    assert!(!is_search_excluded("build"));
    assert!(skips_indexing("build"));
    for name in ["src", "Target", "node_modules2", "", ".github"] {
        assert!(!skips_dir(name, false));
        assert!(!is_search_excluded(name));
    }
}

#[test]
fn images_are_known_by_their_ending_whatever_the_case() {
    for name in ["a.png", "b.JPG", "c.Jpeg", "d.gif", "e.WEBP", "f.svg", ".png"] {
        assert!(is_image(name), "{}", name);
    }
    for name in ["a.pngx", "png", "a.txt", "", "a.pn", "a.png.bak"] {
        assert!(!is_image(name), "{}", name);
    }
    assert!(image_ending("photo.jpeg"));
    assert!(!image_ending("photo.JPEG"));
}

#[test]
fn entries_are_planned_by_kind_name_and_depth() {
    assert_eq!(plan_entry("node_modules", true, true, 0, false), EntryPlan::Stub);
    assert_eq!(plan_entry("build", true, true, 0, false), EntryPlan::Stub);
    assert_eq!(plan_entry("build", true, true, 0, true), EntryPlan::Folder { descend: true });
    assert_eq!(plan_entry("src", true, true, 2, false), EntryPlan::Folder { descend: true });
    assert_eq!(plan_entry("src", true, true, 3, false), EntryPlan::Folder { descend: false });
    assert_eq!(plan_entry("src", true, false, 0, false), EntryPlan::Folder { descend: false });
    assert_eq!(plan_entry("a.PNG", false, true, 0, false), EntryPlan::File { image: true });
    assert_eq!(plan_entry("a.rs", false, true, 0, false), EntryPlan::File { image: false });
    assert_eq!(plan_entry("target", false, true, 0, false), EntryPlan::File { image: false });
}

#[test]
fn scan_limits() {
    assert!(scan_allowed(0));
    assert!(scan_allowed(5));
    assert!(!scan_allowed(6));
    assert!(entry_allowed(0));
    assert!(entry_allowed(MAX_DIR_ENTRIES - 1));
    assert!(!entry_allowed(MAX_DIR_ENTRIES));
    assert_eq!(MAX_DIR_ENTRIES, 5000);
    assert_eq!(BATCH_SIZE, 100);
}

#[test]
fn nodes_are_built_from_plans() {
    let scanned = vec![file("x", "/d/x")];
    let stub = build_node("d".into(), "/d".into(), EntryPlan::Stub, scanned);
    assert!(stub.is_folder);
    assert_eq!(stub.children.as_ref().map(|c| c.len()), Some(0));

    let deep = build_node(
        "d".into(),
        "/d".into(),
        EntryPlan::Folder { descend: true },
        vec![file("x", "/d/x")],
    );
    assert_eq!(paths(deep.children.as_ref().unwrap()), vec!["/d/x"]);

    let flat = build_node(
        "d".into(),
        "/d".into(),
        EntryPlan::Folder { descend: false },
        vec![file("x", "/d/x")],
    );
    assert_eq!(flat.children.as_ref().map(|c| c.len()), Some(0));

    let leaf = build_node("f".into(), "/f".into(), EntryPlan::File { image: true }, vec![]);
    assert!(!leaf.is_folder);
    assert!(leaf.children.is_none());
    assert_eq!((leaf.name.as_str(), leaf.path.as_str()), ("f", "/f"));

    let image = image_node("p.png", "/p.png");
    assert_eq!((image.name.as_str(), image.path.as_str()), ("p.png", "/p.png"));
    assert!(!image.is_folder && image.children.is_none());
}

#[test]
fn folders_come_first_then_names_in_byte_order() {
    let sorted = sort_nodes(vec![
        file("b.txt", "1"),
        folder("zeta", "2", vec![]),
        file("B.txt", "3"),
        folder("alpha", "4", vec![]),
        file("a.txt", "5"),
        file("é", "6"),
    ]);
    assert_eq!(names(&sorted), vec!["alpha", "zeta", "B.txt", "a.txt", "b.txt", "é"]);
    assert!(shown_before(&sorted[0], &sorted[1]));
    assert!(!shown_before(&sorted[2], &sorted[1]));
    assert!(shown_before(&sorted[1], &sorted[2]));
}

#[test]
fn sorting_is_stable_and_keeps_every_node() {
    let sorted = sort_nodes(vec![
        file("same", "first"),
        file("same", "second"),
        folder("same", "third", vec![]),
        file("same", "fourth"),
        file("aaa", "fifth"),
    ]);
    assert_eq!(paths(&sorted), vec!["third", "fifth", "first", "second", "fourth"]);
    assert!(sort_nodes(Vec::new()).is_empty());
    let one = sort_nodes(vec![file("x", "x")]);
    assert_eq!(names(&one), vec!["x"]);
}

#[test]
fn sorting_agrees_with_the_standard_sort() {
    let mut seed: u32 = 12345;
    let mut nodes = Vec::new();
    for i in 0..200 {
        seed = seed.wrapping_mul(1103515245).wrapping_add(12345);
        let name = format!("n{}", (seed >> 16) % 50);
        let is_folder = (seed >> 8) % 3 == 0;
        nodes.push(FileNode {
            name,
            path: i.to_string(),
            is_folder,
            children: if is_folder { Some(vec![]) } else { None },
        });
    }
    let mut expected: Vec<(bool, String, String)> =
        nodes.iter().map(|n| (!n.is_folder, n.name.clone(), n.path.clone())).collect();
    expected.sort_by(|a, b| (a.0, &a.1).cmp(&(b.0, &b.1)));
    let sorted = sort_nodes(nodes);
    let got: Vec<(bool, String, String)> =
        sorted.iter().map(|n| (!n.is_folder, n.name.clone(), n.path.clone())).collect();
    assert_eq!(got, expected);
}

#[test]
fn a_flat_scan_lists_folders_without_entering_them() {
    let listing = vec![
        disk_file("/p", "main.rs"),
        disk_dir("/p", "src", vec![disk_file("/p/src", "lib.rs")]),
        disk_file("/p", "logo.PNG"),
        disk_dir("/p", "node_modules", vec![disk_file("/p/node_modules", "x.png")]),
    ];
    let mut images = Vec::new();
    let tree = scan_dir(&listing, &mut images, false, 0);
    assert_eq!(names(&tree), vec!["node_modules", "src", "logo.PNG", "main.rs"]);
    assert_eq!(tree[0].children.as_ref().map(|c| c.len()), Some(0));
    assert_eq!(tree[1].children.as_ref().map(|c| c.len()), Some(0));
    assert!(tree[2].children.is_none());
    assert_eq!(paths(&images), vec!["/p/logo.PNG"]);
}

#[test]
fn a_recursive_scan_enters_folders_near_the_top() {
    let level3 = disk_dir("/p/a/b/c", "d", vec![disk_file("/p/a/b/c/d", "deep.gif")]);
    let level2 = disk_dir("/p/a/b", "c", vec![level3, disk_file("/p/a/b/c", "c.svg")]);
    let level1 = disk_dir("/p/a", "b", vec![level2]);
    let listing = vec![
        disk_file("/p", "z.png"),
        disk_dir("/p", "a", vec![level1, disk_file("/p/a", "a.jpg")]),
        disk_dir("/p", "build", vec![disk_file("/p/build", "out.png")]),
    ];
    let mut images = vec![file("earlier.png", "/earlier.png")];
    let tree = scan_dir(&listing, &mut images, true, 0);

    assert_eq!(names(&tree), vec!["a", "build", "z.png"]);
    assert_eq!(tree[1].children.as_ref().map(|c| c.len()), Some(0));
    let a = tree[0].children.as_ref().unwrap();
    assert_eq!(names(a), vec!["b", "a.jpg"]);
    let b = a[0].children.as_ref().unwrap();
    assert_eq!(names(b), vec!["c"]);
    let c = b[0].children.as_ref().unwrap();
    assert_eq!(names(c), vec!["d", "c.svg"]);
    assert_eq!(c[0].children.as_ref().map(|d| d.len()), Some(0));
    assert_eq!(
        paths(&images),
        vec!["/earlier.png", "/p/z.png", "/p/a/b/c/c.svg", "/p/a/a.jpg"]
    );
}

#[test]
fn a_scan_beyond_the_depth_limit_is_empty() {
    let listing = vec![disk_file("/p", "a.png")];
    let mut images = Vec::new();
    assert!(scan_dir(&listing, &mut images, true, 6).is_empty());
    assert!(images.is_empty());
    assert_eq!(scan_dir(&listing, &mut images, true, 5).len(), 1);
    assert_eq!(images.len(), 1);
}

#[test]
fn a_scan_looks_at_a_bounded_number_of_entries() {
    let listing: Vec<DiskEntry> =
        (0..MAX_DIR_ENTRIES + 25).map(|i| disk_file("/p", &format!("f{:05}.png", i))).collect();
    let mut images = Vec::new();
    let tree = scan_dir(&listing, &mut images, false, 0);
    assert_eq!(tree.len(), MAX_DIR_ENTRIES);
    assert_eq!(images.len(), MAX_DIR_ENTRIES);
    assert_eq!(tree[MAX_DIR_ENTRIES - 1].name, "f04999.png");
}

#[test]
fn batches_are_handed_out_when_full_and_at_the_end() {
    let mut batch = FileBatch::new();
    for i in 0..BATCH_SIZE - 1 {
        assert!(batch.push(file(&i.to_string(), "p")).is_none());
    }
    let full = batch.push(file("last", "p")).expect("the hundredth node fills the batch");
    assert_eq!(full.len(), BATCH_SIZE);
    assert_eq!(full[0].name, "0");
    assert_eq!(full[BATCH_SIZE - 1].name, "last");
    assert!(batch.push(file("next", "p")).is_none());
    let rest = batch.finish().expect("one node still waits");
    assert_eq!(names(&rest), vec!["next"]);
    assert!(FileBatch::new().finish().is_none());
    assert_eq!(chunk_event("/p"), "fs-chunk-/p");
}

#[test]
fn skipped_folders_wait_without_causing_a_send() {
    let mut batch = FileBatch::new();
    for i in 0..BATCH_SIZE - 1 {
        let plan = EntryPlan::File { image: false };
        assert!(batch.add(file(&i.to_string(), "p"), plan).is_none());
    }
    assert!(batch.add(folder("node_modules", "p", vec![]), EntryPlan::Stub).is_none());
    assert!(batch.add(folder(".git", "p", vec![]), EntryPlan::Stub).is_none());
    let sent = batch
        .add(folder("src", "p", vec![]), EntryPlan::Folder { descend: false })
        .expect("a node that is no skipped folder sends the full batch");
    assert_eq!(sent.len(), BATCH_SIZE + 2);
    assert_eq!(sent[BATCH_SIZE - 1].name, "node_modules");
    assert_eq!(sent[BATCH_SIZE + 1].name, "src");
    assert!(batch.finish().is_none());

    let mut held = FileBatch::new();
    for _ in 0..BATCH_SIZE + 5 {
        held.hold(file("x", "p"));
    }
    assert_eq!(held.finish().map(|rest| rest.len()), Some(BATCH_SIZE + 5));
}

#[test]
fn a_diff_lists_what_to_add_and_what_to_remove() {
    let disk = vec![file("a", "/p/a"), folder("d", "/p/d", vec![file("x", "/p/d/x")]), file("c", "/p/c")];
    let db = vec![file("a", "/p/a"), file("gone", "/p/gone"), file("old", "/p/old")];
    let patch = calculate_diff("proj", "/p", &disk, &db);
    assert_eq!(patch.project_id, "proj");
    assert_eq!(patch.parent_path, "/p");
    assert_eq!(paths(&patch.added), vec!["/p/d", "/p/c"]);
    assert_eq!(paths(patch.added[0].children.as_ref().unwrap()), vec!["/p/d/x"]);
    assert_eq!(patch.removed, vec!["/p/gone".to_string(), "/p/old".to_string()]);
    assert!(has_changes(&patch));
    assert!(has_path(&disk, "/p/c"));
    assert!(!has_path(&disk, "/p/d/x"));
}

#[test]
fn equal_listings_give_an_empty_diff() {
    let disk = vec![file("a", "/p/a"), file("b", "/p/b")];
    let db = vec![file("renamed-in-index", "/p/b"), file("a", "/p/a")];
    let patch = calculate_diff("proj", "/p", &disk, &db);
    assert!(patch.added.is_empty());
    assert!(patch.removed.is_empty());
    assert!(!has_changes(&patch));
    let from_nothing = calculate_diff("proj", "/p", &disk, &Vec::new());
    assert_eq!(paths(&from_nothing.added), vec!["/p/a", "/p/b"]);
    let to_nothing = calculate_diff("proj", "/p", &Vec::new(), &disk);
    assert_eq!(to_nothing.removed, vec!["/p/a".to_string(), "/p/b".to_string()]);
}

#[test]
fn queries_are_lowercased_and_short_ones_refused() {
    assert_eq!(normalize_query("FooBar"), Some("foobar".to_string()));
    assert_eq!(normalize_query("ab"), Some("ab".to_string()));
    assert_eq!(normalize_query("a"), None);
    assert_eq!(normalize_query(""), None);
    assert_eq!(normalize_query("É"), Some("é".to_string()));
    assert_eq!(prepared_query("x".to_string()), None);
    assert_eq!(prepared_query("xy".to_string()), Some("xy".to_string()));
    assert!(line_matches("let foobar = 1;", "foobar"));
    assert!(!line_matches("let FooBar = 1;", "foobar"));
}

#[test]
fn hits_carry_path_line_number_and_trimmed_text() {
    let mut results = Vec::new();
    let content = "first line\n  Needle here  \r\nnothing\n\tanother NEEDLE\n";
    let full = search_content("/p/a.txt", content, "needle", &mut results);
    assert!(!full);
    let got: Vec<(&str, usize, &str)> =
        results.iter().map(|r| (r.path.as_str(), r.line, r.content.as_str())).collect();
    assert_eq!(got, vec![("/p/a.txt", 2, "Needle here"), ("/p/a.txt", 4, "another NEEDLE")]);
}

#[test]
fn a_search_stops_with_the_hit_that_passes_the_limit() {
    let lines: Vec<String> = (0..MAX_RESULTS + 50).map(|i| format!("hit {}", i)).collect();
    let mut results = Vec::new();
    assert!(search_lines("/p/big", &lines, "hit", &mut results));
    assert_eq!(results.len(), MAX_RESULTS + 1);
    assert_eq!(results[MAX_RESULTS].line, MAX_RESULTS + 1);
    assert_eq!(results[MAX_RESULTS].content, format!("hit {}", MAX_RESULTS));

    assert!(search_lines("/p/more", &lines, "hit", &mut results));
    assert_eq!(results.len(), MAX_RESULTS + 2);
    assert_eq!(results[MAX_RESULTS + 1].path, "/p/more");
    assert_eq!(results[MAX_RESULTS + 1].line, 1);

    assert!(!search_lines("/p/none", &lines, "absent", &mut results));
    assert_eq!(results.len(), MAX_RESULTS + 2);

    let mut nearly: Vec<SearchResult> = Vec::new();
    for i in 0..MAX_RESULTS - 1 {
        assert!(!push_hit(&mut nearly, "/p", i + 1, "x"));
    }
    assert!(!push_hit(&mut nearly, "/p", 500, "x"));
    assert!(push_hit(&mut nearly, "/p", 501, "x"));
    assert_eq!(MAX_RESULTS, 500);
}

#[test]
fn preview_windows_are_cut_at_the_end_of_the_file() {
    assert_eq!(preview_window(100, 10, 20), (10, 30));
    assert_eq!(preview_window(100, 90, 20), (90, 100));
    assert_eq!(preview_window(100, 100, 20), (100, 100));
    assert_eq!(preview_window(100, 150, 20), (100, 100));
    assert_eq!(preview_window(0, 0, 0), (0, 0));
    assert_eq!(preview_window(100, u64::MAX, 20), (100, 100));
    assert_eq!(preview_window(u64::MAX, u64::MAX - 5, 20), (u64::MAX - 5, u64::MAX));
    assert!(is_truncated(100, 10, 20));
    assert!(!is_truncated(100, 80, 20));
    assert!(!is_truncated(100, 90, 20));
    assert!(!is_truncated(u64::MAX, u64::MAX, 1));
}

#[test]
fn binary_windows_are_not_shown() {
    let preview = build_preview(b"plain text", 100, 0, 10);
    assert_eq!(preview.content, "plain text");
    assert!(!preview.is_binary);
    assert!(preview.truncated);
    assert_eq!(preview.size, 100);

    let preview = build_preview(b"ab\0cd", 5, 0, 5);
    assert_eq!(preview.content, "Binary content detected. Preview unavailable.");
    assert!(preview.is_binary);
    assert!(!preview.truncated);

    let preview = build_preview(b"caf\xc3\xa9 \xff", 7, 0, 7);
    assert_eq!(preview.content, "café \u{fffd}");
}

#[test]
fn only_the_first_bytes_are_searched_for_zeros() {
    let mut chunk = vec![b'a'; 2000];
    assert!(!is_binary_chunk(&chunk));
    chunk[1024] = 0;
    assert!(!is_binary_chunk(&chunk));
    chunk[1023] = 0;
    assert!(is_binary_chunk(&chunk));
    assert!(!is_binary_chunk(&[]));
    assert!(is_binary_chunk(&[0]));
}

#[test]
fn rows_become_nodes() {
    let dir = node_from_row("src".into(), "/p/src".into(), 1);
    assert!(dir.is_folder);
    assert_eq!(dir.children.as_ref().map(|c| c.len()), Some(0));
    let leaf = node_from_row("a".into(), "/p/a".into(), 0);
    assert!(!leaf.is_folder && leaf.children.is_none());
    let odd = node_from_row("a".into(), "/p/a".into(), 2);
    assert!(!odd.is_folder && odd.children.is_none());
    assert_eq!(folder_flag(true), 1);
    assert_eq!(folder_flag(false), 0);
}

#[test]
fn watched_folders_are_noted_once() {
    let mut watchers: WatcherMap<u32> = WatcherMap::new();
    assert_eq!(watch_project(&mut watchers, "p".into(), 1, "/p".into()), None);
    assert!(watch_folder(&mut watchers, "p", "/p").is_none());
    assert_eq!(watch_folder(&mut watchers, "p", "/p/src").map(|w| *w), Some(1));
    assert_eq!(watch_folder(&mut watchers, "p", "/p/src").map(|w| *w), Some(1));
    folder_watched(&mut watchers, "p", "/p/src".into());
    assert!(watch_folder(&mut watchers, "p", "/p/src").is_none());
    folder_watched(&mut watchers, "p", "/p/src".into());
    assert!(watchers.get_for_read("p").unwrap().watches("/p/src"));

    assert_eq!(unwatch_folder(&mut watchers, "p", "/p/src").map(|w| *w), Some(1));
    assert!(unwatch_folder(&mut watchers, "p", "/p/src").is_none());
    assert!(!watchers.get_for_read("p").unwrap().watches("/p/src"));
    assert!(watchers.get_for_read("p").unwrap().watches("/p"));
}

#[test]
fn unknown_projects_are_ignored_by_the_watch_table() {
    let mut watchers: WatcherMap<u32> = WatcherMap::new();
    assert!(watch_folder(&mut watchers, "ghost", "/x").is_none());
    folder_watched(&mut watchers, "ghost", "/x".into());
    assert!(unwatch_folder(&mut watchers, "ghost", "/x").is_none());
    assert_eq!(unwatch_project(&mut watchers, "ghost"), None);
    assert_eq!(watchers.len(), 0);
}

#[test]
fn watching_a_project_again_replaces_its_watcher() {
    let mut watchers: WatcherMap<u32> = WatcherMap::new();
    assert_eq!(watch_project(&mut watchers, "p".into(), 1, "/p".into()), None);
    folder_watched(&mut watchers, "p", "/p/src".into());
    assert_eq!(watch_project(&mut watchers, "p".into(), 2, "/q".into()), Some(1));
    assert_eq!(watchers.len(), 1);
    let project = watchers.get_for_read("p").unwrap();
    assert!(project.watches("/q"));
    assert!(!project.watches("/p"));
    assert!(!project.watches("/p/src"));
    assert_eq!(unwatch_project(&mut watchers, "p"), Some(2));
    assert_eq!(unwatch_project(&mut watchers, "p"), None);
}

#[test]
fn watcher_handles_can_be_changed_in_place() {
    let mut project = WatchedProject::new(10u32, "/p".to_string());
    *project.watcher_mut() += 1;
    project.add_path("/p/a".into());
    project.add_path("/p/a".into());
    assert!(project.remove_path("/p/a"));
    assert!(!project.remove_path("/p/a"));
    assert_eq!(project.into_watcher(), 11);
}

#[test]
fn change_events_need_paths() {
    assert_eq!(change_event("p1"), "fs-change-p1");
    assert_eq!(changed_paths(vec![]), None);
    assert_eq!(changed_paths(vec!["/p/a".to_string()]), Some(vec!["/p/a".to_string()]));
}
