use file_processor::entry::UploadFileInfo;
use file_processor::resolver::{resolve_manifest, FsItem, ResolveError, RootListing};

fn parts(p: &str) -> Vec<String> {
    p.split('/').filter(|s| !s.is_empty()).map(|s| s.to_string()).collect()
}

fn file(p: &str, size: u64) -> FsItem {
    FsItem { path: parts(p), is_dir: false, size }
}

fn dir(p: &str) -> FsItem {
    FsItem { path: parts(p), is_dir: true, size: 0 }
}

fn listing(root: &str, items: Vec<FsItem>) -> RootListing {
    RootListing { root: parts(root), items }
}

fn rel(m: &[UploadFileInfo]) -> Vec<String> {
    m.iter().map(|e| e.relative_path.clone()).collect()
}

#[test]
fn empty_subdirectory_and_nested_file() {
    let l = listing(
        "/data/root",
        vec![dir("/data/root"), dir("/data/root/empty"), dir("/data/root/a"), file("/data/root/a/b.txt", 3)],
    );
    let m = resolve_manifest(&vec![l]).unwrap();
    assert_eq!(m.len(), 2);
    assert_eq!(m[0].relative_path, "root/empty");
    assert!(m[0].is_directory);
    assert_eq!(m[0].name, "");
    assert_eq!(m[0].size, 0);
    assert_eq!(m[0].mime_type, "dir");
    assert_eq!(m[1].relative_path, "root/a/b.txt");
    assert_eq!(m[1].name, "b.txt");
    assert_eq!(m[1].size, 3);
    assert_eq!(m[1].mime_type, "text/plain");
    assert!(!m[1].is_directory);
    assert_eq!(m[0].id, 0);
    assert_eq!(m[1].id, 1);
}

#[test]
fn single_file_root() {
    let l = listing("/home/u/report.pdf", vec![file("/home/u/report.pdf", 10)]);
    let m = resolve_manifest(&vec![l]).unwrap();
    assert_eq!(m.len(), 1);
    assert_eq!(m[0].name, "report.pdf");
    assert_eq!(m[0].relative_path, "report.pdf");
    assert_eq!(m[0].size, 10);
    assert_eq!(m[0].mime_type, "application/pdf");
}

#[test]
fn empty_root_directory_is_one_placeholder() {
    let l = listing("/x/top", vec![dir("/x/top")]);
    let m = resolve_manifest(&vec![l]).unwrap();
    assert_eq!(rel(&m), vec!["top".to_string()]);
    assert!(m[0].is_directory);
}

#[test]
fn file_free_subtree_gives_only_its_top() {
    // x holds only empty directories: one placeholder for x, none below it.
    let l = listing(
        "/r",
        vec![
            dir("/r"),
            dir("/r/x"),
            dir("/r/x/y"),
            dir("/r/x/z"),
            dir("/r/x/z/w"),
            file("/r/f.md", 5),
            dir("/r/g"),
            file("/r/g/h.png", 7),
        ],
    );
    let m = resolve_manifest(&vec![l]).unwrap();
    assert_eq!(rel(&m), vec!["r/x".to_string(), "r/f.md".to_string(), "r/g/h.png".to_string()]);
    let files = m.iter().filter(|e| !e.is_directory).count();
    let dirs = m.iter().filter(|e| e.is_directory).count();
    assert_eq!(files, 2);
    assert_eq!(dirs, 1);
    assert_eq!(m[2].mime_type, "image/png");
}

#[test]
fn several_roots_are_numbered_across_the_batch() {
    let a = listing("/p/a", vec![dir("/p/a"), file("/p/a/one.txt", 1), file("/p/a/two.txt", 2)]);
    let b = listing("/q/b.json", vec![file("/q/b.json", 4)]);
    let m = resolve_manifest(&vec![a, b]).unwrap();
    assert_eq!(rel(&m), vec!["a/one.txt".to_string(), "a/two.txt".to_string(), "b.json".to_string()]);
    let ids: Vec<u64> = m.iter().map(|e| e.id).collect();
    assert_eq!(ids, vec![0, 1, 2]);
    assert_eq!(m[2].mime_type, "application/json");
}

#[test]
fn empty_root_path_is_refused() {
    let l = RootListing { root: vec![], items: vec![] };
    assert_eq!(resolve_manifest(&vec![l]).unwrap_err(), ResolveError::EmptyRoot);
}

#[test]
fn item_outside_root_is_refused() {
    let good = listing("/p/a", vec![file("/p/a", 1)]);
    let bad = listing("/p/b", vec![dir("/p/b"), file("/p/c/x.txt", 1)]);
    assert_eq!(resolve_manifest(&vec![good, bad]).unwrap_err(), ResolveError::OutsideRoot);
}

#[test]
fn no_roots_give_an_empty_manifest() {
    assert!(resolve_manifest(&vec![]).unwrap().is_empty());
}
