use staticserve::fileset::StaticFileSet;
use staticserve::response::{FileRead, build_response};
use staticserve::walk::{collect_leaf_paths, collect_leaf_paths_all, DirEntry};

fn file(name: &[u8]) -> DirEntry {
    DirEntry::File { name: name.to_vec() }
}

fn dir(name: &[u8], entries: Vec<DirEntry>) -> DirEntry {
    DirEntry::Dir { name: name.to_vec(), entries }
}

#[test]
fn flat_tree_collects_one_path_per_leaf() {
    let entries = vec![file(b"a.html"), file(b"b.css")];
    let mut out: Vec<Vec<u8>> = Vec::new();
    collect_leaf_paths_all(&b"../client/dist".to_vec(), &entries, &mut out);
    assert_eq!(out, vec![b"../client/dist/a.html".to_vec(), b"../client/dist/b.css".to_vec()]);
}

#[test]
fn nested_tree_joins_each_directory_level() {
    let entries = vec![file(b"a.html"), dir(b"sub", vec![file(b"b.css")])];
    let mut out: Vec<Vec<u8>> = Vec::new();
    collect_leaf_paths_all(&b"../client/dist".to_vec(), &entries, &mut out);
    assert_eq!(
        out,
        vec![b"../client/dist/a.html".to_vec(), b"../client/dist/sub/b.css".to_vec()]
    );
}

#[test]
fn deep_nesting_keeps_the_leaf_count() {
    let tree = dir(b"one", vec![dir(b"two", vec![dir(b"three", vec![file(b"leaf.js")])]),
        file(b"top.html")]);
    let mut out: Vec<Vec<u8>> = Vec::new();
    collect_leaf_paths(&b"/root".to_vec(), &tree, &mut out);
    assert_eq!(out.len(), 2);
    assert_eq!(out[0], b"/root/one/two/three/leaf.js".to_vec());
    assert_eq!(out[1], b"/root/one/top.html".to_vec());
}

#[test]
fn collected_paths_of_distinct_leaves_are_distinct() {
    let entries = vec![dir(b"a", vec![file(b"x")]), dir(b"ax", vec![file(b"y")]), file(b"a.x")];
    let mut out: Vec<Vec<u8>> = Vec::new();
    collect_leaf_paths_all(&b"/srv".to_vec(), &entries, &mut out);
    assert_eq!(out.len(), 3);
    for i in 0..out.len() {
        for j in 0..out.len() {
            if i != j {
                assert_ne!(out[i], out[j]);
            }
        }
    }
}

#[test]
fn empty_path_list_is_refused() {
    assert!(StaticFileSet::new(b"/srv".to_vec(), Vec::new()).is_none());
}

#[test]
fn collected_paths_feed_the_file_set() {
    let entries = vec![file(b"a.html"), dir(b"sub", vec![file(b"b.css")])];
    let root = b"../client/dist".to_vec();
    let mut out: Vec<Vec<u8>> = Vec::new();
    collect_leaf_paths_all(&root, &entries, &mut out);
    let files = StaticFileSet::new(root, out).expect("non-empty set");
    assert_eq!(files.len(), 2);
    assert!(files.contains(b"../client/dist/a.html"));
    assert!(files.contains(b"../client/dist/sub/b.css"));
    assert!(!files.contains(b"../client/dist/missing"));
}

#[test]
fn walked_tree_serves_members_and_rejects_strangers() {
    let entries = vec![file(b"a.html"), dir(b"sub", vec![file(b"b.css")])];
    let root = b"../client/dist".to_vec();
    let mut paths: Vec<Vec<u8>> = Vec::new();
    collect_leaf_paths_all(&root, &entries, &mut paths);
    let files = StaticFileSet::new(root, paths).expect("non-empty set");

    let page = FileRead::Content(b"<p>hi</p>".to_vec());
    let resp = build_response(b"GET /a.html HTTP/1.1\r\n", &files, &page);
    let text = String::from_utf8(resp).unwrap();
    assert!(text.starts_with("HTTP/1.1 200 OK\r\nContent-Type: text/html\r\n"));

    let sheet = FileRead::Content(b"p{}".to_vec());
    let resp = build_response(b"GET /sub/b.css HTTP/1.1\r\n", &files, &sheet);
    let text = String::from_utf8(resp).unwrap();
    assert!(text.starts_with("HTTP/1.1 200 OK\r\nContent-Type: text/css\r\n"));

    let resp = build_response(b"GET /missing HTTP/1.1\r\n", &files, &FileRead::Failed);
    let text = String::from_utf8(resp).unwrap();
    assert!(text.starts_with("HTTP/1.1 404 Not Found\r\n"));
}

#[test]
fn resolve_joins_root_and_target() {
    let files = StaticFileSet::new(b"/srv".to_vec(), vec![b"/srv/a".to_vec()]).unwrap();
    assert_eq!(files.resolve(b"/a"), b"/srv/a".to_vec());
}
