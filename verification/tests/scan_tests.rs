use md_workspace::node::{FileSystemNode, RawEntry};
use md_workspace::scan::build_file_tree;

fn file(name: &str, path: &str) -> RawEntry {
    RawEntry::File { name: name.to_string(), path: path.to_string() }
}

fn dir(name: &str, path: &str, entries: Vec<RawEntry>) -> RawEntry {
    RawEntry::Dir { name: name.to_string(), path: path.to_string(), entries }
}

fn other(name: &str, path: &str) -> RawEntry {
    RawEntry::Other { name: name.to_string(), path: path.to_string() }
}

fn doc_name(n: &FileSystemNode) -> &str {
    match n {
        FileSystemNode::Document { name, .. } => name,
        FileSystemNode::Directory { .. } => panic!("expected a document"),
    }
}

fn dir_parts<'a>(n: &'a FileSystemNode) -> (&'a str, &'a Vec<FileSystemNode>) {
    match n {
        FileSystemNode::Directory { name, children, .. } => (name, children),
        FileSystemNode::Document { .. } => panic!("expected a directory"),
    }
}

#[test]
fn workspace_scenario_excludes_and_orders() {
    let entries = vec![
        file("notes.md", "/w/notes.md"),
        file("draft.txt", "/w/draft.txt"),
        dir("refs", "/w/refs", vec![file("a.md", "/w/refs/a.md")]),
        dir("assets", "/w/assets", vec![file("old.md", "/w/assets/old.md")]),
    ];
    let tree = build_file_tree(&entries);
    assert_eq!(tree.len(), 2);
    let (name, children) = dir_parts(&tree[0]);
    assert_eq!(name, "refs");
    assert_eq!(children.len(), 1);
    assert_eq!(doc_name(&children[0]), "a.md");
    assert_eq!(doc_name(&tree[1]), "notes.md");
}

#[test]
fn directories_before_documents_names_ascending() {
    let entries = vec![
        file("b.md", "/w/b.md"),
        file("a.md", "/w/a.md"),
        dir("zeta", "/w/zeta", vec![]),
        dir("alpha", "/w/alpha", vec![]),
    ];
    let tree = build_file_tree(&entries);
    assert_eq!(tree.len(), 4);
    assert_eq!(dir_parts(&tree[0]).0, "alpha");
    assert_eq!(dir_parts(&tree[1]).0, "zeta");
    assert_eq!(doc_name(&tree[2]), "a.md");
    assert_eq!(doc_name(&tree[3]), "b.md");
}

#[test]
fn assets_exclusion_is_for_directories_only() {
    let entries = vec![
        file("assets", "/w/assets-file"),
        file("assets.md", "/w/assets.md"),
        dir("assets", "/w/assets", vec![file("x.md", "/w/assets/x.md")]),
    ];
    let tree = build_file_tree(&entries);
    assert_eq!(tree.len(), 1);
    assert_eq!(doc_name(&tree[0]), "assets.md");
}

#[test]
fn assets_excluded_at_every_level() {
    let entries = vec![dir(
        "sub",
        "/w/sub",
        vec![
            dir("assets", "/w/sub/assets", vec![file("y.md", "/w/sub/assets/y.md")]),
            file("z.md", "/w/sub/z.md"),
        ],
    )];
    let tree = build_file_tree(&entries);
    assert_eq!(tree.len(), 1);
    let (name, children) = dir_parts(&tree[0]);
    assert_eq!(name, "sub");
    assert_eq!(children.len(), 1);
    assert_eq!(doc_name(&children[0]), "z.md");
}

#[test]
fn extension_filter_cases() {
    let entries = vec![
        file(".md", "/w/.md"),
        file("md", "/w/md"),
        file("x.MD", "/w/x.MD"),
        file("x.md.txt", "/w/x.md.txt"),
        file("x.tar.md", "/w/x.tar.md"),
        file("x.md", "/w/x.md"),
    ];
    let tree = build_file_tree(&entries);
    assert_eq!(tree.len(), 2);
    assert_eq!(doc_name(&tree[0]), "x.md");
    assert_eq!(doc_name(&tree[1]), "x.tar.md");
}

#[test]
fn other_entries_are_ignored() {
    let entries = vec![other("link.md", "/w/link.md"), file("a.md", "/w/a.md")];
    let tree = build_file_tree(&entries);
    assert_eq!(tree.len(), 1);
    assert_eq!(doc_name(&tree[0]), "a.md");
}

#[test]
fn equal_names_keep_traversal_order() {
    let entries = vec![file("dup.md", "/w/one/dup.md"), file("dup.md", "/w/two/dup.md")];
    let tree = build_file_tree(&entries);
    assert_eq!(tree.len(), 2);
    match (&tree[0], &tree[1]) {
        (
            FileSystemNode::Document { path: p0, .. },
            FileSystemNode::Document { path: p1, .. },
        ) => {
            assert_eq!(p0, "/w/one/dup.md");
            assert_eq!(p1, "/w/two/dup.md");
        }
        _ => panic!("expected two documents"),
    }
}

#[test]
fn empty_directory_yields_empty_forest() {
    let entries: Vec<RawEntry> = vec![];
    let tree = build_file_tree(&entries);
    assert!(tree.is_empty());
}

#[test]
fn scan_twice_gives_identical_trees() {
    let entries = vec![
        dir("refs", "/w/refs", vec![file("a.md", "/w/refs/a.md")]),
        file("notes.md", "/w/notes.md"),
    ];
    let first = build_file_tree(&entries);
    let second = build_file_tree(&entries);
    assert_eq!(render(&first), render(&second));
}

fn render(nodes: &[FileSystemNode]) -> String {
    let mut out = String::new();
    for n in nodes {
        match n {
            FileSystemNode::Document { name, path } => {
                out.push_str(&format!("doc({name},{path});"));
            }
            FileSystemNode::Directory { name, path, children } => {
                out.push_str(&format!("dir({name},{path},[{}]);", render(children)));
            }
        }
    }
    out
}
