use md_workspace::greeting::greet;
use md_workspace::node::{FileSystemNode, RawEntry};
use md_workspace::workspace::{assets_path, check_root, load_workspace, validate_root, LoadError};

#[test]
fn greeting_assembles_the_banner() {
    assert_eq!(greet("world"), "Hello, world! You've been greeted from Rust!");
    assert_eq!(greet(""), "Hello, ! You've been greeted from Rust!");
}

#[test]
fn check_root_surfaces_the_distinct_messages() {
    assert_eq!(check_root(true, true), Ok(()));
    assert_eq!(
        check_root(false, false),
        Err("Workspace directory does not exist".to_string())
    );
    assert_eq!(
        check_root(true, false),
        Err("Workspace path is not a directory".to_string())
    );
}

#[test]
fn missing_root_is_rejected_as_does_not_exist() {
    let r = validate_root(false, false);
    assert_eq!(r, Err(LoadError::DoesNotExist));
    assert_eq!(
        LoadError::DoesNotExist.message(),
        "Workspace directory does not exist".to_string()
    );
}

#[test]
fn non_directory_root_is_rejected_distinctly() {
    let r = validate_root(true, false);
    assert_eq!(r, Err(LoadError::NotADirectory));
    assert_eq!(
        LoadError::NotADirectory.message(),
        "Workspace path is not a directory".to_string()
    );
}

#[test]
fn existing_directory_root_is_accepted() {
    assert_eq!(validate_root(true, true), Ok(()));
}

#[test]
fn assets_path_is_joined_under_the_root() {
    assert_eq!(assets_path("/home/me/ws"), "/home/me/ws/assets".to_string());
}

#[test]
fn load_workspace_pairs_path_with_scanned_tree() {
    let entries = vec![RawEntry::File {
        name: "readme.md".to_string(),
        path: "/ws/readme.md".to_string(),
    }];
    let w = load_workspace("/ws".to_string(), entries);
    assert_eq!(w.path, "/ws");
    assert_eq!(w.tree.len(), 1);
    match &w.tree[0] {
        FileSystemNode::Document { name, path } => {
            assert_eq!(name, "readme.md");
            assert_eq!(path, "/ws/readme.md");
        }
        _ => panic!("expected a document"),
    }
}
