use rivet::collections::{build_collection_item, list_collections, request_file_stem, ApiCollectionItem, FsNode};
use rivet::types::ApiMethods;
use rivet::request_path::resolve_request_file_path;

fn file(name: &str, method: Option<ApiMethods>) -> FsNode {
    FsNode::File { name: name.to_string(), method }
}

fn dir(name: &str, children: Vec<FsNode>) -> FsNode {
    FsNode::Directory { name: name.to_string(), children }
}

#[test]
fn list_collections_uses_api_method_for_request_items() {
    let collections = list_collections(&vec![file("users.toml", Some(ApiMethods::HEAD))]);
    let [ApiCollectionItem::Request { method, .. }] = collections.as_slice() else {
        panic!("expected one request item");
    };
    assert_eq!(*method, Some(ApiMethods::HEAD));
}

#[test]
fn request_stems() {
    assert_eq!(request_file_stem("users.toml"), Some("users".to_string()));
    assert_eq!(request_file_stem("a.b.toml"), Some("a.b".to_string()));
    assert_eq!(request_file_stem("..toml"), Some(".".to_string()));
    assert_eq!(request_file_stem(".toml"), None);
    assert_eq!(request_file_stem("users.TOML"), None);
    assert_eq!(request_file_stem("users.json"), None);
    assert_eq!(request_file_stem("toml"), None);
}

#[test]
fn builds_sorted_tree_and_drops_empty_folders() {
    let nodes = vec![
        dir("zeta", vec![file("b.toml", Some(ApiMethods::GET)), file("a.toml", None), file("notes.txt", None)]),
        dir("empty", vec![]),
        dir("only-text", vec![file("readme.md", None)]),
        file("top.toml", Some(ApiMethods::POST)),
        FsNode::Other { name: "socket".to_string() },
        dir("alpha", vec![dir("inner", vec![file("deep.toml", Some(ApiMethods::DELETE))])]),
    ];
    let items = list_collections(&nodes);
    assert_eq!(items.len(), 3);
    match &items[0] {
        ApiCollectionItem::Folder { name, children, is_expanded } => {
            assert_eq!(name, "alpha");
            assert!(!is_expanded);
            match &children[0] {
                ApiCollectionItem::Folder { name, children, .. } => {
                    assert_eq!(name, "inner");
                    match &children[0] {
                        ApiCollectionItem::Request { name, method, path } => {
                            assert_eq!(name, "deep");
                            assert_eq!(*method, Some(ApiMethods::DELETE));
                            assert_eq!(path, "alpha/inner/deep");
                        }
                        _ => panic!("expected request"),
                    }
                }
                _ => panic!("expected folder"),
            }
        }
        _ => panic!("expected folder"),
    }
    match &items[1] {
        ApiCollectionItem::Request { name, method, path } => {
            assert_eq!(name, "top");
            assert_eq!(*method, Some(ApiMethods::POST));
            assert_eq!(path, "top");
        }
        _ => panic!("expected request"),
    }
    match &items[2] {
        ApiCollectionItem::Folder { name, children, .. } => {
            assert_eq!(name, "zeta");
            let names: Vec<&str> = children
                .iter()
                .map(|c| match c {
                    ApiCollectionItem::Request { name, .. } => name.as_str(),
                    ApiCollectionItem::Folder { name, .. } => name.as_str(),
                })
                .collect();
            assert_eq!(names, vec!["a", "b"]);
        }
        _ => panic!("expected folder"),
    }
}

#[test]
fn sorts_by_entry_name_like_os_strings() {
    let nodes = vec![file("b.toml", None), file("B.toml", None), file("a.toml", None), file("ä.toml", None), file("a-b.toml", None)];
    let items = list_collections(&nodes);
    let names: Vec<String> = items
        .iter()
        .map(|c| match c {
            ApiCollectionItem::Request { name, .. } => name.clone(),
            ApiCollectionItem::Folder { name, .. } => name.clone(),
        })
        .collect();
    let mut expected = vec!["b.toml", "B.toml", "a.toml", "ä.toml", "a-b.toml"];
    expected.sort();
    let expected: Vec<String> = expected.iter().map(|n| n.trim_end_matches(".toml").to_string()).collect();
    assert_eq!(names, expected);
}

#[test]
fn single_item_under_parents() {
    let item = build_collection_item(&file("x.toml", None), &vec!["a".to_string(), "b".to_string()]);
    match item {
        Some(ApiCollectionItem::Request { path, .. }) => assert_eq!(path, "a/b/x"),
        _ => panic!("expected request"),
    }
    assert!(build_collection_item(&dir("d", vec![]), &vec![]).is_none());
}

#[test]
fn listed_path_of_a_resolved_request_is_the_request_path() {
    for request in ["  users/admin/list ", "a/b", "x/y.z/w"] {
        let p = resolve_request_file_path("/p", request).unwrap();
        let rel = p.strip_prefix("/p/.rivet/collections/").unwrap();
        let parts: Vec<&str> = rel.split('/').collect();
        let mut node = file(parts[parts.len() - 1], Some(ApiMethods::GET));
        for name in parts[..parts.len() - 1].iter().rev() {
            node = dir(name, vec![node]);
        }
        let mut items = list_collections(&vec![node]);
        let path = loop {
            match items.remove(0) {
                ApiCollectionItem::Folder { children, .. } => items = children,
                ApiCollectionItem::Request { path, .. } => break path,
            }
        };
        assert_eq!(path, request.trim());
    }
}
