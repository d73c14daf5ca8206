use rivet::collections::{list_collections, ApiCollectionItem, FsNode};
use rivet::listing::{build_collection_tree, collection_item_to_tree, collection_names_tree, collections_tree, request_tree_label};
use rivet::types::ApiMethods;

fn file(name: &str, method: Option<ApiMethods>) -> FsNode {
    FsNode::File { name: name.to_string(), method }
}

#[test]
fn labels_requests_with_method_name_and_path() {
    assert_eq!(request_tree_label(Some(ApiMethods::GET), "list", "users/list"), "GET list (users/list)");
    assert_eq!(request_tree_label(None, "x", "x"), "Unknown x (x)");
    assert_eq!(
        request_tree_label(Some(ApiMethods::OPTIONS), "o", "p"),
        format!("{:?} o (p)", ApiMethods::OPTIONS)
    );
}

#[test]
fn builds_the_listing_tree() {
    let nodes = vec![
        FsNode::Directory {
            name: "users".to_string(),
            children: vec![file("list.toml", Some(ApiMethods::GET)), file("add.toml", None)],
        },
        file("ping.toml", Some(ApiMethods::HEAD)),
    ];
    let items = list_collections(&nodes);
    let tree = collections_tree(&items);
    assert_eq!(tree.root, "Your Collections");
    assert_eq!(tree.leaves.len(), 2);
    assert_eq!(tree.leaves[0].root, "HEAD ping (ping)");
    assert_eq!(tree.leaves[1].root, "users");
    assert_eq!(tree.leaves[1].leaves[0].root, "Unknown add (users/add)");
    assert_eq!(tree.leaves[1].leaves[1].root, "GET list (users/list)");
    let printed = format!("{}", tree);
    assert!(printed.starts_with("Your Collections\n"));
    assert!(printed.contains("GET list (users/list)"));
}

#[test]
fn single_item_tree() {
    let item = ApiCollectionItem::Request { name: "a".to_string(), method: Some(ApiMethods::PUT), path: "c/a".to_string() };
    let tree = collection_item_to_tree(&item);
    assert_eq!(tree.root, "PUT a (c/a)");
    assert!(tree.leaves.is_empty());
}

#[test]
fn builds_the_name_tree() {
    let nodes = vec![
        FsNode::Directory { name: "users".to_string(), children: vec![file("list.toml", None)] },
        FsNode::Directory { name: "empty".to_string(), children: vec![] },
    ];
    let tree = collection_names_tree(&nodes);
    assert_eq!(tree.root, "Your Collection");
    assert_eq!(tree.leaves.len(), 1);
    assert_eq!(tree.leaves[0].root, "users");
    assert_eq!(tree.leaves[0].leaves[0].root, "list");
    assert!(build_collection_tree(&nodes[1]).is_none());
    assert_eq!(build_collection_tree(&nodes[0]).unwrap().leaves[0].root, "list");
}
