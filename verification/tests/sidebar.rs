use rivet::collections::ApiCollectionItem;
use rivet::sidebar::{collection_items, tree_prefix, RowLabel};
use rivet::types::ApiMethods;

fn req(name: &str) -> ApiCollectionItem {
    ApiCollectionItem::Request { name: name.to_string(), method: Some(ApiMethods::GET), path: name.to_string() }
}

fn folder(name: &str, expanded: bool, children: Vec<ApiCollectionItem>) -> ApiCollectionItem {
    ApiCollectionItem::Folder { name: name.to_string(), children, is_expanded: expanded }
}

fn paths(items: &Vec<ApiCollectionItem>) -> Vec<Vec<usize>> {
    collection_items(items, &vec![], &vec![]).into_iter().map(|r| r.path).collect()
}

#[test]
fn prefixes() {
    assert_eq!(tree_prefix(&[], true), "└─ ");
    assert_eq!(tree_prefix(&[], false), "├─ ");
    assert_eq!(tree_prefix(&[true, false], false), "   │  ├─ ");
    assert_eq!(tree_prefix(&[false, true], true), "│     └─ ");
}

#[test]
fn top_level_rows() {
    let items = vec![req("a"), req("b"), req("c")];
    assert_eq!(paths(&items), vec![vec![0], vec![1], vec![2]]);
    let rows = collection_items(&items, &vec![], &vec![]);
    assert_eq!(rows[0].prefix, "├─ ");
    assert_eq!(rows[2].prefix, "└─ ");
}

#[test]
fn expanded_nested_folders_keep_child_indices() {
    let items = vec![
        req("a"),
        req("b"),
        folder("c", true, vec![folder("d", true, vec![req("e"), req("f"), req("g"), req("h")]), req("i")]),
    ];
    assert_eq!(
        paths(&items),
        vec![
            vec![0],
            vec![1],
            vec![2],
            vec![2, 0],
            vec![2, 0, 0],
            vec![2, 0, 1],
            vec![2, 0, 2],
            vec![2, 0, 3],
            vec![2, 1],
        ]
    );
    let rows = collection_items(&items, &vec![], &vec![]);
    assert_eq!(rows[3].prefix, "   ├─ ");
    assert_eq!(rows[7].prefix, "   │  └─ ");
    assert_eq!(rows[8].prefix, "   └─ ");
    match &rows[7].label {
        RowLabel::Request { name, .. } => assert_eq!(name, "h"),
        _ => panic!("expected request row"),
    }
}

#[test]
fn collapsed_folder_hides_descendants() {
    let items = vec![folder("x", false, vec![req("y"), req("z")]), req("w")];
    assert_eq!(paths(&items), vec![vec![0], vec![1]]);
    let rows = collection_items(&items, &vec![], &vec![]);
    match &rows[0].label {
        RowLabel::Folder { name, is_expanded } => {
            assert_eq!(name, "x");
            assert!(!is_expanded);
        }
        _ => panic!("expected folder row"),
    }
}

#[test]
fn prefix_width_is_three_per_level() {
    for depth in 0..6usize {
        let ancestors: Vec<bool> = (0..depth).map(|i| i % 2 == 0).collect();
        for last in [true, false] {
            assert_eq!(tree_prefix(&ancestors, last).chars().count(), 3 * (depth + 1));
        }
    }
}
