//! The printed tree of collections: labels of requests and the shape of the tree.
use vstd::prelude::*;

use termtree::Tree;

use crate::collections::{
    build_collection_item, build_item, item_view, items_view, lemma_items_view, list_collections,
    spec_list_collections, ApiCollectionItem, FsNode, ItemView,
};
use crate::types::ApiMethods;

verus! {

/// `termtree::Tree`, carried through opaque; its lines are named by [`tree_lines`].
#[verifier::external_type_specification]
#[verifier::external_body]
#[verifier::reject_recursive_types(D)]
pub struct ExTree<D: std::fmt::Display>(Tree<D>);

/// The lines of a `termtree::Tree` of strings: its `root`, then the lines of
/// each of its `leaves` in order one level deeper (preorder), each line with
/// its depth below the root. `Display` prints these lines with tree glyphs;
/// nothing is stated of that rendering.
pub uninterp spec fn tree_lines(tree: Tree<String>) -> Seq<(nat, Seq<char>)>;

/// `termtree::Tree::new`: a tree that is only its root, with no leaves.
#[verifier::external_body]
fn tree_new(root: String) -> (t: Tree<String>)
    ensures
        tree_lines(t) == seq![(0nat, root@)],
{
    Tree::new(root)
}

/// `termtree::Tree::push`: adds `leaf` as the last leaf of `tree`, so its
/// lines come after the tree's, one level deeper.
#[verifier::external_body]
fn tree_push(tree: &mut Tree<String>, leaf: Tree<String>)
    ensures
        tree_lines(*final(tree)) == tree_lines(*old(tree)) + deeper(tree_lines(leaf)),
{
    tree.push(leaf);
}

/// `lines` one level deeper.
pub open spec fn deeper(lines: Seq<(nat, Seq<char>)>) -> Seq<(nat, Seq<char>)> {
    lines.map_values(|l: (nat, Seq<char>)| ((l.0 + 1) as nat, l.1))
}

/// The name that debug formatting gives a method, or `Unknown` for none.
pub open spec fn method_name(method: Option<ApiMethods>) -> Seq<char> {
    match method {
        Some(ApiMethods::GET) => "GET"@,
        Some(ApiMethods::POST) => "POST"@,
        Some(ApiMethods::PUT) => "PUT"@,
        Some(ApiMethods::PATCH) => "PATCH"@,
        Some(ApiMethods::DELETE) => "DELETE"@,
        Some(ApiMethods::HEAD) => "HEAD"@,
        Some(ApiMethods::OPTIONS) => "OPTIONS"@,
        None => "Unknown"@,
    }
}

/// The label of a request in the listing: `METHOD name (path)`.
pub open spec fn request_label(method: Option<ApiMethods>, name: Seq<char>, path: Seq<char>) -> Seq<
    char,
> {
    method_name(method) + " "@ + name + " ("@ + path + ")"@
}

/// The lines of an item's tree: its label (with `detailed`, a request's
/// method, name and path; without, only its name) and then its children's lines.
pub open spec fn item_tree_lines(item: ItemView, detailed: bool) -> Seq<(nat, Seq<char>)>
    decreases item,
{
    match item {
        ItemView::Folder { name, children, .. } => seq![(0nat, name)] + deeper(
            items_tree_lines(children, detailed),
        ),
        ItemView::Request { name, method, path } => if detailed {
            seq![(0nat, request_label(method, name, path))]
        } else {
            seq![(0nat, name)]
        },
    }
}

/// The lines of the trees of `items`, one after the other.
pub open spec fn items_tree_lines(items: Seq<ItemView>, detailed: bool) -> Seq<(nat, Seq<char>)>
    decreases items,
{
    if items.len() == 0 {
        Seq::empty()
    } else {
        items_tree_lines(items.drop_last(), detailed) + item_tree_lines(items.last(), detailed)
    }
}

proof fn lemma_deeper_concat(a: Seq<(nat, Seq<char>)>, b: Seq<(nat, Seq<char>)>)
    ensures
        deeper(a + b) == deeper(a) + deeper(b),
{
    assert(deeper(a + b) =~= deeper(a) + deeper(b));
}

/// The name that debug formatting gives a method, or `Unknown` for none.
pub fn method_display_name(method: Option<ApiMethods>) -> (r: String)
    ensures
        r@ == method_name(method),
{
    match method {
        Some(ApiMethods::GET) => String::from_str("GET"),
        Some(ApiMethods::POST) => String::from_str("POST"),
        Some(ApiMethods::PUT) => String::from_str("PUT"),
        Some(ApiMethods::PATCH) => String::from_str("PATCH"),
        Some(ApiMethods::DELETE) => String::from_str("DELETE"),
        Some(ApiMethods::HEAD) => String::from_str("HEAD"),
        Some(ApiMethods::OPTIONS) => String::from_str("OPTIONS"),
        None => String::from_str("Unknown"),
    }
}

/// The label of a request in the listing: `METHOD name (path)`.
pub fn request_tree_label(method: Option<ApiMethods>, name: &str, path: &str) -> (r: String)
    ensures
        r@ == request_label(method, name@, path@),
{
    let mut s = method_display_name(method);
    s.append(" ");
    s.append(name);
    s.append(" (");
    s.append(path);
    s.append(")");
    s
}

fn item_tree(item: &ApiCollectionItem, detailed: bool) -> (t: Tree<String>)
    ensures
        tree_lines(t) == item_tree_lines(item_view(*item), detailed),
    decreases *item,
{
    match item {
        ApiCollectionItem::Folder { name, children, .. } => {
            let mut tree = tree_new(name.clone());
            let mut i: usize = 0;
            proof {
                lemma_items_view(children@);
            }
            while i < children.len()
                invariant
                    i <= children.len(),
                    *item matches ApiCollectionItem::Folder { children: ch, .. } && ch == *children,
                    items_view(children@).len() == children.len(),
                    forall|k: int|
                        0 <= k < children.len() ==> #[trigger] items_view(children@)[k]
                            == item_view(children@[k]),
                    tree_lines(tree) == seq![(0nat, name@)] + deeper(
                        items_tree_lines(items_view(children@).take(i as int), detailed),
                    ),
                decreases children.len() - i,
            {
                proof {
                    assert(decreases_to!(*item => children@[i as int]));
                }
                let leaf = item_tree(&children[i], detailed);
                let ghost before = items_view(children@).take(i as int);
                let ghost after = items_view(children@).take(i + 1);
                assert(after.drop_last() == before);
                assert(after.last() == item_view(children@[i as int]));
                proof {
                    lemma_deeper_concat(
                        items_tree_lines(before, detailed),
                        item_tree_lines(item_view(children@[i as int]), detailed),
                    );
                }
                tree_push(&mut tree, leaf);
                i = i + 1;
            }
            assert(items_view(children@).take(i as int) == items_view(children@));
            tree
        },
        ApiCollectionItem::Request { name, method, path } => {
            if detailed {
                tree_new(request_tree_label(*method, name.as_str(), path.as_str()))
            } else {
                tree_new(name.clone())
            }
        },
    }
}

/// The tree of an item as the listing prints it: a folder's name over its
/// children, and a request as `METHOD name (path)`.
pub fn collection_item_to_tree(item: &ApiCollectionItem) -> (t: Tree<String>)
    ensures
        tree_lines(t) == item_tree_lines(item_view(*item), true),
{
    item_tree(item, true)
}

/// A tree whose root is `root` and whose leaves are the trees of `items`.
fn rooted_tree(root: String, items: &Vec<ApiCollectionItem>, detailed: bool) -> (t: Tree<String>)
    ensures
        tree_lines(t) == seq![(0nat, root@)] + deeper(
            items_tree_lines(items_view(items@), detailed),
        ),
{
    let ghost r = root@;
    let mut tree = tree_new(root);
    proof {
        lemma_items_view(items@);
    }
    let mut i: usize = 0;
    while i < items.len()
        invariant
            i <= items.len(),
            items_view(items@).len() == items.len(),
            forall|k: int|
                0 <= k < items.len() ==> #[trigger] items_view(items@)[k] == item_view(items@[k]),
            tree_lines(tree) == seq![(0nat, r)] + deeper(
                items_tree_lines(items_view(items@).take(i as int), detailed),
            ),
        decreases items.len() - i,
    {
        let leaf = item_tree(&items[i], detailed);
        let ghost before = items_view(items@).take(i as int);
        let ghost after = items_view(items@).take(i + 1);
        assert(after.drop_last() == before);
        proof {
            lemma_deeper_concat(
                items_tree_lines(before, detailed),
                item_tree_lines(item_view(items@[i as int]), detailed),
            );
        }
        tree_push(&mut tree, leaf);
        i = i + 1;
    }
    assert(items_view(items@).take(i as int) == items_view(items@));
    tree
}

/// The listing of all collections: `Your Collections` over the tree of each.
pub fn collections_tree(collections: &Vec<ApiCollectionItem>) -> (t: Tree<String>)
    ensures
        tree_lines(t) == seq![(0nat, "Your Collections"@)] + deeper(
            items_tree_lines(items_view(collections@), true),
        ),
{
    rooted_tree(String::from_str("Your Collections"), collections, true)
}

/// The tree of names that an entry gives: a request file's stem, or a
/// folder's name over its children, when the entry gives an item at all.
pub fn build_collection_tree(node: &FsNode) -> (t: Option<Tree<String>>)
    ensures
        match t {
            Some(tree) => build_item(*node, Seq::empty()) matches Some(iv) && tree_lines(tree)
                == item_tree_lines(iv, false),
            None => build_item(*node, Seq::empty()) is None,
        },
{
    let parents: Vec<String> = Vec::new();
    assert(crate::collections::strings_view(parents@) =~= Seq::<Seq<char>>::empty());
    match build_collection_item(node, &parents) {
        Some(item) => Some(item_tree(&item, false)),
        None => None,
    }
}

/// The tree of names of a collections folder whose entries are `nodes`:
/// `Your Collection` over the name tree of each item it holds.
pub fn collection_names_tree(nodes: &Vec<FsNode>) -> (t: Tree<String>)
    ensures
        tree_lines(t) == seq![(0nat, "Your Collection"@)] + deeper(
            items_tree_lines(spec_list_collections(nodes@), false),
        ),
{
    let items = list_collections(nodes);
    rooted_tree(String::from_str("Your Collection"), &items, false)
}

} // verus!
