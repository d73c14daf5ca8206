//! The collections of saved requests: the tree that listing a collections folder gives.
use vstd::prelude::*;

use crate::request_path::ends_with;
use crate::text::{chars_of, push_all, string_of};
use crate::types::ApiMethods;

verus! {

/// What was found under a collections folder: its entries with their file
/// names, the children of each folder, and for each request file (see
/// [`request_file_stem`]) the method that its TOML names, if it names one.
pub enum FsNode {
    Directory { name: String, children: Vec<FsNode> },
    File { name: String, method: Option<ApiMethods> },
    Other { name: String },
}

/// A folder of requests, or a saved request.
pub enum ApiCollectionItem {
    Folder { name: String, children: Vec<ApiCollectionItem>, is_expanded: bool },
    Request { name: String, method: Option<ApiMethods>, path: String },
}

/// The text of a folder or request.
pub enum ItemView {
    Folder { name: Seq<char>, children: Seq<ItemView>, is_expanded: bool },
    Request { name: Seq<char>, method: Option<ApiMethods>, path: Seq<char> },
}

/// The text of an item and of everything under it.
pub open spec fn item_view(item: ApiCollectionItem) -> ItemView
    decreases item,
{
    match item {
        ApiCollectionItem::Folder { name, children, is_expanded } => ItemView::Folder {
            name: name@,
            children: items_view(children@),
            is_expanded,
        },
        ApiCollectionItem::Request { name, method, path } => ItemView::Request {
            name: name@,
            method,
            path: path@,
        },
    }
}

/// The text of a sequence of items.
pub open spec fn items_view(items: Seq<ApiCollectionItem>) -> Seq<ItemView>
    decreases items,
{
    if items.len() == 0 {
        Seq::empty()
    } else {
        items_view(items.drop_last()).push(item_view(items.last()))
    }
}

impl View for ApiCollectionItem {
    type V = ItemView;

    open spec fn view(&self) -> ItemView {
        item_view(*self)
    }
}

/// The views of the items are the items' views, one by one.
pub proof fn lemma_items_view(items: Seq<ApiCollectionItem>)
    ensures
        items_view(items).len() == items.len(),
        forall|k: int| 0 <= k < items.len() ==> #[trigger] items_view(items)[k] == item_view(items[k]),
    decreases items.len(),
{
    if items.len() > 0 {
        lemma_items_view(items.drop_last());
    }
}

/// The text of a sequence of strings.
pub open spec fn strings_view(v: Seq<String>) -> Seq<Seq<char>> {
    v.map_values(|s: String| s@)
}

/// The file name of an entry.
pub open spec fn entry_name(node: FsNode) -> Seq<char> {
    match node {
        FsNode::Directory { name, .. } => name@,
        FsNode::File { name, .. } => name@,
        FsNode::Other { name } => name@,
    }
}

/// The request name of a file named `name`: its stem when its extension is
/// `toml` (`Path::extension` gives none for a name whose only dot leads it).
pub open spec fn request_stem(name: Seq<char>) -> Option<Seq<char>> {
    if name.len() > 5 && ends_with(name, ".toml"@) {
        Some(name.subrange(0, name.len() - 5))
    } else {
        None
    }
}

/// `parts` joined with `/` between them.
pub open spec fn join_with_slash(parts: Seq<Seq<char>>) -> Seq<char>
    decreases parts.len(),
{
    if parts.len() == 0 {
        Seq::empty()
    } else if parts.len() == 1 {
        parts[0]
    } else {
        join_with_slash(parts.drop_last()).push('/') + parts.last()
    }
}

/// `a` comes before `b` when they are ordered character by character, a
/// prefix first: the order of file names that listing sorts by.
pub open spec fn name_less(a: Seq<char>, b: Seq<char>) -> bool
    decreases a.len(),
{
    if b.len() == 0 {
        false
    } else if a.len() == 0 {
        true
    } else if (a[0] as u32) < (b[0] as u32) {
        true
    } else if a[0] == b[0] {
        name_less(a.drop_first(), b.drop_first())
    } else {
        false
    }
}

/// The item that `node` gives under the folders `parents`: a request for a
/// request file, a folder for a folder that holds at least one item, and
/// nothing for anything else.
pub open spec fn build_item(node: FsNode, parents: Seq<Seq<char>>) -> Option<ItemView>
    decreases node,
{
    match node {
        FsNode::File { name, method } => match request_stem(name@) {
            Some(stem) => Some(
                ItemView::Request { name: stem, method, path: join_with_slash(parents.push(stem)) },
            ),
            None => None,
        },
        FsNode::Other { .. } => None,
        FsNode::Directory { name, children } => {
            let kids = untag(sort_entries(build_entries(children@, parents.push(name@))));
            if kids.len() == 0 {
                None
            } else {
                Some(ItemView::Folder { name: name@, children: kids, is_expanded: false })
            }
        },
    }
}

/// The items that `nodes` give, in their order, each with its entry's file name.
pub open spec fn build_entries(nodes: Seq<FsNode>, parents: Seq<Seq<char>>) -> Seq<
    (Seq<char>, ItemView),
>
    decreases nodes,
{
    if nodes.len() == 0 {
        Seq::empty()
    } else {
        let before = build_entries(nodes.drop_last(), parents);
        match build_item(nodes.last(), parents) {
            Some(item) => before.push((entry_name(nodes.last()), item)),
            None => before,
        }
    }
}

/// Where `name` goes in `sorted`: after every entry whose name does not come after it.
pub open spec fn insert_pos(sorted: Seq<(Seq<char>, ItemView)>, name: Seq<char>) -> int
    decreases sorted.len(),
{
    if sorted.len() == 0 {
        0
    } else if name_less(name, sorted[0].0) {
        0
    } else {
        1 + insert_pos(sorted.drop_first(), name)
    }
}

/// `entries` sorted by name, entries with equal names keeping their order.
pub open spec fn sort_entries(entries: Seq<(Seq<char>, ItemView)>) -> Seq<(Seq<char>, ItemView)>
    decreases entries.len(),
{
    if entries.len() == 0 {
        entries
    } else {
        let sorted = sort_entries(entries.drop_last());
        sorted.insert(insert_pos(sorted, entries.last().0), entries.last())
    }
}

/// The items of named entries.
pub open spec fn untag(entries: Seq<(Seq<char>, ItemView)>) -> Seq<ItemView> {
    entries.map_values(|e: (Seq<char>, ItemView)| e.1)
}

/// The text of an optional item.
pub open spec fn option_item_view(item: Option<ApiCollectionItem>) -> Option<ItemView> {
    match item {
        Some(i) => Some(item_view(i)),
        None => None,
    }
}

/// The collections that a collections folder with the entries `nodes` holds.
pub open spec fn spec_list_collections(nodes: Seq<FsNode>) -> Seq<ItemView> {
    untag(sort_entries(build_entries(nodes, Seq::empty())))
}

/// The request name of a file named `name`: `Some(stem)` for `stem.toml`
/// with a non-empty stem, otherwise `None`.
pub fn request_file_stem(name: &str) -> (r: Option<String>)
    ensures
        match r {
            Some(s) => request_stem(name@) == Some(s@),
            None => request_stem(name@) is None,
        },
{
    let v = chars_of(name);
    let ext = chars_of(".toml");
    assert(ext@.len() == 5) by {
        reveal_strlit(".toml");
    }
    if v.len() <= 5 {
        return None;
    }
    let n = v.len();
    let mut k: usize = 0;
    while k < 5
        invariant
            n == v.len(),
            v@ == name@,
            n > 5,
            ext@ == ".toml"@,
            ext@.len() == 5,
            k <= 5,
            forall|j: int| 0 <= j < k ==> v@[n - 5 + j] == ext@[j],
        decreases 5 - k,
    {
        if v[n - 5 + k] != ext[k] {
            assert(v@.subrange(n - 5, n as int)[k as int] != ext@[k as int]);
            return None;
        }
        k = k + 1;
    }
    assert(ext@.len() == 5) by {
        reveal_strlit(".toml");
    }
    assert(v@.subrange(n - 5, n as int) =~= ".toml"@);
    let mut stem: Vec<char> = Vec::new();
    let mut i: usize = 0;
    while i < n - 5
        invariant
            n == v.len(),
            n > 5,
            i <= n - 5,
            stem@ == v@.subrange(0, i as int),
        decreases n - 5 - i,
    {
        assert(v@.subrange(0, i + 1) == v@.subrange(0, i as int).push(v@[i as int]));
        stem.push(v[i]);
        i = i + 1;
    }
    Some(string_of(&stem))
}

/// Whether `a` comes before `b` in the order of file names.
pub fn name_less_exec(a: &Vec<char>, b: &Vec<char>) -> (r: bool)
    ensures
        r == name_less(a@, b@),
{
    let mut k: usize = 0;
    assert(a@.skip(0) == a@);
    assert(b@.skip(0) == b@);
    while k < a.len() && k < b.len() && a[k] == b[k]
        invariant
            k <= a.len(),
            k <= b.len(),
            name_less(a@, b@) == name_less(a@.skip(k as int), b@.skip(k as int)),
        decreases a.len() - k,
    {
        assert(a@.skip(k as int).drop_first() == a@.skip(k + 1));
        assert(b@.skip(k as int).drop_first() == b@.skip(k + 1));
        k = k + 1;
    }
    if k == b.len() {
        false
    } else if k == a.len() {
        true
    } else {
        (a[k] as u32) < (b[k] as u32)
    }
}

/// The request path (`folder/sub/name`) of a request named `stem` under the folders `parents`.
pub fn request_path_from_file(parents: &Vec<String>, stem: &str) -> (r: String)
    ensures
        r@ == join_with_slash(strings_view(parents@).push(stem@)),
{
    let ghost parts = strings_view(parents@).push(stem@);
    let mut out: Vec<char> = Vec::new();
    let mut i: usize = 0;
    while i < parents.len()
        invariant
            i <= parents.len(),
            parts == strings_view(parents@).push(stem@),
            out@ == join_with_slash(parts.take(i as int)),
        decreases parents.len() - i,
    {
        assert(parts.take(i + 1).drop_last() == parts.take(i as int));
        if i > 0 {
            out.push('/');
        }
        push_all(&mut out, &chars_of(parents[i].as_str()));
        i = i + 1;
    }
    assert(parts.take(i + 1).drop_last() == parts.take(i as int));
    if i > 0 {
        out.push('/');
    }
    push_all(&mut out, &chars_of(stem));
    assert(parts.take(i + 1) == parts);
    string_of(&out)
}

/// Names and items side by side, as named entries.
pub open spec fn tagged_view(keys: Seq<Vec<char>>, items: Seq<ApiCollectionItem>) -> Seq<
    (Seq<char>, ItemView),
> {
    Seq::new(keys.len(), |k: int| (keys[k]@, item_view(items[k])))
}

/// The items that `nodes` give under the folders `parents`, sorted by their entries' names.
fn collect_items(nodes: &Vec<FsNode>, parents: &Vec<String>) -> (r: Vec<ApiCollectionItem>)
    ensures
        items_view(r@) == untag(sort_entries(build_entries(nodes@, strings_view(parents@)))),
    decreases nodes@,
{
    let ghost ps = strings_view(parents@);
    let mut keys: Vec<Vec<char>> = Vec::new();
    let mut items: Vec<ApiCollectionItem> = Vec::new();
    let mut i: usize = 0;
    while i < nodes.len()
        invariant
            i <= nodes.len(),
            ps == strings_view(parents@),
            keys.len() == items.len(),
            tagged_view(keys@, items@) == sort_entries(build_entries(nodes@.take(i as int), ps)),
        decreases nodes.len() - i,
    {
        assert(nodes@.take(i + 1).drop_last() == nodes@.take(i as int));
        assert(nodes@.take(i + 1).last() == nodes@[i as int]);
        proof {
            assert(decreases_to!(nodes@ => nodes@[i as int]));
        }
        let built = build_collection_item(&nodes[i], parents);
        let ghost prev = build_entries(nodes@.take(i as int), ps);
        assert(build_entries(nodes@.take(i + 1), ps) == match build_item(nodes@[i as int], ps) {
            Some(it) => prev.push((entry_name(nodes@[i as int]), it)),
            None => prev,
        });
        match built {
            None => {},
            Some(item) => {
                let key = match &nodes[i] {
                    FsNode::Directory { name, .. } => chars_of(name.as_str()),
                    FsNode::File { name, .. } => chars_of(name.as_str()),
                    FsNode::Other { name } => chars_of(name.as_str()),
                };
                let ghost sorted = tagged_view(keys@, items@);
                let mut j: usize = 0;
                assert(sorted.skip(0) == sorted);
                while j < keys.len() && !name_less_exec(&key, &keys[j])
                    invariant
                        j <= keys.len(),
                        keys.len() == items.len(),
                        sorted == tagged_view(keys@, items@),
                        insert_pos(sorted, key@) == j + insert_pos(sorted.skip(j as int), key@),
                    decreases keys.len() - j,
                {
                    assert(sorted.skip(j as int).drop_first() == sorted.skip(j + 1));
                    j = j + 1;
                }
                assert(insert_pos(sorted, key@) == j);
                let ghost iv = item_view(item);
                keys.insert(j, key);
                items.insert(j, item);
                assert(tagged_view(keys@, items@) =~= sorted.insert(
                    j as int,
                    (entry_name(nodes@[i as int]), iv),
                ));
                assert(prev.push((entry_name(nodes@[i as int]), iv)).drop_last() == prev);
            },
        }
        i = i + 1;
    }
    assert(nodes@.take(i as int) == nodes@);
    proof {
        lemma_items_view(items@);
        assert(items_view(items@) =~= untag(tagged_view(keys@, items@)));
    }
    items
}

/// The item that `node` gives under the folders `parents`: a request named
/// by the stem of a request file, whose path is `parents` and the stem joined
/// with `/`; a folder (collapsed) for a folder that holds at least one item,
/// its children sorted by their entries' names; nothing for anything else.
pub fn build_collection_item(node: &FsNode, parents: &Vec<String>) -> (r: Option<ApiCollectionItem>)
    ensures
        option_item_view(r) == build_item(*node, strings_view(parents@)),
    decreases *node,
{
    match node {
        FsNode::File { name, method } => match request_file_stem(name.as_str()) {
            Some(stem) => {
                let path = request_path_from_file(parents, stem.as_str());
                Some(ApiCollectionItem::Request { name: stem, method: *method, path })
            },
            None => None,
        },
        FsNode::Other { .. } => None,
        FsNode::Directory { name, children } => {
            let mut child_parents: Vec<String> = Vec::new();
            let mut k: usize = 0;
            while k < parents.len()
                invariant
                    k <= parents.len(),
                    strings_view(child_parents@) == strings_view(parents@).take(k as int),
                decreases parents.len() - k,
            {
                let ghost before = child_parents@;
                let p = parents[k].clone();
                assert(p@ == parents@[k as int]@);
                child_parents.push(p);
                assert(child_parents@ == before.push(p));
                assert(strings_view(child_parents@) =~= strings_view(before).push(p@));
                assert(strings_view(parents@).take(k + 1) =~= strings_view(parents@).take(
                    k as int,
                ).push(strings_view(parents@)[k as int]));
                assert(strings_view(child_parents@) =~= strings_view(parents@).take(k + 1));
                k = k + 1;
            }
            let ghost before = child_parents@;
            let nm = name.clone();
            child_parents.push(nm);
            assert(child_parents@ == before.push(nm));
            assert(strings_view(parents@).take(parents.len() as int) == strings_view(parents@));
            assert(strings_view(child_parents@) =~= strings_view(parents@).push(name@));
            proof {
                assert(decreases_to!(*node => children@));
            }
            let kids = collect_items(children, &child_parents);
            proof {
                lemma_items_view(kids@);
            }
            if kids.len() == 0 {
                None
            } else {
                Some(ApiCollectionItem::Folder { name: name.clone(), children: kids, is_expanded: false })
            }
        },
    }
}

/// The collections of a collections folder whose entries are `nodes`: the
/// items that its entries give, sorted by file name.
pub fn list_collections(nodes: &Vec<FsNode>) -> (r: Vec<ApiCollectionItem>)
    ensures
        items_view(r@) == spec_list_collections(nodes@),
{
    let parents: Vec<String> = Vec::new();
    assert(strings_view(parents@) =~= Seq::<Seq<char>>::empty());
    collect_items(nodes, &parents)
}

} // verus!
