//! The sidebar of the terminal interface: the visible rows of the collection
//! tree, each with its tree-drawing prefix and the path of indices that leads
//! from the top-level collections to the item it shows.
use vstd::prelude::*;

use crate::collections::{item_view, items_view, lemma_items_view, ApiCollectionItem, ItemView};
use crate::types::ApiMethods;

verus! {

/// The part of the tree drawing that one ancestor contributes.
pub open spec fn ancestor_segment(ancestor_is_last: bool) -> Seq<char> {
    if ancestor_is_last {
        "   "@
    } else {
        "│  "@
    }
}

/// The tree drawing in front of an item: one segment per ancestor (blank
/// under a last child, a bar otherwise), then the item's own branch.
pub open spec fn spec_tree_prefix(ancestors: Seq<bool>, is_last: bool) -> Seq<char>
    decreases ancestors.len(),
{
    if ancestors.len() == 0 {
        if is_last {
            "└─ "@
        } else {
            "├─ "@
        }
    } else {
        ancestor_segment(ancestors[0]) + spec_tree_prefix(ancestors.drop_first(), is_last)
    }
}

/// The tree drawing in front of an item whose ancestors are `ancestors`
/// (`true` for an ancestor that is the last child of its parent) and which is
/// itself the last child when `is_last`.
pub fn tree_prefix(ancestors: &[bool], is_last: bool) -> (r: String)
    ensures
        r@ == spec_tree_prefix(ancestors@, is_last),
{
    let mut prefix = String::new();
    let mut i: usize = 0;
    assert(ancestors@.skip(0) == ancestors@);
    assert(prefix@ + spec_tree_prefix(ancestors@, is_last) == spec_tree_prefix(ancestors@, is_last));
    while i < ancestors.len()
        invariant
            i <= ancestors@.len(),
            spec_tree_prefix(ancestors@, is_last) == prefix@ + spec_tree_prefix(
                ancestors@.skip(i as int),
                is_last,
            ),
        decreases ancestors@.len() - i,
    {
        let ghost before = prefix@;
        assert(ancestors@.skip(i as int).drop_first() == ancestors@.skip(i + 1));
        if ancestors[i] {
            prefix.append("   ");
        } else {
            prefix.append("│  ");
        }
        assert(before + (ancestor_segment(ancestors@[i as int]) + spec_tree_prefix(
            ancestors@.skip(i + 1),
            is_last,
        )) == prefix@ + spec_tree_prefix(ancestors@.skip(i + 1), is_last));
        i = i + 1;
    }
    let ghost before = prefix@;
    if is_last {
        prefix.append("└─ ");
    } else {
        prefix.append("├─ ");
    }
    assert(before + Seq::<char>::empty() == before);
    prefix
}

/// What a sidebar row shows.
pub enum RowLabel {
    Folder { name: String, is_expanded: bool },
    Request { method: Option<ApiMethods>, name: String, path: String },
}

/// The text of what a sidebar row shows.
pub enum RowLabelView {
    Folder { name: Seq<char>, is_expanded: bool },
    Request { method: Option<ApiMethods>, name: Seq<char>, path: Seq<char> },
}

/// A visible sidebar row: its tree drawing, what it shows, and the indices
/// that lead to its item: `[2, 0, 3]` is the fourth child of the first child
/// of the third top-level collection.
pub struct SidebarRow {
    pub prefix: String,
    pub label: RowLabel,
    pub path: Vec<usize>,
}

/// The text of a sidebar row, with its path as integers.
pub struct RowView {
    pub prefix: Seq<char>,
    pub label: RowLabelView,
    pub path: Seq<int>,
}

/// A path of indices as integers.
pub open spec fn int_path(path: Seq<usize>) -> Seq<int> {
    path.map_values(|i: usize| i as int)
}

impl View for RowLabel {
    type V = RowLabelView;

    open spec fn view(&self) -> RowLabelView {
        match self {
            RowLabel::Folder { name, is_expanded } => RowLabelView::Folder {
                name: name@,
                is_expanded: *is_expanded,
            },
            RowLabel::Request { method, name, path } => RowLabelView::Request {
                method: *method,
                name: name@,
                path: path@,
            },
        }
    }
}

impl View for SidebarRow {
    type V = RowView;

    open spec fn view(&self) -> RowView {
        RowView { prefix: self.prefix@, label: self.label@, path: int_path(self.path@) }
    }
}

/// The text of a sequence of rows.
pub open spec fn rows_view(rows: Seq<SidebarRow>) -> Seq<RowView> {
    rows.map_values(|r: SidebarRow| r@)
}

/// What the row of an item shows.
pub open spec fn label_of(item: ItemView) -> RowLabelView {
    match item {
        ItemView::Folder { name, is_expanded, .. } => RowLabelView::Folder { name, is_expanded },
        ItemView::Request { name, method, path } => RowLabelView::Request { method, name, path },
    }
}

/// The rows of the first `n` of `items`, which sit under the ancestors
/// `ancestors` at the path `parent`.
pub open spec fn rows_upto(items: Seq<ItemView>, n: int, ancestors: Seq<bool>, parent: Seq<int>) -> Seq<
    RowView,
>
    decreases items, 2 * n,
{
    if n <= 0 || n > items.len() {
        Seq::empty()
    } else {
        rows_upto(items, n - 1, ancestors, parent) + item_rows(items, n - 1, ancestors, parent)
    }
}

/// The rows of `items[k]`: its own row and, when it is an expanded folder,
/// the rows of its children; a collapsed folder's descendants get none.
pub open spec fn item_rows(items: Seq<ItemView>, k: int, ancestors: Seq<bool>, parent: Seq<int>) -> Seq<
    RowView,
>
    decreases items, 2 * k + 1,
{
    if k < 0 || k >= items.len() {
        Seq::empty()
    } else {
        let item = items[k];
        let is_last = k == items.len() - 1;
        let path = parent.push(k);
        let row = RowView {
            prefix: spec_tree_prefix(ancestors, is_last),
            label: label_of(item),
            path,
        };
        match item {
            ItemView::Folder { children, is_expanded, .. } => if is_expanded {
                seq![row] + rows_upto(children, children.len() as int, ancestors.push(is_last), path)
            } else {
                seq![row]
            },
            ItemView::Request { .. } => seq![row],
        }
    }
}

/// The visible rows of `items`, top to bottom.
pub open spec fn visible_rows(items: Seq<ItemView>) -> Seq<RowView> {
    rows_upto(items, items.len() as int, Seq::empty(), Seq::empty())
}

/// The item that `path` leads to from `items`, if it leads to one.
pub open spec fn item_at(items: Seq<ItemView>, path: Seq<int>) -> Option<ItemView>
    decreases path.len(),
{
    if path.len() == 0 || path[0] < 0 || path[0] >= items.len() {
        None
    } else if path.len() == 1 {
        Some(items[path[0]])
    } else {
        match items[path[0]] {
            ItemView::Folder { children, .. } => item_at(children, path.drop_first()),
            ItemView::Request { .. } => None,
        }
    }
}

fn label_for(item: &ApiCollectionItem) -> (r: RowLabel)
    ensures
        r@ == label_of(item_view(*item)),
{
    match item {
        ApiCollectionItem::Folder { name, is_expanded, .. } => RowLabel::Folder {
            name: name.clone(),
            is_expanded: *is_expanded,
        },
        ApiCollectionItem::Request { name, method, path } => RowLabel::Request {
            method: *method,
            name: name.clone(),
            path: path.clone(),
        },
    }
}

fn push_rows(out: &mut Vec<SidebarRow>, rows: Vec<SidebarRow>)
    ensures
        rows_view(final(out)@) == rows_view(old(out)@) + rows_view(rows@),
{
    let mut rows = rows;
    let ghost all = rows_view(rows@);
    let ghost start = rows_view(out@);
    let mut taken: Vec<SidebarRow> = Vec::new();
    while rows.len() > 0
        invariant
            rows_view(taken@) + rows_view(rows@).reverse() == all.reverse(),
        decreases rows.len(),
    {
        let ghost before = rows@;
        let r = rows.pop().unwrap();
        assert(before == rows@.push(r));
        assert(rows_view(before) == rows_view(rows@).push(r@));
        assert(rows_view(before).reverse() =~= seq![r@] + rows_view(rows@).reverse());
        let ghost t = taken@;
        taken.push(r);
        assert(rows_view(taken@) =~= rows_view(t).push(r@));
    }
    assert(rows_view(rows@).reverse() =~= Seq::<RowView>::empty());
    assert(rows_view(taken@) =~= all.reverse());
    while taken.len() > 0
        invariant
            rows_view(out@) + rows_view(taken@).reverse() == start + all,
        decreases taken.len(),
    {
        let ghost before = taken@;
        let r = taken.pop().unwrap();
        assert(before == taken@.push(r));
        assert(rows_view(before) == rows_view(taken@).push(r@));
        assert(rows_view(before).reverse() =~= seq![r@] + rows_view(taken@).reverse());
        let ghost o = out@;
        out.push(r);
        assert(rows_view(out@) =~= rows_view(o).push(r@));
    }
    assert(rows_view(taken@).reverse() =~= Seq::<RowView>::empty());
}

/// The visible rows of `items` under the ancestors `ancestors` and at the path
/// `parent_path`: each item's row, and below each expanded folder's row the
/// rows of its children.
pub fn collection_items(items: &Vec<ApiCollectionItem>, ancestors: &Vec<bool>, parent_path: &Vec<usize>) -> (rows: Vec<SidebarRow>)
    ensures
        rows_view(rows@) == rows_upto(items_view(items@), items.len() as int, ancestors@, int_path(parent_path@)),
    decreases items@,
{
    proof {
        lemma_items_view(items@);
    }
    let ghost iv = items_view(items@);
    let mut rows: Vec<SidebarRow> = Vec::new();
    let mut index: usize = 0;
    while index < items.len()
        invariant
            index <= items.len(),
            iv == items_view(items@),
            iv.len() == items.len(),
            forall|k: int| 0 <= k < items.len() ==> #[trigger] iv[k] == item_view(items@[k]),
            rows_view(rows@) == rows_upto(iv, index as int, ancestors@, int_path(parent_path@)),
        decreases items.len() - index,
    {
        let is_last = index == items.len() - 1;
        let prefix = tree_prefix(ancestors.as_slice(), is_last);
        let mut path: Vec<usize> = parent_path.clone();
        path.push(index);
        let ghost row_path = int_path(path@);
        assert(row_path =~= int_path(parent_path@).push(index as int));
        let item = &items[index];
        let label = label_for(item);
        let ghost row = RowView { prefix: prefix@, label: label@, path: int_path(path@) };
        let ghost before = rows_view(rows@);
        assert(rows_upto(iv, index + 1, ancestors@, int_path(parent_path@)) == before + item_rows(
            iv,
            index as int,
            ancestors@,
            int_path(parent_path@),
        ));
        assert(iv[index as int] == item_view(items@[index as int]));
        match item {
            ApiCollectionItem::Folder { children, is_expanded, .. } => {
                let expanded = *is_expanded;
                rows.push(SidebarRow { prefix, label, path });
                assert(rows_view(rows@) =~= before.push(row));
                if expanded {
                    let mut child_ancestors: Vec<bool> = ancestors.clone();
                    child_ancestors.push(is_last);
                    proof {
                        assert(decreases_to!(items@ => items@[index as int]));
                        assert(decreases_to!(items@[index as int] => children@));
                        lemma_items_view(children@);
                    }
                    assert(int_path(rows@[rows.len() - 1].path@) == row_path);
                    let child_rows = collection_items(children, &child_ancestors, &rows[rows.len() - 1].path);
                    assert(item_rows(iv, index as int, ancestors@, int_path(parent_path@)) == seq![row] + rows_upto(
                        items_view(children@),
                        children.len() as int,
                        ancestors@.push(is_last),
                        row_path,
                    ));
                    let ghost mid = rows_view(rows@);
                    push_rows(&mut rows, child_rows);
                    assert(mid + rows_view(child_rows@) == before + (seq![row] + rows_view(child_rows@)));
                } else {
                    assert(before.push(row) == before + seq![row]);
                }
            },
            ApiCollectionItem::Request { .. } => {
                rows.push(SidebarRow { prefix, label, path });
                assert(rows_view(rows@) =~= before + seq![row]);
            },
        }
        index = index + 1;
    }
    rows
}

/// `q` leads from `items` to an item, passing only through expanded folders.
pub open spec fn visible_path(items: Seq<ItemView>, q: Seq<int>) -> bool {
    &&& item_at(items, q) is Some
    &&& forall|j: int|
        1 <= j < q.len() ==> (#[trigger] item_at(items, q.take(j))) matches Some(
            ItemView::Folder { is_expanded: true, .. },
        )
}

/// A row of the rows under `parent` is at `parent` extended by a path that
/// leads to the item it shows through expanded folders only.
pub open spec fn row_fits(items: Seq<ItemView>, parent: Seq<int>, row: RowView) -> bool {
    &&& row.path.len() > parent.len()
    &&& row.path.take(parent.len() as int) == parent
    &&& visible_path(items, row.path.skip(parent.len() as int))
    &&& item_at(items, row.path.skip(parent.len() as int)) matches Some(it) && label_of(it) == row.label
}

proof fn lemma_item_at_cons(items: Seq<ItemView>, k: int, q: Seq<int>)
    requires
        0 <= k < items.len(),
        q.len() > 0,
        items[k] is Folder,
    ensures
        item_at(items, seq![k] + q) == item_at(items[k]->Folder_children, q),
{
    assert((seq![k] + q).drop_first() == q);
}

proof fn lemma_rows_upto_fit(items: Seq<ItemView>, n: int, ancestors: Seq<bool>, parent: Seq<int>)
    ensures
        forall|r: int|
            0 <= r < rows_upto(items, n, ancestors, parent).len() ==> row_fits(
                items,
                parent,
                #[trigger] rows_upto(items, n, ancestors, parent)[r],
            ),
    decreases items, 2 * n,
{
    if n <= 0 || n > items.len() {
    } else {
        lemma_rows_upto_fit(items, n - 1, ancestors, parent);
        lemma_item_rows_fit(items, n - 1, ancestors, parent);
        let a = rows_upto(items, n - 1, ancestors, parent);
        let b = item_rows(items, n - 1, ancestors, parent);
        assert forall|r: int| 0 <= r < (a + b).len() implies row_fits(items, parent, #[trigger] (a + b)[r]) by {
            if r < a.len() {
                assert((a + b)[r] == a[r]);
            } else {
                assert((a + b)[r] == b[r - a.len()]);
            }
        }
    }
}

proof fn lemma_item_rows_fit(items: Seq<ItemView>, k: int, ancestors: Seq<bool>, parent: Seq<int>)
    ensures
        forall|r: int|
            0 <= r < item_rows(items, k, ancestors, parent).len() ==> row_fits(
                items,
                parent,
                #[trigger] item_rows(items, k, ancestors, parent)[r],
            ),
    decreases items, 2 * k + 1,
{
    if k < 0 || k >= items.len() {
    } else {
        let item = items[k];
        let is_last = k == items.len() - 1;
        let path = parent.push(k);
        assert(path.take(parent.len() as int) == parent);
        assert(path.skip(parent.len() as int) == seq![k]);
        match item {
            ItemView::Folder { children, is_expanded, .. } => {
                if is_expanded {
                    let sub = rows_upto(children, children.len() as int, ancestors.push(is_last), path);
                    lemma_rows_upto_fit(children, children.len() as int, ancestors.push(is_last), path);
                    let all = item_rows(items, k, ancestors, parent);
                    assert forall|r: int| 1 <= r < all.len() implies row_fits(items, parent, #[trigger] all[r]) by {
                        let row = all[r];
                        assert(row == sub[r - 1]);
                        assert(row_fits(children, path, row));
                        let q = row.path.skip(path.len() as int);
                        assert(row.path.take(parent.len() as int) == parent) by {
                            assert(row.path.take(parent.len() as int) == row.path.take(path.len() as int).take(parent.len() as int));
                        }
                        assert(row.path.skip(parent.len() as int) == seq![k] + q) by {
                            assert(row.path.take(path.len() as int) == path);
                            assert(row.path.skip(parent.len() as int) =~= seq![k] + q);
                        }
                        lemma_item_at_cons(items, k, q);
                        let full = seq![k] + q;
                        assert forall|j: int| 1 <= j < full.len() implies (#[trigger] item_at(items, full.take(j))) matches Some(ItemView::Folder { is_expanded: true, .. }) by {
                            if j == 1 {
                                assert(full.take(1) == seq![k]);
                            } else {
                                assert(full.take(j) == seq![k] + q.take(j - 1));
                                lemma_item_at_cons(items, k, q.take(j - 1));
                                assert(q.take(j - 1) == q.take(j - 1));
                            }
                        }
                    }
                }
            },
            ItemView::Request { .. } => {},
        }
    }
}

/// Every visible row of the sidebar shows the item that its path leads to,
/// and that path passes only through expanded folders: the rows of a
/// collapsed folder's descendants are left out.
pub proof fn law_visible_rows_lead_to_their_items(items: Seq<ItemView>)
    ensures
        forall|r: int|
            0 <= r < visible_rows(items).len() ==> {
                let row = #[trigger] visible_rows(items)[r];
                &&& visible_path(items, row.path)
                &&& item_at(items, row.path) matches Some(it) && label_of(it) == row.label
            },
{
    lemma_rows_upto_fit(items, items.len() as int, Seq::empty(), Seq::empty());
    assert forall|r: int| 0 <= r < visible_rows(items).len() implies {
        let row = #[trigger] visible_rows(items)[r];
        &&& visible_path(items, row.path)
        &&& item_at(items, row.path) matches Some(it) && label_of(it) == row.label
    } by {
        let row = visible_rows(items)[r];
        assert(row.path.skip(0) == row.path);
    }
}

/// Every row that `collection_items` builds shows its own item's fields: for
/// the rows of `items` under the ancestors `ancestors` at `parent`, a
/// request's row has that request's method, name and path, each in its
/// place, and a folder's row that folder's name and whether it is expanded.
pub proof fn law_rows_show_their_items_fields(items: Seq<ItemView>, ancestors: Seq<bool>, parent: Seq<int>)
    ensures
        forall|r: int|
            0 <= r < rows_upto(items, items.len() as int, ancestors, parent).len() ==> {
                let row = #[trigger] rows_upto(items, items.len() as int, ancestors, parent)[r];
                let here = row.path.skip(parent.len() as int);
                &&& row.path.take(parent.len() as int) == parent
                &&& (item_at(items, here) matches Some(ItemView::Request { name, method, path })
                    ==> row.label == (RowLabelView::Request { method, name, path }))
                &&& (item_at(items, here) matches Some(ItemView::Folder { name, is_expanded, .. })
                    ==> row.label == (RowLabelView::Folder { name, is_expanded }))
            },
{
    lemma_rows_upto_fit(items, items.len() as int, ancestors, parent);
}

/// No two of `rows` have the same path.
pub open spec fn paths_distinct(rows: Seq<RowView>) -> bool {
    forall|i: int, j: int| 0 <= i < j < rows.len() ==> #[trigger] rows[i].path != #[trigger] rows[j].path
}

/// Some row of `rows` has the path `path`.
pub open spec fn has_row_at(rows: Seq<RowView>, path: Seq<int>) -> bool {
    exists|r: int| 0 <= r < rows.len() && #[trigger] rows[r].path == path
}

/// Each row of `rows` lies under `parent`, below an index of `parent`'s
/// level that is at least `lo` and less than `hi`.
pub open spec fn rows_under(rows: Seq<RowView>, parent: Seq<int>, lo: int, hi: int) -> bool {
    forall|r: int|
        0 <= r < rows.len() ==> {
            let path = #[trigger] rows[r].path;
            &&& path.len() > parent.len()
            &&& path.take(parent.len() as int) == parent
            &&& lo <= path[parent.len() as int] < hi
        }
}

proof fn lemma_visible_path_tail(items: Seq<ItemView>, q: Seq<int>)
    requires
        visible_path(items, q),
        q.len() > 1,
    ensures
        0 <= q[0] < items.len(),
        items[q[0]] matches ItemView::Folder { is_expanded: true, .. },
        visible_path(items[q[0]]->Folder_children, q.drop_first()),
{
    let k = q[0];
    assert(q.take(1) == seq![k]);
    assert(item_at(items, q.take(1)) matches Some(ItemView::Folder { is_expanded: true, .. }));
    let children = items[k]->Folder_children;
    let tail = q.drop_first();
    assert(q == seq![k] + tail);
    lemma_item_at_cons(items, k, tail);
    assert forall|j: int| 1 <= j < tail.len() implies (#[trigger] item_at(children, tail.take(j))) matches Some(
        ItemView::Folder { is_expanded: true, .. },
    ) by {
        assert(q.take(j + 1) == seq![k] + tail.take(j));
        lemma_item_at_cons(items, k, tail.take(j));
        assert(item_at(items, q.take(j + 1)) matches Some(ItemView::Folder { is_expanded: true, .. }));
    }
}

proof fn lemma_rows_upto_exact(items: Seq<ItemView>, n: int, ancestors: Seq<bool>, parent: Seq<int>)
    requires
        0 <= n <= items.len(),
    ensures
        rows_under(rows_upto(items, n, ancestors, parent), parent, 0, n),
        paths_distinct(rows_upto(items, n, ancestors, parent)),
        forall|q: Seq<int>|
            visible_path(items, q) && q[0] < n ==> #[trigger] has_row_at(
                rows_upto(items, n, ancestors, parent),
                parent + q,
            ),
    decreases items, 2 * n,
{
    if n > 0 {
        lemma_rows_upto_exact(items, n - 1, ancestors, parent);
        lemma_item_rows_exact(items, n - 1, ancestors, parent);
        let a = rows_upto(items, n - 1, ancestors, parent);
        let b = item_rows(items, n - 1, ancestors, parent);
        let all = a + b;
        assert(rows_upto(items, n, ancestors, parent) == all);
        assert forall|r: int| 0 <= r < all.len() implies {
            let path = #[trigger] all[r].path;
            &&& path.len() > parent.len()
            &&& path.take(parent.len() as int) == parent
            &&& 0 <= path[parent.len() as int] < n
        } by {
            if r < a.len() {
                assert(all[r] == a[r]);
            } else {
                assert(all[r] == b[r - a.len()]);
            }
        }
        assert forall|i: int, j: int| 0 <= i < j < all.len() implies #[trigger] all[i].path != #[trigger] all[j].path by {
            if j < a.len() {
                assert(all[i] == a[i] && all[j] == a[j]);
            } else if i >= a.len() {
                assert(all[i] == b[i - a.len()] && all[j] == b[j - a.len()]);
            } else {
                assert(all[i] == a[i] && all[j] == b[j - a.len()]);
                assert(a[i].path[parent.len() as int] < n - 1);
                assert(b[j - a.len()].path[parent.len() as int] == n - 1);
            }
        }
        assert forall|q: Seq<int>| visible_path(items, q) && q[0] < n implies #[trigger] has_row_at(all, parent + q) by {
            if q[0] < n - 1 {
                assert(has_row_at(a, parent + q));
                let r = choose|r: int| 0 <= r < a.len() && #[trigger] a[r].path == parent + q;
                assert(all[r] == a[r]);
            } else {
                assert(has_row_at(b, parent + q));
                let r = choose|r: int| 0 <= r < b.len() && #[trigger] b[r].path == parent + q;
                assert(all[a.len() + r] == b[r]);
            }
        }
    } else {
        assert(rows_upto(items, n, ancestors, parent) == Seq::<RowView>::empty());
    }
}

proof fn lemma_item_rows_exact(items: Seq<ItemView>, k: int, ancestors: Seq<bool>, parent: Seq<int>)
    requires
        0 <= k < items.len(),
    ensures
        rows_under(item_rows(items, k, ancestors, parent), parent, k, k + 1),
        paths_distinct(item_rows(items, k, ancestors, parent)),
        forall|q: Seq<int>|
            visible_path(items, q) && q[0] == k ==> #[trigger] has_row_at(
                item_rows(items, k, ancestors, parent),
                parent + q,
            ),
    decreases items, 2 * k + 1,
{
    let item = items[k];
    let is_last = k == items.len() - 1;
    let path = parent.push(k);
    let rows = item_rows(items, k, ancestors, parent);
    assert(rows[0].path == path);
    assert(path.take(parent.len() as int) == parent);
    assert(path[parent.len() as int] == k);
    match item {
        ItemView::Folder { children, is_expanded, .. } => {
            if is_expanded {
                let sub = rows_upto(children, children.len() as int, ancestors.push(is_last), path);
                lemma_rows_upto_exact(children, children.len() as int, ancestors.push(is_last), path);
                assert(rows == seq![rows[0]] + sub);
                assert forall|r: int| 0 <= r < rows.len() implies {
                    let p = #[trigger] rows[r].path;
                    &&& p.len() > parent.len()
                    &&& p.take(parent.len() as int) == parent
                    &&& k <= p[parent.len() as int] < k + 1
                } by {
                    if r > 0 {
                        let p = rows[r].path;
                        assert(rows[r] == sub[r - 1]);
                        assert(p.take(path.len() as int) == path);
                        assert(p.take(parent.len() as int) == p.take(path.len() as int).take(parent.len() as int));
                        assert(p[parent.len() as int] == p.take(path.len() as int)[parent.len() as int]);
                    }
                }
                assert forall|i: int, j: int| 0 <= i < j < rows.len() implies #[trigger] rows[i].path != #[trigger] rows[j].path by {
                    assert(rows[j] == sub[j - 1]);
                    if i > 0 {
                        assert(rows[i] == sub[i - 1]);
                    } else {
                        assert(rows[j].path.len() > path.len());
                    }
                }
                assert forall|q: Seq<int>| visible_path(items, q) && q[0] == k implies #[trigger] has_row_at(rows, parent + q) by {
                    if q.len() == 1 {
                        assert(parent + q =~= path);
                    } else {
                        lemma_visible_path_tail(items, q);
                        let tail = q.drop_first();
                        assert(path + tail =~= parent + q);
                        assert(has_row_at(sub, path + tail));
                        let r = choose|r: int| 0 <= r < sub.len() && #[trigger] sub[r].path == path + tail;
                        assert(rows[r + 1] == sub[r]);
                    }
                }
            } else {
                assert forall|q: Seq<int>| visible_path(items, q) && q[0] == k implies #[trigger] has_row_at(rows, parent + q) by {
                    if q.len() > 1 {
                        lemma_visible_path_tail(items, q);
                    }
                    assert(parent + q =~= path);
                }
            }
        },
        ItemView::Request { .. } => {
            assert forall|q: Seq<int>| visible_path(items, q) && q[0] == k implies #[trigger] has_row_at(rows, parent + q) by {
                if q.len() > 1 {
                    lemma_visible_path_tail(items, q);
                }
                assert(parent + q =~= path);
            }
        },
    }
}

/// The sidebar has exactly one row for each visible item: every path that
/// leads through expanded folders only to an item is the path of a row, and
/// no two rows share a path.
pub proof fn law_one_row_per_visible_item(items: Seq<ItemView>)
    ensures
        paths_distinct(visible_rows(items)),
        forall|q: Seq<int>| visible_path(items, q) ==> #[trigger] has_row_at(visible_rows(items), q),
{
    lemma_rows_upto_exact(items, items.len() as int, Seq::empty(), Seq::empty());
    assert forall|q: Seq<int>| visible_path(items, q) implies #[trigger] has_row_at(visible_rows(items), q) by {
        assert(Seq::<int>::empty() + q =~= q);
        assert(q[0] < items.len());
    }
}

} // verus!
