//! Properties that hold of the library as a whole, across its functions and inputs.
use vstd::prelude::*;

use crate::collections::{
    build_entries, build_item, insert_pos, join_with_slash, sort_entries, spec_list_collections,
    untag, FsNode, ItemView,
};
use crate::placeholders::{
    placeholder_at, resolve_auth_stage, resolve_body_stage, resolve_config, resolve_from,
    resolve_headers_stage, resolve_method_url_stage, resolve_pairs, resolve_params_stage,
    resolve_placeholders,
};
use crate::request_path::{collections_dir, ends_with, join_segments, path_join, spec_request_file_path, split_from};
use crate::send::{non_empty_values, spec_prepare_request};
use crate::text::trim;
use crate::tui::next_selected;
use crate::tui::Key;
use crate::types::{ApiMethods, AuthView, RequestConfigView};

verus! {

/// `s` begins with `prefix`.
pub open spec fn starts_with(s: Seq<char>, prefix: Seq<char>) -> bool {
    prefix.len() <= s.len() && s.subrange(0, prefix.len() as int) == prefix
}

proof fn lemma_path_join_extends(base: Seq<char>, seg: Seq<char>)
    ensures
        starts_with(path_join(base, seg), base),
        ends_with(path_join(base, seg), seg),
{
    let p = path_join(base, seg);
    assert(p.subrange(0, base.len() as int) =~= base);
    assert(p.subrange(p.len() - seg.len(), p.len() as int) =~= seg);
}

proof fn lemma_starts_with_trans(a: Seq<char>, b: Seq<char>, c: Seq<char>)
    requires
        starts_with(a, b),
        starts_with(b, c),
    ensures
        starts_with(a, c),
{
    assert(a.subrange(0, c.len() as int) =~= b.subrange(0, c.len() as int));
}

proof fn lemma_join_segments_extends(base: Seq<char>, segs: Seq<Seq<char>>)
    ensures
        starts_with(join_segments(base, segs), base),
    decreases segs.len(),
{
    if segs.len() == 0 {
        assert(base.subrange(0, base.len() as int) =~= base);
    } else {
        lemma_join_segments_extends(base, segs.drop_last());
        lemma_path_join_extends(join_segments(base, segs.drop_last()), segs.last());
        lemma_starts_with_trans(join_segments(base, segs), join_segments(base, segs.drop_last()), base);
    }
}

/// A request path always resolves to a `.toml` file under the project's
/// `.rivet/collections` folder.
pub proof fn law_request_file_is_toml_under_collections(base: Seq<char>, request: Seq<char>)
    ensures
        spec_request_file_path(base, request) matches Ok(p) ==> {
            &&& ends_with(p, ".toml"@)
            &&& starts_with(p, collections_dir(base))
        },
{
    if let Ok(p) = spec_request_file_path(base, request) {
        let segs = crate::request_path::split_on(trim(request), '/');
        let dir = join_segments(collections_dir(base), segs.drop_last());
        let file = segs.last() + ".toml"@;
        lemma_join_segments_extends(collections_dir(base), segs.drop_last());
        lemma_path_join_extends(dir, file);
        lemma_starts_with_trans(p, dir, collections_dir(base));
        assert(".toml"@.len() == 5) by {
            reveal_strlit(".toml");
        }
        assert(file.len() >= 5);
        assert(p.subrange(p.len() - file.len(), p.len() as int) == file);
        assert(file.subrange(file.len() - 5, file.len() as int) =~= ".toml"@);
        assert(p.subrange(p.len() - 5, p.len() as int) =~= file.subrange(
            file.len() - 5,
            file.len() as int,
        ));
    }
}

/// No placeholder starts anywhere in `s`.
pub open spec fn no_placeholder(s: Seq<char>) -> bool {
    forall|p: int| 0 <= p < s.len() ==> #[trigger] placeholder_at(s, p) is None
}

proof fn lemma_no_placeholder_resolves_to_itself(s: Seq<char>, i: int, env: Seq<(Seq<char>, Seq<char>)>)
    requires
        0 <= i <= s.len(),
        no_placeholder(s),
    ensures
        resolve_from(s, i, env) == Ok::<Seq<char>, Seq<char>>(s.subrange(i, s.len() as int)),
    decreases s.len() - i,
{
    if i < s.len() {
        assert(placeholder_at(s, i) is None);
        lemma_no_placeholder_resolves_to_itself(s, i + 1, env);
        assert(seq![s[i]] + s.subrange(i + 1, s.len() as int) =~= s.subrange(i, s.len() as int));
    } else {
        assert(s.subrange(i, s.len() as int) =~= Seq::<char>::empty());
    }
}

/// Text in which no placeholder starts (for one, text without `{{`) is
/// given back unchanged by resolution, whatever the environment.
pub proof fn law_text_without_placeholders_is_unchanged(s: Seq<char>, env: Seq<(Seq<char>, Seq<char>)>)
    requires
        no_placeholder(s),
    ensures
        resolve_placeholders(s, env) == Ok::<Seq<char>, Seq<char>>(s),
{
    lemma_no_placeholder_resolves_to_itself(s, 0, env);
    assert(s.subrange(0, s.len() as int) =~= s);
}

/// The keys of `ps`.
pub open spec fn pair_keys(ps: Seq<(Seq<char>, Seq<char>)>) -> Seq<Seq<char>> {
    ps.map_values(|p: (Seq<char>, Seq<char>)| p.0)
}

proof fn lemma_resolve_pairs_keeps_keys(ps: Seq<(Seq<char>, Seq<char>)>, env: Seq<(Seq<char>, Seq<char>)>)
    ensures
        pair_keys(resolve_pairs(ps, env).0) == pair_keys(ps),
    decreases ps.len(),
{
    if ps.len() > 0 {
        lemma_resolve_pairs_keeps_keys(ps.drop_first(), env);
        if let Ok(v) = resolve_placeholders(ps[0].1, env) {
            let rest = resolve_pairs(ps.drop_first(), env);
            assert(pair_keys(seq![(ps[0].0, v)] + rest.0) =~= seq![ps[0].0] + pair_keys(rest.0));
            assert(pair_keys(ps) =~= seq![ps[0].0] + pair_keys(ps.drop_first()));
        }
    }
}

/// Whether two authentication settings are of the same kind, with or without a password alike.
pub open spec fn same_auth_shape(a: Option<AuthView>, b: Option<AuthView>) -> bool {
    match (a, b) {
        (None, None) => true,
        (Some(AuthView::Basic { password: p, .. }), Some(AuthView::Basic { password: q, .. })) => p is Some == q is Some,
        (Some(AuthView::Bearer { .. }), Some(AuthView::Bearer { .. })) => true,
        _ => false,
    }
}

/// Whether resolving turned `c` into `d` without touching its shape: the
/// timeout, the keys of the query parameters and headers, which parts are
/// present, and the kind of authentication stay as they were.
pub open spec fn same_shape(c: RequestConfigView, d: RequestConfigView) -> bool {
    &&& d.timeout == c.timeout
    &&& d.params is Some == c.params is Some
    &&& (c.params matches Some(ps) ==> d.params matches Some(qs) && pair_keys(qs) == pair_keys(ps))
    &&& d.headers is Some == c.headers is Some
    &&& (c.headers matches Some(hs) ==> d.headers matches Some(gs) && pair_keys(gs) == pair_keys(hs))
    &&& d.body is Some == c.body is Some
    &&& same_auth_shape(c.auth, d.auth)
}

proof fn lemma_same_shape_trans(a: RequestConfigView, b: RequestConfigView, c: RequestConfigView)
    requires
        same_shape(a, b),
        same_shape(b, c),
    ensures
        same_shape(a, c),
{
}

/// Resolving placeholders, whether it succeeds or stops at a missing
/// variable, changes only text: the timeout, the keys of the query
/// parameters and headers, which parts the request has and the kind of its
/// authentication stay as they were.
pub proof fn law_resolving_keeps_the_request_shape(c: RequestConfigView, env: Seq<(Seq<char>, Seq<char>)>)
    ensures
        same_shape(c, resolve_config(c, env).0),
{
    let s1 = resolve_method_url_stage(c, env);
    let s2 = resolve_params_stage(s1.0, env);
    let s3 = resolve_auth_stage(s2.0, env);
    let s4 = resolve_headers_stage(s3.0, env);
    let s5 = resolve_body_stage(s4.0, env);
    assert(same_shape(c, s1.0));
    if let Some(ps) = s1.0.params {
        lemma_resolve_pairs_keeps_keys(ps, env);
    }
    assert(same_shape(s1.0, s2.0));
    assert(same_shape(s2.0, s3.0));
    if let Some(hs) = s3.0.headers {
        lemma_resolve_pairs_keeps_keys(hs, env);
    }
    assert(same_shape(s3.0, s4.0));
    assert(same_shape(s4.0, s5.0));
    lemma_same_shape_trans(c, s1.0, s2.0);
    lemma_same_shape_trans(c, s2.0, s3.0);
    lemma_same_shape_trans(c, s3.0, s4.0);
    lemma_same_shape_trans(c, s4.0, s5.0);
}

proof fn lemma_non_empty_values(ps: Seq<(Seq<char>, Seq<char>)>)
    ensures
        forall|k: int| 0 <= k < non_empty_values(ps).len() ==> #[trigger] non_empty_values(ps)[k].1.len() > 0,
    decreases ps.len(),
{
    if ps.len() > 0 {
        lemma_non_empty_values(ps.drop_last());
        let before = non_empty_values(ps.drop_last());
        if ps.last().1.len() > 0 {
            assert forall|k: int| 0 <= k < before.push(ps.last()).len() implies #[trigger] before.push(
                ps.last(),
            )[k].1.len() > 0 by {
                if k < before.len() {
                    assert(before.push(ps.last())[k] == before[k]);
                }
            }
        }
    }
}

/// A prepared request never carries a body with GET nor a blank body, and
/// sets no header without a value.
pub proof fn law_prepared_request_shape(c: RequestConfigView, env: Seq<(Seq<char>, Seq<char>)>)
    ensures
        spec_prepare_request(c, env) matches Ok(p) ==> {
            &&& (p.method == ApiMethods::GET ==> p.body is None)
            &&& (p.body matches Some(b) ==> trim(b).len() > 0)
            &&& forall|k: int| 0 <= k < p.headers.len() ==> #[trigger] p.headers[k].1.len() > 0
        },
{
    let r = resolve_config(c, env).0;
    if let Some(hs) = r.headers {
        lemma_non_empty_values(hs);
    }
    reveal_strlit("GET");
    reveal_strlit("POST");
    reveal_strlit("PUT");
    reveal_strlit("PATCH");
    reveal_strlit("DELETE");
    reveal_strlit("HEAD");
    reveal_strlit("OPTIONS");
}

/// In a focused sidebar, moving down and then up returns to the same row,
/// unless the row was the last one.
pub proof fn law_down_then_up_returns(i: usize, count: nat)
    requires
        i + 1 < count,
        count <= usize::MAX,
    ensures
        next_selected(next_selected(Some(i), count, Key::Char('j')), count, Key::Char('k')) == Some(i),
{
}

/// A listed item is well formed: a folder is collapsed and holds at least
/// one item, each well formed; a request's path ends with its name.
pub open spec fn listed_item_ok(item: ItemView) -> bool
    decreases item,
{
    match item {
        ItemView::Folder { children, is_expanded, .. } => {
            &&& children.len() > 0
            &&& !is_expanded
            &&& forall|k: int| 0 <= k < children.len() ==> listed_item_ok(#[trigger] children[k])
        },
        ItemView::Request { name, path, .. } => ends_with(path, name),
    }
}

proof fn lemma_join_with_slash_ends_with_last(parts: Seq<Seq<char>>, last: Seq<char>)
    ensures
        ends_with(join_with_slash(parts.push(last)), last),
{
    let all = parts.push(last);
    assert(all.drop_last() == parts);
    let j = join_with_slash(all);
    if parts.len() == 0 {
        assert(j == last);
        assert(j.subrange(0, j.len() as int) =~= last);
    } else {
        assert(j.subrange(j.len() - last.len(), j.len() as int) =~= last);
    }
}

proof fn lemma_insert_pos_bounds(sorted: Seq<(Seq<char>, ItemView)>, name: Seq<char>)
    ensures
        0 <= insert_pos(sorted, name) <= sorted.len(),
    decreases sorted.len(),
{
    if sorted.len() > 0 {
        lemma_insert_pos_bounds(sorted.drop_first(), name);
    }
}

/// Sorting keeps every entry that it was given, and adds none.
proof fn lemma_sort_entries_preserves(entries: Seq<(Seq<char>, ItemView)>, p: spec_fn((Seq<char>, ItemView)) -> bool)
    requires
        forall|k: int| 0 <= k < entries.len() ==> p(#[trigger] entries[k]),
    ensures
        sort_entries(entries).len() == entries.len(),
        forall|k: int| 0 <= k < sort_entries(entries).len() ==> p(#[trigger] sort_entries(entries)[k]),
    decreases entries.len(),
{
    if entries.len() > 0 {
        let rest = entries.drop_last();
        assert forall|k: int| 0 <= k < rest.len() implies p(#[trigger] rest[k]) by {
            assert(rest[k] == entries[k]);
        }
        lemma_sort_entries_preserves(rest, p);
        let sorted = sort_entries(rest);
        let x = entries.last();
        lemma_insert_pos_bounds(sorted, x.0);
        let i = insert_pos(sorted, x.0);
        let out = sorted.insert(i, x);
        assert forall|k: int| 0 <= k < out.len() implies p(#[trigger] out[k]) by {
            if k < i {
                assert(out[k] == sorted[k]);
            } else if k == i {
                assert(out[k] == x);
            } else {
                assert(out[k] == sorted[k - 1]);
            }
        }
    }
}

proof fn lemma_build_item_ok(node: FsNode, parents: Seq<Seq<char>>)
    ensures
        build_item(node, parents) matches Some(item) ==> listed_item_ok(item),
    decreases node,
{
    match node {
        FsNode::File { name, .. } => {
            if let Some(stem) = crate::collections::request_stem(name@) {
                lemma_join_with_slash_ends_with_last(parents, stem);
            }
        },
        FsNode::Other { .. } => {},
        FsNode::Directory { name, children } => {
            let ps = parents.push(name@);
            lemma_build_entries_ok(children@, ps);
            let entries = build_entries(children@, ps);
            let p = |e: (Seq<char>, ItemView)| listed_item_ok(e.1);
            lemma_sort_entries_preserves(entries, p);
            let kids = untag(sort_entries(entries));
            assert forall|k: int| 0 <= k < kids.len() implies listed_item_ok(#[trigger] kids[k]) by {
                assert(p(sort_entries(entries)[k]));
            }
        },
    }
}

proof fn lemma_build_entries_ok(nodes: Seq<FsNode>, parents: Seq<Seq<char>>)
    ensures
        forall|k: int| 0 <= k < build_entries(nodes, parents).len() ==> listed_item_ok(
            #[trigger] build_entries(nodes, parents)[k].1,
        ),
    decreases nodes,
{
    if nodes.len() > 0 {
        lemma_build_entries_ok(nodes.drop_last(), parents);
        lemma_build_item_ok(nodes.last(), parents);
        let before = build_entries(nodes.drop_last(), parents);
        if let Some(item) = build_item(nodes.last(), parents) {
            let after = before.push((crate::collections::entry_name(nodes.last()), item));
            assert forall|k: int| 0 <= k < after.len() implies listed_item_ok(#[trigger] after[k].1) by {
                if k < before.len() {
                    assert(after[k] == before[k]);
                }
            }
        }
    }
}

/// Every item of a listing is well formed: no folder is empty (folders with
/// nothing to list are left out), folders start collapsed, and the path of
/// every request ends with its name.
pub proof fn law_listing_is_well_formed(nodes: Seq<FsNode>)
    ensures
        forall|k: int|
            0 <= k < spec_list_collections(nodes).len() ==> listed_item_ok(
                #[trigger] spec_list_collections(nodes)[k],
            ),
{
    let entries = build_entries(nodes, Seq::empty());
    lemma_build_entries_ok(nodes, Seq::empty());
    let p = |e: (Seq<char>, ItemView)| listed_item_ok(e.1);
    lemma_sort_entries_preserves(entries, p);
    assert forall|k: int| 0 <= k < spec_list_collections(nodes).len() implies listed_item_ok(
        #[trigger] spec_list_collections(nodes)[k],
    ) by {
        assert(p(sort_entries(entries)[k]));
    }
}

proof fn lemma_name_less_irreflexive(a: Seq<char>)
    ensures
        !crate::collections::name_less(a, a),
    decreases a.len(),
{
    if a.len() > 0 {
        lemma_name_less_irreflexive(a.drop_first());
    }
}

proof fn lemma_name_less_transitive(a: Seq<char>, b: Seq<char>, c: Seq<char>)
    requires
        crate::collections::name_less(a, b),
        crate::collections::name_less(b, c),
    ensures
        crate::collections::name_less(a, c),
    decreases a.len(),
{
    if a.len() > 0 && b.len() > 0 && c.len() > 0 && a[0] == b[0] && b[0] == c[0] {
        lemma_name_less_transitive(a.drop_first(), b.drop_first(), c.drop_first());
    }
}

/// Entries in order of their names: no entry's name comes before an earlier entry's.
pub open spec fn sorted_by_name(entries: Seq<(Seq<char>, ItemView)>) -> bool {
    forall|i: int, j: int|
        0 <= i < j < entries.len() ==> !crate::collections::name_less(
            #[trigger] entries[j].0,
            #[trigger] entries[i].0,
        )
}

proof fn lemma_insert_pos_splits(sorted: Seq<(Seq<char>, ItemView)>, name: Seq<char>)
    ensures
        forall|k: int|
            0 <= k < insert_pos(sorted, name) ==> !crate::collections::name_less(name, #[trigger] sorted[k].0),
        insert_pos(sorted, name) < sorted.len() ==> crate::collections::name_less(
            name,
            sorted[insert_pos(sorted, name)].0,
        ),
    decreases sorted.len(),
{
    if sorted.len() > 0 && !crate::collections::name_less(name, sorted[0].0) {
        let rest = sorted.drop_first();
        lemma_insert_pos_splits(rest, name);
        lemma_insert_pos_bounds(rest, name);
        assert forall|k: int| 0 <= k < insert_pos(sorted, name) implies !crate::collections::name_less(
            name,
            #[trigger] sorted[k].0,
        ) by {
            if k > 0 {
                assert(sorted[k] == rest[k - 1]);
            }
        }
        if insert_pos(sorted, name) < sorted.len() {
            assert(sorted[insert_pos(sorted, name)] == rest[insert_pos(rest, name)]);
        }
    }
}

proof fn lemma_sort_entries_sorted(entries: Seq<(Seq<char>, ItemView)>)
    ensures
        sorted_by_name(sort_entries(entries)),
    decreases entries.len(),
{
    if entries.len() > 0 {
        lemma_sort_entries_sorted(entries.drop_last());
        let sorted = sort_entries(entries.drop_last());
        let x = entries.last();
        lemma_insert_pos_bounds(sorted, x.0);
        lemma_insert_pos_splits(sorted, x.0);
        let p = insert_pos(sorted, x.0);
        let out = sorted.insert(p, x);
        assert forall|i: int, j: int| 0 <= i < j < out.len() implies !crate::collections::name_less(
            #[trigger] out[j].0,
            #[trigger] out[i].0,
        ) by {
            let oi = if i < p { i } else if i == p { -1 } else { i - 1 };
            let oj = if j < p { j } else if j == p { -1 } else { j - 1 };
            if i == p {
                // out[j] comes from sorted at index j - 1 >= p
                assert(out[j] == sorted[oj]);
                if crate::collections::name_less(sorted[oj].0, x.0) {
                    lemma_name_less_transitive(sorted[oj].0, x.0, sorted[p].0);
                    if oj == p {
                        lemma_name_less_irreflexive(sorted[p].0);
                    }
                }
            } else if j == p {
                assert(out[i] == sorted[oi]);
            } else {
                assert(out[i] == sorted[oi]);
                assert(out[j] == sorted[oj]);
            }
        }
    }
}

/// A listing comes in the order of the file names of its entries: each
/// level's items are sorted by name, as a sorted directory listing is.
pub proof fn law_listing_follows_entry_names(nodes: Seq<FsNode>, parents: Seq<Seq<char>>)
    ensures
        sorted_by_name(sort_entries(build_entries(nodes, parents))),
{
    lemma_sort_entries_sorted(build_entries(nodes, parents));
}

proof fn lemma_resolve_from_error(s: Seq<char>, i: int, env: Seq<(Seq<char>, Seq<char>)>)
    ensures
        resolve_from(s, i, env) matches Err(m) ==> exists|key: Seq<char>|
            m == crate::placeholders::missing_variable_message(key) && #[trigger] crate::placeholders::env_lookup(env, key) is None,
    decreases s.len() - i,
{
    if 0 <= i < s.len() {
        crate::placeholders::lemma_placeholder_bounds(s, i);
        match placeholder_at(s, i) {
            Some((e, a, b)) => {
                let key = s.subrange(a, b);
                if crate::placeholders::env_lookup(env, key) is Some {
                    lemma_resolve_from_error(s, e, env);
                }
            },
            None => {
                lemma_resolve_from_error(s, i + 1, env);
            },
        }
    }
}

/// Resolution fails only for a placeholder whose variable is missing, and
/// then says which: `Missing environment variable: NAME`.
pub proof fn law_failure_names_a_missing_variable(s: Seq<char>, env: Seq<(Seq<char>, Seq<char>)>)
    ensures
        resolve_placeholders(s, env) matches Err(m) ==> exists|key: Seq<char>|
            m == crate::placeholders::missing_variable_message(key) && #[trigger] crate::placeholders::env_lookup(env, key) is None,
{
    lemma_resolve_from_error(s, 0, env);
}

/// The tree drawing in front of a sidebar row is three characters per
/// ancestor plus three for the row's own branch.
pub proof fn law_tree_prefix_width(ancestors: Seq<bool>, is_last: bool)
    ensures
        crate::sidebar::spec_tree_prefix(ancestors, is_last).len() == 3 * (ancestors.len() + 1),
    decreases ancestors.len(),
{
    reveal_strlit("   ");
    reveal_strlit("│  ");
    reveal_strlit("└─ ");
    reveal_strlit("├─ ");
    if ancestors.len() > 0 {
        law_tree_prefix_width(ancestors.drop_first(), is_last);
    }
}

/// A `.rivet` folder that holds every required folder and file — what
/// initialising creates — passes the check.
pub proof fn law_initialised_folder_is_ready(dirs_present: Seq<bool>, files_present: Seq<bool>)
    requires
        forall|k: int| 0 <= k < dirs_present.len() ==> #[trigger] dirs_present[k],
        forall|k: int| 0 <= k < files_present.len() ==> #[trigger] files_present[k],
    ensures
        crate::rivet_folder::spec_rivet_folder_status(true, dirs_present, files_present)
            == crate::rivet_folder::RivetFolderStatus::Ready,
{
}

proof fn lemma_split_from_props(s: Seq<char>, i: int, start: int)
    requires
        0 <= start <= i <= s.len(),
        forall|k: int| start <= k < i ==> s[k] != '/',
    ensures
        split_from(s, '/', i, start).len() > 0,
        forall|k: int| 0 <= k < split_from(s, '/', i, start).len() ==> !(#[trigger] split_from(s, '/', i, start)[k]).contains('/'),
        join_with_slash(split_from(s, '/', i, start)) == s.subrange(start, s.len() as int),
    decreases s.len() - i,
{
    let pieces = split_from(s, '/', i, start);
    if i >= s.len() {
        let piece = s.subrange(start, s.len() as int);
        assert forall|j: int| 0 <= j < piece.len() implies piece[j] != '/' by {
            assert(piece[j] == s[start + j]);
        }
        assert(pieces == seq![piece]);
    } else if s[i] == '/' {
        let piece = s.subrange(start, i);
        lemma_split_from_props(s, i + 1, i + 1);
        let rest = split_from(s, '/', i + 1, i + 1);
        assert(pieces == seq![piece] + rest);
        assert forall|j: int| 0 <= j < piece.len() implies piece[j] != '/' by {
            assert(piece[j] == s[start + j]);
        }
        assert forall|k: int| 0 <= k < pieces.len() implies !(#[trigger] pieces[k]).contains('/') by {
            if k > 0 {
                assert(pieces[k] == rest[k - 1]);
            }
        }
        lemma_join_with_slash_cons(piece, rest);
        assert(piece.push('/') + s.subrange(i + 1, s.len() as int) =~= s.subrange(start, s.len() as int));
    } else {
        lemma_split_from_props(s, i + 1, start);
    }
}

proof fn lemma_join_with_slash_cons(first: Seq<char>, rest: Seq<Seq<char>>)
    requires
        rest.len() > 0,
    ensures
        join_with_slash(seq![first] + rest) == first.push('/') + join_with_slash(rest),
    decreases rest.len(),
{
    let all = seq![first] + rest;
    if rest.len() == 1 {
        assert(all.drop_last() =~= seq![first]);
        assert(all.last() == rest[0]);
        assert(join_with_slash(seq![first]) == first);
        assert(join_with_slash(rest) == rest[0]);
    } else {
        let init = rest.drop_last();
        lemma_join_with_slash_cons(first, init);
        assert(all.drop_last() =~= seq![first] + init);
        assert(all.last() == rest.last());
        assert(join_with_slash(all) == join_with_slash(seq![first] + init).push('/') + rest.last());
        assert(join_with_slash(rest) == join_with_slash(init).push('/') + rest.last());
        assert((first.push('/') + join_with_slash(init)).push('/') + rest.last() =~= first.push('/')
            + (join_with_slash(init).push('/') + rest.last()));
    }
}

/// A path that stays inside the collections folder of `base`: the folder,
/// then at least one folder segment and a file name, each a plain segment
/// (not empty, not `.` or `..`, without `/`), the file name ending in `.toml`.
pub open spec fn inside_collections(base: Seq<char>, p: Seq<char>) -> bool {
    exists|segs: Seq<Seq<char>>|
        {
            &&& segs.len() >= 2
            &&& forall|k: int|
                0 <= k < segs.len() ==> crate::request_path::valid_segment(#[trigger] segs[k])
                    && !segs[k].contains('/')
            &&& p == path_join(
                join_segments(collections_dir(base), segs.drop_last()),
                segs.last() + ".toml"@,
            )
        }
}

/// No request path escapes the collections folder: what it resolves to is
/// that folder followed by at least two plain segments (no empty segment,
/// no `.`, no `..`), the last one the `.toml` file.
pub proof fn law_request_file_stays_inside_collections(base: Seq<char>, request: Seq<char>)
    ensures
        spec_request_file_path(base, request) matches Ok(p) ==> inside_collections(base, p),
{
    if let Ok(p) = spec_request_file_path(base, request) {
        let t = trim(request);
        let segs = crate::request_path::split_on(t, '/');
        lemma_split_from_props(t, 0, 0);
        assert(forall|k: int|
            0 <= k < segs.len() ==> crate::request_path::valid_segment(#[trigger] segs[k])
                && !segs[k].contains('/'));
    }
}

/// A resolved request is found again by the listing under the same name:
/// its file, `name.toml` in the folders of the path, is listed with the
/// request path `folder/.../name`, which is the trimmed request path.
pub proof fn law_listed_path_is_the_request_path(base: Seq<char>, request: Seq<char>)
    ensures
        spec_request_file_path(base, request) is Ok ==> {
            let segs = crate::request_path::split_on(trim(request), '/');
            &&& crate::collections::request_stem(segs.last() + ".toml"@) == Some(segs.last())
            &&& join_with_slash(segs.drop_last().push(segs.last())) == trim(request)
        },
{
    if spec_request_file_path(base, request) is Ok {
        let t = trim(request);
        let segs = crate::request_path::split_on(t, '/');
        lemma_split_from_props(t, 0, 0);
        assert(t.subrange(0, t.len() as int) =~= t);
        assert(segs.drop_last().push(segs.last()) =~= segs);
        let name = segs.last() + ".toml"@;
        assert(".toml"@.len() == 5) by {
            reveal_strlit(".toml");
        }
        assert(crate::request_path::valid_segment(segs[segs.len() - 1]));
        assert(name.subrange(name.len() - 5, name.len() as int) =~= ".toml"@);
        assert(name.subrange(0, name.len() - 5) =~= segs.last());
    }
}

/// `text` resolves, in the environment `env`, to `out`.
pub open spec fn resolves_to(text: Seq<char>, env: Seq<(Seq<char>, Seq<char>)>, out: Seq<char>) -> bool {
    resolve_placeholders(text, env) == Ok::<Seq<char>, Seq<char>>(out)
}

/// Every value of `ps` resolves in `env`.
pub open spec fn all_values_resolve(ps: Seq<(Seq<char>, Seq<char>)>, env: Seq<(Seq<char>, Seq<char>)>) -> bool {
    forall|k: int| 0 <= k < ps.len() ==> (#[trigger] resolve_placeholders(ps[k].1, env)) is Ok
}

/// `out` is `orig` pair by pair, each key kept and each value resolved.
pub open spec fn values_resolved(
    orig: Seq<(Seq<char>, Seq<char>)>,
    out: Seq<(Seq<char>, Seq<char>)>,
    env: Seq<(Seq<char>, Seq<char>)>,
) -> bool {
    &&& out.len() == orig.len()
    &&& forall|k: int|
        0 <= k < orig.len() ==> (#[trigger] out[k]).0 == orig[k].0 && resolves_to(orig[k].1, env, out[k].1)
}

/// Optional pairs whose values all resolve.
pub open spec fn opt_values_resolve(ps: Option<Seq<(Seq<char>, Seq<char>)>>, env: Seq<(Seq<char>, Seq<char>)>) -> bool {
    match ps {
        Some(ps) => all_values_resolve(ps, env),
        None => true,
    }
}

/// Optional pairs, present on both sides or on neither, resolved pair by pair.
pub open spec fn opt_values_resolved(
    orig: Option<Seq<(Seq<char>, Seq<char>)>>,
    out: Option<Seq<(Seq<char>, Seq<char>)>>,
    env: Seq<(Seq<char>, Seq<char>)>,
) -> bool {
    match (orig, out) {
        (None, None) => true,
        (Some(a), Some(b)) => values_resolved(a, b, env),
        _ => false,
    }
}

/// An optional text that resolves.
pub open spec fn opt_text_resolves(t: Option<Seq<char>>, env: Seq<(Seq<char>, Seq<char>)>) -> bool {
    match t {
        Some(t) => resolve_placeholders(t, env) is Ok,
        None => true,
    }
}

/// An optional text, present on both sides or on neither, resolved.
pub open spec fn opt_text_resolved(orig: Option<Seq<char>>, out: Option<Seq<char>>, env: Seq<(Seq<char>, Seq<char>)>) -> bool {
    match (orig, out) {
        (None, None) => true,
        (Some(a), Some(b)) => resolves_to(a, env, b),
        _ => false,
    }
}

/// Every text of an authentication resolves.
pub open spec fn auth_resolves(a: Option<AuthView>, env: Seq<(Seq<char>, Seq<char>)>) -> bool {
    match a {
        None => true,
        Some(AuthView::Basic { username, password }) => resolve_placeholders(username, env) is Ok
            && opt_text_resolves(password, env),
        Some(AuthView::Bearer { token }) => resolve_placeholders(token, env) is Ok,
    }
}

/// `out` is the authentication `orig` of the same kind with each of its texts
/// resolved: a basic one keeps its password, resolved, or its lack of one.
pub open spec fn auth_resolved(orig: Option<AuthView>, out: Option<AuthView>, env: Seq<(Seq<char>, Seq<char>)>) -> bool {
    match (orig, out) {
        (None, None) => true,
        (
            Some(AuthView::Basic { username: u, password: p }),
            Some(AuthView::Basic { username: u2, password: p2 }),
        ) => resolves_to(u, env, u2) && opt_text_resolved(p, p2, env),
        (Some(AuthView::Bearer { token: t }), Some(AuthView::Bearer { token: t2 })) => resolves_to(t, env, t2),
        _ => false,
    }
}

/// Every text of the request `c` resolves in `env`.
pub open spec fn request_resolves(c: RequestConfigView, env: Seq<(Seq<char>, Seq<char>)>) -> bool {
    &&& resolve_placeholders(c.method, env) is Ok
    &&& resolve_placeholders(c.url, env) is Ok
    &&& opt_values_resolve(c.params, env)
    &&& auth_resolves(c.auth, env)
    &&& opt_values_resolve(c.headers, env)
    &&& opt_text_resolves(c.body, env)
}

/// `r` is the request `c` with every one of its texts resolved: method, URL,
/// each query-parameter value, the authentication, each header value and the
/// body; keys and the timeout as they were.
pub open spec fn request_resolved(c: RequestConfigView, r: RequestConfigView, env: Seq<(Seq<char>, Seq<char>)>) -> bool {
    &&& resolves_to(c.method, env, r.method)
    &&& resolves_to(c.url, env, r.url)
    &&& opt_values_resolved(c.params, r.params, env)
    &&& auth_resolved(c.auth, r.auth, env)
    &&& opt_values_resolved(c.headers, r.headers, env)
    &&& opt_text_resolved(c.body, r.body, env)
    &&& r.timeout == c.timeout
}

proof fn lemma_resolve_pairs_resolves_each(ps: Seq<(Seq<char>, Seq<char>)>, env: Seq<(Seq<char>, Seq<char>)>)
    ensures
        resolve_pairs(ps, env).1 is None <==> all_values_resolve(ps, env),
        resolve_pairs(ps, env).1 is None ==> values_resolved(ps, resolve_pairs(ps, env).0, env),
    decreases ps.len(),
{
    if ps.len() > 0 {
        let tail = ps.drop_first();
        lemma_resolve_pairs_resolves_each(tail, env);
        assert forall|k: int| 0 <= k < tail.len() implies #[trigger] tail[k] == ps[k + 1] by {}
        match resolve_placeholders(ps[0].1, env) {
            Err(e) => {
                assert(!(resolve_placeholders(ps[0].1, env) is Ok));
            },
            Ok(v) => {
                let rest = resolve_pairs(tail, env);
                let out = seq![(ps[0].0, v)] + rest.0;
                if all_values_resolve(tail, env) {
                    assert forall|k: int| 0 <= k < ps.len() implies (#[trigger] resolve_placeholders(ps[k].1, env)) is Ok by {
                        if k > 0 {
                            assert(ps[k] == tail[k - 1]);
                        }
                    }
                    assert forall|k: int| 0 <= k < ps.len() implies (#[trigger] out[k]).0 == ps[k].0 && resolves_to(
                        ps[k].1,
                        env,
                        out[k].1,
                    ) by {
                        if k > 0 {
                            assert(out[k] == rest.0[k - 1]);
                            assert(ps[k] == tail[k - 1]);
                        }
                    }
                } else {
                    let j = choose|j: int| 0 <= j < tail.len() && !(#[trigger] resolve_placeholders(tail[j].1, env) is Ok);
                    assert(ps[j + 1] == tail[j]);
                    assert(!(resolve_placeholders(ps[j + 1].1, env) is Ok));
                }
            },
        }
    }
}

/// Resolving a request's placeholders succeeds exactly when every one of its
/// texts resolves, the second and later query parameters and headers as much
/// as the first; and then each text of the result is the resolution of the
/// text it came from, keys and timeout kept.
pub proof fn law_resolution_resolves_every_value(c: RequestConfigView, env: Seq<(Seq<char>, Seq<char>)>)
    ensures
        resolve_config(c, env).1 is None <==> request_resolves(c, env),
        resolve_config(c, env).1 is None ==> request_resolved(c, resolve_config(c, env).0, env),
{
    if let Some(ps) = c.params {
        lemma_resolve_pairs_resolves_each(ps, env);
    }
    if let Some(hs) = c.headers {
        lemma_resolve_pairs_resolves_each(hs, env);
    }
}

/// A prepared request carries the authentication of the request it was made
/// from, each of its texts resolved: a basic one keeps its user name and its
/// password (or lack of one).
pub proof fn law_prepared_request_keeps_its_auth(c: RequestConfigView, env: Seq<(Seq<char>, Seq<char>)>)
    ensures
        spec_prepare_request(c, env) matches Ok(p) ==> {
            &&& p.auth == resolve_config(c, env).0.auth
            &&& auth_resolved(c.auth, p.auth, env)
        },
{
    law_resolution_resolves_every_value(c, env);
}

/// `a` and `b` agree on their first `k` characters, and there `a` ends
/// while `b` goes on, or `a` has the smaller character.
pub open spec fn differs_first_at(a: Seq<char>, b: Seq<char>, k: int) -> bool {
    &&& 0 <= k <= a.len()
    &&& k < b.len()
    &&& a.subrange(0, k) == b.subrange(0, k)
    &&& (k == a.len() || (a[k] as u32) < (b[k] as u32))
}

/// The standard order of strings: `a` is a proper prefix of `b`, or at the
/// first place where they differ `a` has the smaller character.
pub open spec fn lexicographically_before(a: Seq<char>, b: Seq<char>) -> bool {
    exists|k: int| #[trigger] differs_first_at(a, b, k)
}

/// The order in which listings sort file names is the standard order of
/// strings, in which a proper prefix comes first.
pub proof fn law_names_sort_lexicographically(a: Seq<char>, b: Seq<char>)
    ensures
        crate::collections::name_less(a, b) <==> lexicographically_before(a, b),
    decreases a.len(),
{
    if b.len() == 0 {
        if lexicographically_before(a, b) {
            let k = choose|k: int| #[trigger] differs_first_at(a, b, k);
        }
    } else if a.len() == 0 {
        assert(a.subrange(0, 0) =~= b.subrange(0, 0));
        assert(differs_first_at(a, b, 0));
    } else if (a[0] as u32) < (b[0] as u32) {
        assert(a.subrange(0, 0) =~= b.subrange(0, 0));
        assert(differs_first_at(a, b, 0));
    } else if a[0] == b[0] {
        let a1 = a.drop_first();
        let b1 = b.drop_first();
        law_names_sort_lexicographically(a1, b1);
        if lexicographically_before(a, b) {
            let k = choose|k: int| #[trigger] differs_first_at(a, b, k);
            assert(k > 0);
            assert(a1.subrange(0, k - 1) =~= a.subrange(0, k).drop_first());
            assert(b1.subrange(0, k - 1) =~= b.subrange(0, k).drop_first());
            assert(differs_first_at(a1, b1, k - 1));
        }
        if lexicographically_before(a1, b1) {
            let k = choose|k: int| #[trigger] differs_first_at(a1, b1, k);
            assert(a.subrange(0, k + 1) =~= seq![a[0]] + a1.subrange(0, k));
            assert(b.subrange(0, k + 1) =~= seq![b[0]] + b1.subrange(0, k));
            assert(differs_first_at(a, b, k + 1));
        }
    } else {
        if lexicographically_before(a, b) {
            let k = choose|k: int| #[trigger] differs_first_at(a, b, k);
            if k > 0 {
                assert(a.subrange(0, k)[0] == b.subrange(0, k)[0]);
            }
        }
    }
}

/// A name that is a proper prefix of another is listed before it: `users`
/// before `users-admin`.
pub proof fn law_prefix_is_listed_first(a: Seq<char>, s: Seq<char>)
    requires
        s.len() > 0,
    ensures
        crate::collections::name_less(a, a + s),
        !crate::collections::name_less(a + s, a),
{
    law_names_sort_lexicographically(a, a + s);
    law_names_sort_lexicographically(a + s, a);
    assert(a.subrange(0, a.len() as int) =~= (a + s).subrange(0, a.len() as int));
    assert(differs_first_at(a, a + s, a.len() as int));
    if lexicographically_before(a + s, a) {
        let k = choose|k: int| #[trigger] differs_first_at(a + s, a, k);
        assert((a + s).subrange(0, k) =~= a.subrange(0, k));
        assert((a + s)[k] == a[k]);
    }
}

/// The name a listing shows for each method is read back as that method: the
/// seven names are the methods' own, distinct from one another, and the name
/// shown for an unknown method reads as none. A request's label starts with
/// that name and a space.
pub proof fn law_listed_method_names_read_back(m: ApiMethods, name: Seq<char>, path: Seq<char>)
    ensures
        crate::tui::spec_api_method_from_name(crate::listing::method_name(Some(m))) == Some(m),
        crate::tui::spec_api_method_from_name(crate::listing::method_name(None)) is None,
        ({
            let w = crate::listing::method_name(Some(m));
            let label = crate::listing::request_label(Some(m), name, path);
            &&& label.subrange(0, w.len() as int) == w
            &&& label[w.len() as int] == ' '
        }),
{
    reveal_strlit("GET");
    reveal_strlit("POST");
    reveal_strlit("PUT");
    reveal_strlit("PATCH");
    reveal_strlit("DELETE");
    reveal_strlit("HEAD");
    reveal_strlit("OPTIONS");
    reveal_strlit("Unknown");
    reveal_strlit(" ");
    assert("GET"@.len() == 3 && "GET"@[0] == 'G');
    assert("POST"@.len() == 4 && "POST"@[0] == 'P');
    assert("PUT"@.len() == 3 && "PUT"@[0] == 'P');
    assert("PATCH"@.len() == 5 && "PATCH"@[0] == 'P');
    assert("DELETE"@.len() == 6 && "DELETE"@[0] == 'D');
    assert("HEAD"@.len() == 4 && "HEAD"@[0] == 'H');
    assert("OPTIONS"@.len() == 7 && "OPTIONS"@[0] == 'O');
    assert("Unknown"@.len() == 7 && "Unknown"@[0] == 'U');
    let w = crate::listing::method_name(Some(m));
    let label = crate::listing::request_label(Some(m), name, path);
    assert(label.subrange(0, w.len() as int) =~= w);
}

} // verus!
