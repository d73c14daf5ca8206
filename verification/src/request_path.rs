//! Where a request named `collection/name` is stored on disk.
use vstd::prelude::*;

use crate::text::{chars_eq, chars_of, push_all, str_result_view, string_of, trim, trim_chars};

verus! {

/// `PathBuf::join` of a relative segment onto `base`, with `/` as the separator:
/// a separator is put between them unless `base` is empty or already ends in one.
pub open spec fn path_join(base: Seq<char>, seg: Seq<char>) -> Seq<char> {
    if base.len() == 0 || base.last() == '/' {
        base + seg
    } else {
        base.push('/') + seg
    }
}

/// Joins each of `segs`, in order, onto `base`.
pub open spec fn join_segments(base: Seq<char>, segs: Seq<Seq<char>>) -> Seq<char>
    decreases segs.len(),
{
    if segs.len() == 0 {
        base
    } else {
        path_join(join_segments(base, segs.drop_last()), segs.last())
    }
}

/// The pieces of `s[start..]` between occurrences of `sep`, scanning from `i`.
pub open spec fn split_from(s: Seq<char>, sep: char, i: int, start: int) -> Seq<Seq<char>>
    decreases s.len() - i,
{
    if i >= s.len() {
        seq![s.subrange(start, s.len() as int)]
    } else if s[i] == sep {
        seq![s.subrange(start, i)] + split_from(s, sep, i + 1, i + 1)
    } else {
        split_from(s, sep, i + 1, start)
    }
}

/// `str::split(sep)`: the pieces of `s` between occurrences of `sep`
/// (one empty piece for an empty `s`).
pub open spec fn split_on(s: Seq<char>, sep: char) -> Seq<Seq<char>> {
    split_from(s, sep, 0, 0)
}

/// `s` ends with `suffix`.
pub open spec fn ends_with(s: Seq<char>, suffix: Seq<char>) -> bool {
    s.len() >= suffix.len() && s.subrange(s.len() - suffix.len(), s.len() as int) == suffix
}

/// A segment of a request path: not empty, not `.` and not `..`.
pub open spec fn valid_segment(seg: Seq<char>) -> bool {
    seg.len() > 0 && seg != seq!['.'] && seg != seq!['.', '.']
}

/// The folder that holds all collections, under the project folder `base`.
pub open spec fn collections_dir(base: Seq<char>) -> Seq<char> {
    path_join(path_join(base, ".rivet"@), "collections"@)
}

/// What resolving `request` against the project folder `base` gives: the first
/// rule that the trimmed request path breaks, or the path of its TOML file.
pub open spec fn spec_request_file_path(base: Seq<char>, request: Seq<char>) -> Result<
    Seq<char>,
    Seq<char>,
> {
    let t = trim(request);
    let segs = split_on(t, '/');
    if t.len() == 0 {
        Err("Request path cannot be empty"@)
    } else if ends_with(t, ".toml"@) {
        Err("Request path should not include the .toml extension"@)
    } else if t.contains('\\') {
        Err("Request path must use / as the separator"@)
    } else if segs.len() < 2 {
        Err("Request path must use collection/name format"@)
    } else if exists|k: int| 0 <= k < segs.len() && !valid_segment(#[trigger] segs[k]) {
        Err("Request path contains an invalid segment"@)
    } else {
        Ok(
            path_join(
                join_segments(collections_dir(base), segs.drop_last()),
                segs.last() + ".toml"@,
            ),
        )
    }
}

/// The character sequences held in a vector of character vectors.
pub open spec fn seqs_view(v: Seq<Vec<char>>) -> Seq<Seq<char>> {
    v.map_values(|x: Vec<char>| x@)
}

/// Joins `seg` onto the path `p`.
pub fn push_path_segment(p: &mut Vec<char>, seg: &Vec<char>)
    ensures
        final(p)@ == path_join(old(p)@, seg@),
{
    if p.len() != 0 && p[p.len() - 1] != '/' {
        p.push('/');
    }
    push_all(p, seg);
}

/// `str::split(sep)` on a character sequence.
pub fn split_chars(s: &Vec<char>, sep: char) -> (r: Vec<Vec<char>>)
    ensures
        seqs_view(r@) == split_on(s@, sep),
{
    let mut segs: Vec<Vec<char>> = Vec::new();
    let mut cur: Vec<char> = Vec::new();
    let mut i: usize = 0;
    let ghost mut start: int = 0;
    while i < s.len()
        invariant
            0 <= start <= i <= s.len(),
            cur@ == s@.subrange(start, i as int),
            seqs_view(segs@) + split_from(s@, sep, i as int, start) == split_on(s@, sep),
        decreases s.len() - i,
    {
        if s[i] == sep {
            let ghost old_segs = seqs_view(segs@);
            segs.push(cur);
            assert(seqs_view(segs@) =~= old_segs.push(s@.subrange(start, i as int)));
            assert(old_segs + split_from(s@, sep, i as int, start) =~= seqs_view(segs@)
                + split_from(s@, sep, i + 1, i + 1));
            cur = Vec::new();
            proof {
                start = i + 1;
            }
        } else {
            assert(s@.subrange(start, i + 1) == s@.subrange(start, i as int).push(s@[i as int]));
            cur.push(s[i]);
        }
        i = i + 1;
    }
    let ghost old_segs = seqs_view(segs@);
    segs.push(cur);
    assert(seqs_view(segs@) =~= old_segs + split_from(s@, sep, i as int, start));
    segs
}

/// Where the request `request_path` (written `collection/name`, or with deeper
/// folders `a/b/name`) is stored under the project folder `current_path`:
/// `current_path/.rivet/collections/a/b/name.toml`. The path is trimmed first;
/// it is refused when empty, when it ends in `.toml`, when it holds a `\`,
/// when it has no `/`, or when a segment is empty, `.` or `..`.
#[verifier::loop_isolation(false)]
pub fn resolve_request_file_path(current_path: &str, request_path: &str) -> (r: Result<
    String,
    String,
>)
    ensures
        str_result_view(r) == spec_request_file_path(current_path@, request_path@),
{
    let raw = chars_of(request_path);
    let t = trim_chars(&raw);
    let ghost segs_spec = split_on(t@, '/');

    if t.len() == 0 {
        return Err(String::from_str("Request path cannot be empty"));
    }
    let ext = chars_of(".toml");
    if t.len() >= ext.len() {
        let mut tail: Vec<char> = Vec::new();
        let mut k: usize = t.len() - ext.len();
        while k < t.len()
            invariant
                t.len() >= ext.len(),
                t.len() - ext.len() <= k <= t.len(),
                tail@ == t@.subrange(t.len() - ext.len(), k as int),
            decreases t.len() - k,
        {
            assert(t@.subrange(t.len() - ext.len(), k + 1) == t@.subrange(
                t.len() - ext.len(),
                k as int,
            ).push(t@[k as int]));
            tail.push(t[k]);
            k = k + 1;
        }
        if chars_eq(&tail, &ext) {
            return Err(String::from_str("Request path should not include the .toml extension"));
        }
    }
    assert(!ends_with(t@, ".toml"@));
    let mut j: usize = 0;
    while j < t.len()
        invariant
            j <= t.len(),
            forall|k: int| 0 <= k < j ==> t@[k] != '\\',
        decreases t.len() - j,
    {
        if t[j] == '\\' {
            assert(t@[j as int] == '\\');
            assert(t@.contains('\\'));
            return Err(String::from_str("Request path must use / as the separator"));
        }
        j = j + 1;
    }
    assert(!t@.contains('\\'));
    let segments = split_chars(&t, '/');
    if segments.len() < 2 {
        return Err(String::from_str("Request path must use collection/name format"));
    }
    let dot = chars_of(".");
    let dotdot = chars_of("..");
    assert(dot@ == seq!['.']) by {
        reveal_strlit(".");
    }
    assert(dotdot@ == seq!['.', '.']) by {
        reveal_strlit("..");
    }
    let mut m: usize = 0;
    while m < segments.len()
        invariant
            m <= segments.len(),
            seqs_view(segments@) == segs_spec,
            dot@ == seq!['.'],
            dotdot@ == seq!['.', '.'],
            forall|k: int| 0 <= k < m ==> valid_segment(#[trigger] segs_spec[k]),
        decreases segments.len() - m,
    {
        let seg = &segments[m];
        assert(seg@ == segs_spec[m as int]);
        if seg.len() == 0 || chars_eq(seg, &dot) || chars_eq(seg, &dotdot) {
            assert(!valid_segment(segs_spec[m as int]));
            return Err(String::from_str("Request path contains an invalid segment"));
        }
        m = m + 1;
    }
    assert(forall|k: int| 0 <= k < segs_spec.len() ==> valid_segment(#[trigger] segs_spec[k]));
    let mut path = chars_of(current_path);
    push_path_segment(&mut path, &chars_of(".rivet"));
    push_path_segment(&mut path, &chars_of("collections"));
    let last = segments.len() - 1;
    let mut i: usize = 0;
    while i < last
        invariant
            last == segments.len() - 1,
            i <= last,
            seqs_view(segments@) == segs_spec,
            path@ == join_segments(collections_dir(current_path@), segs_spec.take(i as int)),
        decreases last - i,
    {
        assert(segs_spec.take(i + 1).drop_last() == segs_spec.take(i as int));
        push_path_segment(&mut path, &segments[i]);
        i = i + 1;
    }
    assert(segs_spec.take(last as int) == segs_spec.drop_last());
    let mut file_name: Vec<char> = Vec::new();
    push_all(&mut file_name, &segments[last]);
    push_all(&mut file_name, &ext);
    push_path_segment(&mut path, &file_name);
    Ok(string_of(&path))
}

} // verus!
