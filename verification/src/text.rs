//! Character-level helpers shared by the parsers and formatters of the library.
use vstd::prelude::*;

verus! {

/// `String::push` appends one character to the end of the string.
pub assume_specification[ String::push ](s: &mut String, ch: char)
    ensures
        final(s)@ == old(s)@.push(ch),
;

/// The Unicode `White_Space` property: the set that `char::is_whitespace`,
/// `str::trim` and the `\s` class of regular expressions go by.
pub open spec fn is_white_space(c: char) -> bool {
    let u = c as u32;
    ||| 0x9 <= u <= 0xd
    ||| u == 0x20
    ||| u == 0x85
    ||| u == 0xa0
    ||| u == 0x1680
    ||| 0x2000 <= u <= 0x200a
    ||| u == 0x2028
    ||| u == 0x2029
    ||| u == 0x202f
    ||| u == 0x205f
    ||| u == 0x3000
}

/// Tells whether `c` is Unicode white space.
pub fn is_whitespace_char(c: char) -> (b: bool)
    ensures
        b == is_white_space(c),
{
    let u = c as u32;
    (0x9 <= u && u <= 0xd) || u == 0x20 || u == 0x85 || u == 0xa0 || u == 0x1680 || (0x2000 <= u
        && u <= 0x200a) || u == 0x2028 || u == 0x2029 || u == 0x202f || u == 0x205f || u == 0x3000
}

/// The characters of a string slice, in order.
pub fn chars_of(s: &str) -> (v: Vec<char>)
    ensures
        v@ == s@,
{
    let mut v: Vec<char> = Vec::new();
    for c in it: s.chars()
        invariant
            it.seq() == s@,
            v@ == it.seq().take(it.index()),
    {
        assert(it.seq().take(it.index() + 1) == it.seq().take(it.index()).push(it.seq()[it.index()]));
        v.push(c);
    }
    v
}

/// A string made of the characters of `v`.
pub fn string_of(v: &Vec<char>) -> (s: String)
    ensures
        s@ == v@,
{
    let mut s = String::new();
    let mut i: usize = 0;
    while i < v.len()
        invariant
            i <= v.len(),
            s@ == v@.take(i as int),
        decreases v.len() - i,
    {
        s.push(v[i]);
        assert(v@.take(i + 1) == v@.take(i as int).push(v@[i as int]));
        i = i + 1;
    }
    assert(v@.take(v.len() as int) == v@);
    s
}

/// Appends the characters of `tail` to `v`.
pub fn push_all(v: &mut Vec<char>, tail: &Vec<char>)
    ensures
        final(v)@ == old(v)@ + tail@,
{
    let mut i: usize = 0;
    while i < tail.len()
        invariant
            i <= tail.len(),
            v@ == old(v)@ + tail@.take(i as int),
        decreases tail.len() - i,
    {
        v.push(tail[i]);
        assert(tail@.take(i + 1) == tail@.take(i as int).push(tail@[i as int]));
        i = i + 1;
    }
    assert(tail@.take(tail.len() as int) == tail@);
}

/// Tells whether two character sequences are equal.
pub fn chars_eq(a: &Vec<char>, b: &Vec<char>) -> (r: bool)
    ensures
        r == (a@ == b@),
{
    if a.len() != b.len() {
        return false;
    }
    let mut i: usize = 0;
    while i < a.len()
        invariant
            i <= a.len(),
            a.len() == b.len(),
            forall|k: int| 0 <= k < i ==> a@[k] == b@[k],
        decreases a.len() - i,
    {
        if a[i] != b[i] {
            return false;
        }
        i = i + 1;
    }
    assert(a@ =~= b@);
    true
}

/// The view of a `Result` of two strings.
pub open spec fn str_result_view(r: Result<String, String>) -> Result<Seq<char>, Seq<char>> {
    match r {
        Ok(s) => Ok(s@),
        Err(e) => Err(e@),
    }
}

/// Index of the first non-white-space character at or after `i` (or the length).
pub open spec fn first_non_ws_from(s: Seq<char>, i: int) -> int
    decreases s.len() - i,
{
    if i < 0 || i >= s.len() {
        s.len() as int
    } else if is_white_space(s[i]) {
        first_non_ws_from(s, i + 1)
    } else {
        i
    }
}

/// One past the last non-white-space character at or before `j - 1` (or 0).
pub open spec fn last_non_ws_end(s: Seq<char>, j: int) -> int
    decreases j,
{
    if j <= 0 || j > s.len() {
        0
    } else if is_white_space(s[j - 1]) {
        last_non_ws_end(s, j - 1)
    } else {
        j
    }
}

/// `s` without its leading and trailing white space, as `str::trim` gives it.
pub open spec fn trim(s: Seq<char>) -> Seq<char> {
    let a = first_non_ws_from(s, 0);
    let b = last_non_ws_end(s, s.len() as int);
    if a >= b {
        Seq::empty()
    } else {
        s.subrange(a, b)
    }
}

/// The first non-white-space index from `i` lies between `i` and the end,
/// with only white space before it.
pub proof fn lemma_first_non_ws_bounds(s: Seq<char>, i: int)
    requires
        0 <= i <= s.len(),
    ensures
        i <= first_non_ws_from(s, i) <= s.len(),
        forall|k: int| i <= k < first_non_ws_from(s, i) ==> is_white_space(#[trigger] s[k]),
        first_non_ws_from(s, i) < s.len() ==> !is_white_space(s[first_non_ws_from(s, i)]),
    decreases s.len() - i,
{
    if i < s.len() && is_white_space(s[i]) {
        lemma_first_non_ws_bounds(s, i + 1);
    }
}

proof fn lemma_last_non_ws_bounds(s: Seq<char>, j: int)
    requires
        0 <= j <= s.len(),
    ensures
        0 <= last_non_ws_end(s, j) <= j,
        forall|k: int| last_non_ws_end(s, j) <= k < j ==> is_white_space(#[trigger] s[k]),
        last_non_ws_end(s, j) > 0 ==> !is_white_space(s[last_non_ws_end(s, j) - 1]),
    decreases j,
{
    if j > 0 && is_white_space(s[j - 1]) {
        lemma_last_non_ws_bounds(s, j - 1);
    }
}

/// `v` without its leading and trailing white space.
pub fn trim_chars(v: &Vec<char>) -> (r: Vec<char>)
    ensures
        r@ == trim(v@),
{
    let n = v.len();
    let mut a: usize = 0;
    while a < n && is_whitespace_char(v[a])
        invariant
            a <= n,
            n == v.len(),
            first_non_ws_from(v@, 0) == first_non_ws_from(v@, a as int),
        decreases n - a,
    {
        a = a + 1;
    }
    let mut b: usize = n;
    while b > a && is_whitespace_char(v[b - 1])
        invariant
            a <= b <= n,
            n == v.len(),
            last_non_ws_end(v@, n as int) == last_non_ws_end(v@, b as int),
        decreases b,
    {
        b = b - 1;
    }
    proof {
        lemma_first_non_ws_bounds(v@, 0);
        lemma_last_non_ws_bounds(v@, n as int);
        lemma_last_non_ws_bounds(v@, b as int);
    }
    let mut r: Vec<char> = Vec::new();
    let mut i: usize = a;
    while i < b
        invariant
            a <= i <= b <= n,
            n == v.len(),
            r@ == v@.subrange(a as int, i as int),
        decreases b - i,
    {
        r.push(v[i]);
        assert(v@.subrange(a as int, i + 1) == v@.subrange(a as int, i as int).push(v@[i as int]));
        i = i + 1;
    }
    proof {
        let fa = first_non_ws_from(v@, 0);
        let lb = last_non_ws_end(v@, n as int);
        if a < n {
            assert(fa == a);
            if b > a {
                assert(lb == b);
            } else {
                assert(lb <= a);
            }
        } else {
            assert(fa == n);
            assert(b == a);
        }
    }
    r
}

} // verus!
