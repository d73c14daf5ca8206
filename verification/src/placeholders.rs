//! Environment placeholders `{{ NAME }}` in the text of a saved request.
use vstd::prelude::*;

use crate::text::{chars_of, first_non_ws_from, is_whitespace_char, lemma_first_non_ws_bounds, push_all, str_result_view, string_of};
use crate::types::{pairs_view, AuthConfig, AuthView, Pairs, RequestBody, RequestConfig, RequestConfigView};

verus! {

/// The environment a request is resolved in: names and values, looked up in order.
pub struct EnvVars {
    pub vars: Vec<(String, String)>,
}

impl View for EnvVars {
    type V = Seq<(Seq<char>, Seq<char>)>;

    open spec fn view(&self) -> Seq<(Seq<char>, Seq<char>)> {
        pairs_view(self.vars@)
    }
}

/// The value of the first variable of `env` named `key`.
pub open spec fn env_lookup(env: Seq<(Seq<char>, Seq<char>)>, key: Seq<char>) -> Option<Seq<char>>
    decreases env.len(),
{
    if env.len() == 0 {
        None
    } else if env[0].0 == key {
        Some(env[0].1)
    } else {
        env_lookup(env.drop_first(), key)
    }
}

/// A character that may start a placeholder name: `[A-Za-z_]`.
pub open spec fn is_name_start(c: char) -> bool {
    ('A' <= c && c <= 'Z') || ('a' <= c && c <= 'z') || c == '_'
}

/// A character that may continue a placeholder name: `[A-Za-z0-9_]`.
pub open spec fn is_name_char(c: char) -> bool {
    is_name_start(c) || ('0' <= c && c <= '9')
}

/// Index of the first character at or after `j` that cannot continue a name (or the length).
pub open spec fn name_end(s: Seq<char>, j: int) -> int
    decreases s.len() - j,
{
    if j < 0 || j >= s.len() {
        s.len() as int
    } else if is_name_char(s[j]) {
        name_end(s, j + 1)
    } else {
        j
    }
}

/// The placeholder `{{ NAME }}` that starts at `p`, if any: the index just past
/// it, and where its name starts and ends. This is what the pattern
/// `\{\{\s*([A-Za-z_][A-Za-z0-9_]*)\s*\}\}` matches at `p`.
pub open spec fn placeholder_at(s: Seq<char>, p: int) -> Option<(int, int, int)> {
    if 0 <= p && p + 1 < s.len() && s[p] == '{' && s[p + 1] == '{' {
        let a = first_non_ws_from(s, p + 2);
        if a < s.len() && is_name_start(s[a]) {
            let b = name_end(s, a + 1);
            let c = first_non_ws_from(s, b);
            if c + 1 < s.len() && s[c] == '}' && s[c + 1] == '}' {
                Some((c + 2, a, b))
            } else {
                None
            }
        } else {
            None
        }
    } else {
        None
    }
}

/// The message for a placeholder whose variable is not set.
pub open spec fn missing_variable_message(key: Seq<char>) -> Seq<char> {
    "Missing environment variable: "@ + key
}

proof fn lemma_name_end_ge(s: Seq<char>, j: int)
    requires
        0 <= j <= s.len(),
    ensures
        j <= name_end(s, j) <= s.len(),
    decreases s.len() - j,
{
    if j < s.len() && is_name_char(s[j]) {
        lemma_name_end_ge(s, j + 1);
    }
}

/// A placeholder found at `p` ends after it, and its name lies inside it.
pub proof fn lemma_placeholder_bounds(s: Seq<char>, p: int)
    ensures
        placeholder_at(s, p) matches Some((e, a, b)) ==> p + 2 <= a < b < e && e <= s.len(),
{
    if 0 <= p && p + 1 < s.len() && s[p] == '{' && s[p + 1] == '{' {
        lemma_first_non_ws_bounds(s, p + 2);
        let a = first_non_ws_from(s, p + 2);
        if a < s.len() && is_name_start(s[a]) {
            lemma_name_end_ge(s, a + 1);
            let b = name_end(s, a + 1);
            lemma_first_non_ws_bounds(s, b);
        }
    }
}

/// The text of `s` from `i` on with every placeholder replaced by the value of
/// its variable, or the message for the first placeholder whose variable is missing.
pub open spec fn resolve_from(s: Seq<char>, i: int, env: Seq<(Seq<char>, Seq<char>)>) -> Result<
    Seq<char>,
    Seq<char>,
>
    decreases s.len() - i,
{
    if i < 0 || i >= s.len() {
        Ok(Seq::empty())
    } else {
        match placeholder_at(s, i) {
            Some((e, a, b)) => {
                proof {
                    lemma_placeholder_bounds(s, i);
                }
                match env_lookup(env, s.subrange(a, b)) {
                    None => Err(missing_variable_message(s.subrange(a, b))),
                    Some(v) => match resolve_from(s, e, env) {
                        Ok(rest) => Ok(v + rest),
                        Err(m) => Err(m),
                    },
                }
            },
            None => match resolve_from(s, i + 1, env) {
                Ok(rest) => Ok(seq![s[i]] + rest),
                Err(m) => Err(m),
            },
        }
    }
}

/// `s` with its placeholders resolved in `env`.
pub open spec fn resolve_placeholders(s: Seq<char>, env: Seq<(Seq<char>, Seq<char>)>) -> Result<
    Seq<char>,
    Seq<char>,
> {
    resolve_from(s, 0, env)
}

/// `done` put in front of the text that `r` resolves to.
pub open spec fn prepend_resolved(done: Seq<char>, r: Result<Seq<char>, Seq<char>>) -> Result<
    Seq<char>,
    Seq<char>,
> {
    match r {
        Ok(rest) => Ok(done + rest),
        Err(m) => Err(m),
    }
}

/// The value of the variable `key` in `env`.
pub fn lookup_env(env: &EnvVars, key: &Vec<char>) -> (r: Option<String>)
    ensures
        match r {
            Some(v) => env_lookup(env@, key@) == Some(v@),
            None => env_lookup(env@, key@) is None,
        },
{
    let key_string = string_of(key);
    let mut i: usize = 0;
    assert(env@.skip(0) == env@);
    while i < env.vars.len()
        invariant
            i <= env.vars.len(),
            key_string@ == key@,
            env_lookup(env@, key@) == env_lookup(env@.skip(i as int), key@),
        decreases env.vars.len() - i,
    {
        assert(env@.skip(i as int).drop_first() == env@.skip(i + 1));
        if env.vars[i].0 == key_string {
            return Some(env.vars[i].1.clone());
        }
        i = i + 1;
    }
    None
}

fn skip_white_space(v: &Vec<char>, j: usize) -> (r: usize)
    requires
        j <= v.len(),
    ensures
        r == first_non_ws_from(v@, j as int),
{
    let mut k = j;
    while k < v.len() && is_whitespace_char(v[k])
        invariant
            j <= k <= v.len(),
            first_non_ws_from(v@, j as int) == first_non_ws_from(v@, k as int),
        decreases v.len() - k,
    {
        k = k + 1;
    }
    k
}

fn skip_name(v: &Vec<char>, j: usize) -> (r: usize)
    requires
        j <= v.len(),
    ensures
        r == name_end(v@, j as int),
{
    let mut k = j;
    while k < v.len() && (('A' <= v[k] && v[k] <= 'Z') || ('a' <= v[k] && v[k] <= 'z') || v[k]
        == '_' || ('0' <= v[k] && v[k] <= '9'))
        invariant
            j <= k <= v.len(),
            name_end(v@, j as int) == name_end(v@, k as int),
        decreases v.len() - k,
    {
        k = k + 1;
    }
    k
}

/// The placeholder that starts at `p` in `v`, if any.
fn find_placeholder_at(v: &Vec<char>, p: usize) -> (r: Option<(usize, usize, usize)>)
    requires
        p < v.len(),
    ensures
        match r {
            Some((e, a, b)) => placeholder_at(v@, p as int) == Some((e as int, a as int, b as int)),
            None => placeholder_at(v@, p as int) is None,
        },
{
    if p + 1 < v.len() && v[p] == '{' && v[p + 1] == '{' {
        let a = skip_white_space(v, p + 2);
        if a < v.len() && (('A' <= v[a] && v[a] <= 'Z') || ('a' <= v[a] && v[a] <= 'z') || v[a]
            == '_') {
            proof {
                lemma_name_end_ge(v@, a + 1);
            }
            let b = skip_name(v, a + 1);
            proof {
                lemma_first_non_ws_bounds(v@, b as int);
            }
            let c = skip_white_space(v, b);
            if c < v.len() && c + 1 < v.len() && v[c] == '}' && v[c + 1] == '}' {
                return Some((c + 2, a, b));
            }
        }
    }
    None
}

/// `value` with every placeholder `{{ NAME }}` (white space allowed around the
/// name) replaced by the value of the variable `NAME` in `env`, scanning left to
/// right; the first placeholder whose variable is missing gives
/// `Missing environment variable: NAME`.
pub fn resolve_env_placeholders(value: &str, env: &EnvVars) -> (r: Result<String, String>)
    ensures
        str_result_view(r) == resolve_placeholders(value@, env@),
{
    let v = chars_of(value);
    let mut out: Vec<char> = Vec::new();
    let mut i: usize = 0;
    while i < v.len()
        invariant
            i <= v.len(),
            v@ == value@,
            resolve_placeholders(value@, env@) == prepend_resolved(
                out@,
                resolve_from(v@, i as int, env@),
            ),
        decreases v.len() - i,
    {
        proof {
            lemma_placeholder_bounds(v@, i as int);
        }
        match find_placeholder_at(&v, i) {
            Some((e, a, b)) => {
                let mut key: Vec<char> = Vec::new();
                let mut k: usize = a;
                while k < b
                    invariant
                        a <= k <= b,
                        b < v.len(),
                        key@ == v@.subrange(a as int, k as int),
                    decreases b - k,
                {
                    assert(v@.subrange(a as int, k + 1) == v@.subrange(a as int, k as int).push(
                        v@[k as int],
                    ));
                    key.push(v[k]);
                    k = k + 1;
                }
                match lookup_env(env, &key) {
                    None => {
                        let mut msg = chars_of("Missing environment variable: ");
                        push_all(&mut msg, &key);
                        return Err(string_of(&msg));
                    },
                    Some(val) => {
                        let val_chars = chars_of(val.as_str());
                        let ghost old_out = out@;
                        push_all(&mut out, &val_chars);
                        assert(prepend_resolved(old_out, resolve_from(v@, i as int, env@))
                            == prepend_resolved(out@, resolve_from(v@, e as int, env@))) by {
                            match resolve_from(v@, e as int, env@) {
                                Ok(rest) => {
                                    assert(old_out + (val@ + rest) == out@ + rest);
                                },
                                Err(m) => {},
                            }
                        }
                        i = e;
                    },
                }
            },
            None => {
                let ghost old_out = out@;
                out.push(v[i]);
                assert(prepend_resolved(old_out, resolve_from(v@, i as int, env@))
                    == prepend_resolved(out@, resolve_from(v@, i + 1, env@))) by {
                    match resolve_from(v@, i + 1, env@) {
                        Ok(rest) => {
                            assert(old_out + (seq![v@[i as int]] + rest) == out@ + rest);
                        },
                        Err(m) => {},
                    }
                }
                i = i + 1;
            },
        }
    }
    assert(out@ + Seq::<char>::empty() == out@);
    Ok(string_of(&out))
}

/// Resolves the values of `ps` in order, keeping the keys; at the first value
/// that fails, that value and the ones after it stay as they were.
pub open spec fn resolve_pairs(
    ps: Seq<(Seq<char>, Seq<char>)>,
    env: Seq<(Seq<char>, Seq<char>)>,
) -> (Seq<(Seq<char>, Seq<char>)>, Option<Seq<char>>)
    decreases ps.len(),
{
    if ps.len() == 0 {
        (ps, None)
    } else {
        match resolve_placeholders(ps[0].1, env) {
            Err(e) => (ps, Some(e)),
            Ok(v) => {
                let rest = resolve_pairs(ps.drop_first(), env);
                (seq![(ps[0].0, v)] + rest.0, rest.1)
            },
        }
    }
}

/// Resolves the method, then the URL.
pub open spec fn resolve_method_url_stage(c: RequestConfigView, env: Seq<(Seq<char>, Seq<char>)>) -> (
    RequestConfigView,
    Option<Seq<char>>,
) {
    match resolve_placeholders(c.method, env) {
        Err(e) => (c, Some(e)),
        Ok(m) => match resolve_placeholders(c.url, env) {
            Err(e) => (RequestConfigView { method: m, ..c }, Some(e)),
            Ok(u) => (RequestConfigView { method: m, url: u, ..c }, None),
        },
    }
}

/// Resolves the query parameters.
pub open spec fn resolve_params_stage(c: RequestConfigView, env: Seq<(Seq<char>, Seq<char>)>) -> (
    RequestConfigView,
    Option<Seq<char>>,
) {
    match c.params {
        None => (c, None),
        Some(ps) => {
            let (ps2, e) = resolve_pairs(ps, env);
            (RequestConfigView { params: Some(ps2), ..c }, e)
        },
    }
}

/// Resolves the authentication: the user name then the password, or the token.
pub open spec fn resolve_auth_stage(c: RequestConfigView, env: Seq<(Seq<char>, Seq<char>)>) -> (
    RequestConfigView,
    Option<Seq<char>>,
) {
    match c.auth {
        None => (c, None),
        Some(AuthView::Basic { username, password }) => match resolve_placeholders(username, env) {
            Err(e) => (c, Some(e)),
            Ok(u) => match password {
                None => (
                    RequestConfigView {
                        auth: Some(AuthView::Basic { username: u, password: None }),
                        ..c
                    },
                    None,
                ),
                Some(pw) => match resolve_placeholders(pw, env) {
                    Err(e) => (
                        RequestConfigView {
                            auth: Some(AuthView::Basic { username: u, password: Some(pw) }),
                            ..c
                        },
                        Some(e),
                    ),
                    Ok(p2) => (
                        RequestConfigView {
                            auth: Some(AuthView::Basic { username: u, password: Some(p2) }),
                            ..c
                        },
                        None,
                    ),
                },
            },
        },
        Some(AuthView::Bearer { token }) => match resolve_placeholders(token, env) {
            Err(e) => (c, Some(e)),
            Ok(t) => (RequestConfigView { auth: Some(AuthView::Bearer { token: t }), ..c }, None),
        },
    }
}

/// Resolves the header values.
pub open spec fn resolve_headers_stage(c: RequestConfigView, env: Seq<(Seq<char>, Seq<char>)>) -> (
    RequestConfigView,
    Option<Seq<char>>,
) {
    match c.headers {
        None => (c, None),
        Some(hs) => {
            let (hs2, e) = resolve_pairs(hs, env);
            (RequestConfigView { headers: Some(hs2), ..c }, e)
        },
    }
}

/// Resolves the body.
pub open spec fn resolve_body_stage(c: RequestConfigView, env: Seq<(Seq<char>, Seq<char>)>) -> (
    RequestConfigView,
    Option<Seq<char>>,
) {
    match c.body {
        None => (c, None),
        Some(b) => match resolve_placeholders(b, env) {
            Err(e) => (c, Some(e)),
            Ok(b2) => (RequestConfigView { body: Some(b2), ..c }, None),
        },
    }
}

/// A request with its placeholders resolved, in the order method, URL, query
/// parameters, authentication, headers, body; resolution stops at the first
/// failure, whose message comes with the request as far as it got.
pub open spec fn resolve_config(c: RequestConfigView, env: Seq<(Seq<char>, Seq<char>)>) -> (
    RequestConfigView,
    Option<Seq<char>>,
) {
    let s1 = resolve_method_url_stage(c, env);
    if s1.1 is Some {
        s1
    } else {
        let s2 = resolve_params_stage(s1.0, env);
        if s2.1 is Some {
            s2
        } else {
            let s3 = resolve_auth_stage(s2.0, env);
            if s3.1 is Some {
                s3
            } else {
                let s4 = resolve_headers_stage(s3.0, env);
                if s4.1 is Some {
                    s4
                } else {
                    resolve_body_stage(s4.0, env)
                }
            }
        }
    }
}

/// The error of a `Result` of nothing or a string, as an optional message.
pub open spec fn unit_result_error(r: Result<(), String>) -> Option<Seq<char>> {
    match r {
        Ok(()) => None,
        Err(e) => Some(e@),
    }
}

/// Resolves the values of `ps` in place.
pub fn resolve_pairs_in_place(ps: &mut Pairs, env: &EnvVars) -> (r: Result<(), String>)
    ensures
        pairs_view(final(ps)@) == resolve_pairs(pairs_view(old(ps)@), env@).0,
        unit_result_error(r) == resolve_pairs(pairs_view(old(ps)@), env@).1,
{
    let ghost orig = pairs_view(ps@);
    let mut i: usize = 0;
    assert(orig.skip(0) == orig);
    assert(pairs_view(ps@).take(0) + orig == orig);
    while i < ps.len()
        invariant
            i <= ps.len(),
            orig == pairs_view(old(ps)@),
            ps.len() == orig.len(),
            pairs_view(ps@).skip(i as int) == orig.skip(i as int),
            resolve_pairs(orig, env@) == (
                pairs_view(ps@).take(i as int) + resolve_pairs(orig.skip(i as int), env@).0,
                resolve_pairs(orig.skip(i as int), env@).1,
            ),
        decreases ps.len() - i,
    {
        let ghost rest = orig.skip(i as int);
        assert(rest[0] == orig[i as int]);
        assert(rest.drop_first() == orig.skip(i + 1));
        assert(pairs_view(ps@)[i as int] == orig[i as int]);
        match resolve_env_placeholders(ps[i].1.as_str(), env) {
            Err(e) => {
                assert(pairs_view(ps@).take(i as int) + rest == pairs_view(ps@));
                return Err(e);
            },
            Ok(v) => {
                let ghost before = pairs_view(ps@);
                let k = ps[i].0.clone();
                ps.set(i, (k, v));
                assert(pairs_view(ps@) == before.update(i as int, (orig[i as int].0, v@)));
                assert(pairs_view(ps@).take(i + 1) == before.take(i as int) + seq![
                    (orig[i as int].0, v@),
                ]);
                assert(pairs_view(ps@).skip(i + 1) == orig.skip(i + 1));
                i = i + 1;
            },
        }
    }
    assert(orig.skip(i as int) == Seq::<(Seq<char>, Seq<char>)>::empty());
    assert(pairs_view(ps@).take(i as int) == pairs_view(ps@));
    Ok(())
}

/// Replaces, in place, every placeholder in the method, URL, query parameter
/// values, authentication, header values and body of `request_config` with
/// the value of its variable in `env`. At the first placeholder whose
/// variable is missing it stops and returns the message; what was resolved
/// before stays resolved.
pub fn resolve_request_placeholders(request_config: &mut RequestConfig, env: &EnvVars) -> (r: Result<
    (),
    String,
>)
    ensures
        final(request_config)@ == resolve_config(old(request_config)@, env@).0,
        unit_result_error(r) == resolve_config(old(request_config)@, env@).1,
{
    let ghost c0 = request_config@;
    match resolve_env_placeholders(request_config.method.as_str(), env) {
        Err(e) => {
            return Err(e);
        },
        Ok(m) => {
            request_config.method = m;
        },
    }
    match resolve_env_placeholders(request_config.url.as_str(), env) {
        Err(e) => {
            return Err(e);
        },
        Ok(u) => {
            request_config.url = u;
        },
    }
    let ghost c1 = request_config@;
    assert(c1 == resolve_method_url_stage(c0, env@).0);
    match request_config.params.take() {
        None => {},
        Some(mut ps) => {
            let res = resolve_pairs_in_place(&mut ps, env);
            request_config.params = Some(ps);
            if let Err(e) = res {
                return Err(e);
            }
        },
    }
    let ghost c2 = request_config@;
    assert(c2 == resolve_params_stage(c1, env@).0);
    match request_config.auth.take() {
        None => {},
        Some(AuthConfig::Basic { username, password }) => {
            match resolve_env_placeholders(username.as_str(), env) {
                Err(e) => {
                    request_config.auth = Some(AuthConfig::Basic { username, password });
                    assert(request_config@ == c2);
                    return Err(e);
                },
                Ok(u) => match password {
                    None => {
                        request_config.auth = Some(AuthConfig::Basic { username: u, password: None });
                    },
                    Some(pw) => match resolve_env_placeholders(pw.as_str(), env) {
                        Err(e) => {
                            request_config.auth = Some(
                                AuthConfig::Basic { username: u, password: Some(pw) },
                            );
                            return Err(e);
                        },
                        Ok(p2) => {
                            request_config.auth = Some(
                                AuthConfig::Basic { username: u, password: Some(p2) },
                            );
                        },
                    },
                },
            }
        },
        Some(AuthConfig::Bearer { token }) => {
            match resolve_env_placeholders(token.as_str(), env) {
                Err(e) => {
                    request_config.auth = Some(AuthConfig::Bearer { token });
                    assert(request_config@ == c2);
                    return Err(e);
                },
                Ok(t) => {
                    request_config.auth = Some(AuthConfig::Bearer { token: t });
                },
            }
        },
    }
    let ghost c3 = request_config@;
    assert(c3 == resolve_auth_stage(c2, env@).0);
    match request_config.headers.take() {
        None => {},
        Some(mut hs) => {
            let res = resolve_pairs_in_place(&mut hs, env);
            request_config.headers = Some(hs);
            if let Err(e) = res {
                return Err(e);
            }
        },
    }
    let ghost c4 = request_config@;
    assert(c4 == resolve_headers_stage(c3, env@).0);
    match request_config.body.take() {
        None => {},
        Some(b) => {
            match resolve_env_placeholders(b.content.as_str(), env) {
                Err(e) => {
                    request_config.body = Some(b);
                    assert(request_config@ == c4);
                    return Err(e);
                },
                Ok(content) => {
                    request_config.body = Some(RequestBody { content });
                },
            }
        },
    }
    Ok(())
}

} // verus!
