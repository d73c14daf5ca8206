//! Turning a saved request into the request that is sent, and presenting the response.
use vstd::prelude::*;

use owo_colors::OwoColorize;

use crate::placeholders::{resolve_config, resolve_request_placeholders, EnvVars};
use crate::text::{chars_of, str_result_view, trim, trim_chars};
use crate::tui::{api_method_from_name, spec_api_method_from_name};
use crate::types::{pairs_view, ApiMethods, AuthConfig, AuthView, Pairs, RequestConfig, RequestConfigView};

verus! {

/// What `str::to_uppercase` gives for `s`: its Unicode upper case.
pub uninterp spec fn uppercase(s: Seq<char>) -> Seq<char>;

/// Every character of `s` is ASCII.
pub open spec fn is_ascii_text(s: Seq<char>) -> bool {
    forall|i: int| 0 <= i < s.len() ==> (#[trigger] s[i]) <= '\u{7f}'
}

/// The ASCII upper case of `c`: `a` to `z` become `A` to `Z`, the rest stays.
pub open spec fn ascii_upper_char(c: char) -> char {
    if 'a' <= c && c <= 'z' {
        ((c as u32) - 32) as char
    } else {
        c
    }
}

/// Each character of `s` in ASCII upper case.
pub open spec fn ascii_upper(s: Seq<char>) -> Seq<char> {
    s.map_values(|c: char| ascii_upper_char(c))
}

/// `str::to_uppercase`: the Unicode upper case of `s`, a function of `s` alone.
/// Of ASCII text it changes `a` to `z` into `A` to `Z` and keeps the rest, as
/// the Unicode case mappings of ASCII letters are those one-to-one pairs; of
/// other text nothing is stated beyond the name.
#[verifier::external_body]
fn to_uppercase(s: &str) -> (r: String)
    ensures
        r@ == uppercase(s@),
        is_ascii_text(s@) ==> r@ == ascii_upper(s@),
{
    s.to_uppercase()
}

/// `s` as `owo_colors` paints it red: the escape `ESC[31m`, the text, then `ESC[39m`.
pub open spec fn red_text(s: Seq<char>) -> Seq<char> {
    seq!['\u{1b}', '[', '3', '1', 'm'] + s + seq!['\u{1b}', '[', '3', '9', 'm']
}

/// `OwoColorize::red` formatted with `{}`: it writes the foreground escape of
/// red (`ESC[31m`), the text, and the escape that resets the foreground (`ESC[39m`).
#[verifier::external_body]
fn red(s: &str) -> (r: String)
    ensures
        r@ == red_text(s@),
{
    format!("{}", s.red())
}

/// What parsing `url` with `reqwest::Url::parse`, appending `pairs` to its
/// query in order, and formatting it gives: the URL's text, or the text of
/// the parse error. A function of the two alone.
pub uninterp spec fn url_with_query(url: Seq<char>, pairs: Seq<(Seq<char>, Seq<char>)>) -> Result<
    Seq<char>,
    Seq<char>,
>;

/// `Url::query_pairs_mut().extend_pairs`: appends `pairs`, in order and
/// form-encoded, to the query of the URL that `url` parses to, and gives the
/// URL's text; the parse error's text when `Url::parse` refuses `url`.
#[verifier::external_body]
fn append_query_pairs(url: &str, pairs: &Pairs) -> (r: Result<String, String>)
    ensures
        match r {
            Ok(s) => url_with_query(url@, pairs_view(pairs@)) == Ok::<Seq<char>, Seq<char>>(s@),
            Err(e) => url_with_query(url@, pairs_view(pairs@)) == Err::<Seq<char>, Seq<char>>(e@),
        },
{
    match reqwest::Url::parse(url) {
        Ok(mut parsed) => {
            parsed.query_pairs_mut().extend_pairs(pairs.iter());
            Ok(parsed.to_string())
        },
        Err(error) => Err(error.to_string()),
    }
}

/// A method name, already in upper case, as a method: `Invalid HTTP method: `
/// and the name in red when it names none.
pub open spec fn spec_method_from_upper(upper: Seq<char>) -> Result<ApiMethods, Seq<char>> {
    match spec_api_method_from_name(upper) {
        Some(m) => Ok(m),
        None => Err("Invalid HTTP method: "@ + red_text(upper)),
    }
}

/// The method that the upper-cased name `upper` names, or the error that
/// says it names none.
pub fn method_from_upper(upper: &str) -> (r: Result<ApiMethods, String>)
    ensures
        match r {
            Ok(m) => spec_method_from_upper(upper@) == Ok::<ApiMethods, Seq<char>>(m),
            Err(e) => spec_method_from_upper(upper@) == Err::<ApiMethods, Seq<char>>(e@),
        },
{
    match api_method_from_name(upper) {
        Some(m) => Ok(m),
        None => {
            let mut msg = String::from_str("Invalid HTTP method: ");
            let painted = red(upper);
            msg.append(painted.as_str());
            Err(msg)
        },
    }
}

/// The method of a request written in any case: its name upper-cased, then named.
pub fn parse_method(method: &str) -> (r: Result<ApiMethods, String>)
    ensures
        match r {
            Ok(m) => spec_method_from_upper(uppercase(method@)) == Ok::<ApiMethods, Seq<char>>(m),
            Err(e) => spec_method_from_upper(uppercase(method@)) == Err::<ApiMethods, Seq<char>>(e@),
        },
        is_ascii_text(method@) ==> uppercase(method@) == ascii_upper(method@),
{
    let upper = to_uppercase(method);
    method_from_upper(upper.as_str())
}

/// What a parsed URL comes to: the URL, or `Invalid URL: ` and the parse
/// error in red.
pub open spec fn spec_url_outcome(parsed: Result<Seq<char>, Seq<char>>) -> Result<Seq<char>, Seq<char>> {
    match parsed {
        Ok(u) => Ok(u),
        Err(e) => Err("Invalid URL: "@ + red_text(e)),
    }
}

/// The URL that parsing gave, or the error to report for the text of its
/// parse error.
pub fn url_outcome(parsed: Result<String, String>) -> (r: Result<String, String>)
    ensures
        str_result_view(r) == spec_url_outcome(str_result_view(parsed)),
{
    match parsed {
        Ok(u) => Ok(u),
        Err(error) => {
            let mut msg = String::from_str("Invalid URL: ");
            let painted = red(error.as_str());
            msg.append(painted.as_str());
            Err(msg)
        },
    }
}

/// The request that is sent: its method, the method as written, the URL with
/// its query, the timeout in seconds, the authentication, the headers to set
/// and the body to send.
pub struct PreparedRequest {
    pub method: ApiMethods,
    pub display_method: String,
    pub url: String,
    pub timeout_secs: u64,
    pub auth: Option<AuthConfig>,
    pub headers: Pairs,
    pub body: Option<String>,
}

/// The text of a prepared request.
pub struct PreparedView {
    pub method: ApiMethods,
    pub display_method: Seq<char>,
    pub url: Seq<char>,
    pub timeout_secs: u64,
    pub auth: Option<AuthView>,
    pub headers: Seq<(Seq<char>, Seq<char>)>,
    pub body: Option<Seq<char>>,
}

impl View for PreparedRequest {
    type V = PreparedView;

    open spec fn view(&self) -> PreparedView {
        PreparedView {
            method: self.method,
            display_method: self.display_method@,
            url: self.url@,
            timeout_secs: self.timeout_secs,
            auth: match self.auth {
                Some(a) => Some(a@),
                None => None,
            },
            headers: pairs_view(self.headers@),
            body: match self.body {
                Some(b) => Some(b@),
                None => None,
            },
        }
    }
}

/// The timeout of a request without a `[config]` table, in seconds.
pub const REQUEST_TIMEOUT_SECS: u64 = 30;

/// The pairs of `ps` whose value is not empty, in order.
pub open spec fn non_empty_values(ps: Seq<(Seq<char>, Seq<char>)>) -> Seq<(Seq<char>, Seq<char>)>
    decreases ps.len(),
{
    if ps.len() == 0 {
        ps
    } else if ps.last().1.len() > 0 {
        non_empty_values(ps.drop_last()).push(ps.last())
    } else {
        non_empty_values(ps.drop_last())
    }
}

/// The URL a request is sent to: its URL as written, or with its query
/// parameters appended when it has any.
pub open spec fn request_url(c: RequestConfigView) -> Result<Seq<char>, Seq<char>> {
    match c.params {
        Some(ps) => if ps.len() > 0 {
            url_with_query(c.url, ps)
        } else {
            Ok(c.url)
        },
        None => Ok(c.url),
    }
}

/// What preparing a saved request gives: its placeholders resolved (or the
/// failure in red), its method upper-cased and named (or `Invalid HTTP
/// method: ` and the upper-cased method in red), its URL (or `Invalid URL: `
/// and the parse error in red); then the timeout (30 s unless set), the
/// authentication, the headers with a value, and the body when it is not
/// blank and the method is not GET.
pub open spec fn spec_prepare_request(c: RequestConfigView, env: Seq<(Seq<char>, Seq<char>)>) -> Result<
    PreparedView,
    Seq<char>,
> {
    let (r, err) = resolve_config(c, env);
    match err {
        Some(e) => Err(red_text(e)),
        None => {
            let upper = uppercase(r.method);
            match spec_method_from_upper(upper) {
                Err(e) => Err(e),
                Ok(m) => match spec_url_outcome(request_url(r)) {
                    Err(e) => Err(e),
                    Ok(u) => Ok(
                        PreparedView {
                            method: m,
                            display_method: r.method,
                            url: u,
                            timeout_secs: match r.timeout {
                                Some(t) => t,
                                None => 30,
                            },
                            auth: r.auth,
                            headers: match r.headers {
                                Some(hs) => non_empty_values(hs),
                                None => Seq::empty(),
                            },
                            body: match r.body {
                                Some(b) => if trim(b).len() > 0 && upper != "GET"@ {
                                    Some(b)
                                } else {
                                    None
                                },
                                None => None,
                            },
                        },
                    ),
                },
            }
        },
    }
}

/// The view of a preparation result.
pub open spec fn prepared_result_view(r: Result<PreparedRequest, String>) -> Result<PreparedView, Seq<char>> {
    match r {
        Ok(p) => Ok(p@),
        Err(e) => Err(e@),
    }
}

fn keep_non_empty_values(ps: Pairs) -> (r: Pairs)
    ensures
        pairs_view(r@) == non_empty_values(pairs_view(ps@)),
{
    let ghost all = pairs_view(ps@);
    let mut rest = ps;
    let mut kept_rev: Vec<(String, String)> = Vec::new();
    let ghost mut n: int = all.len() as int;
    // Walk from the end, so that each step looks at the last remaining pair.
    while rest.len() > 0
        invariant
            pairs_view(rest@) == all.take(rest.len() as int),
            rest.len() <= all.len(),
            non_empty_values(all) == non_empty_values(pairs_view(rest@)) + pairs_view(kept_rev@).reverse(),
        decreases rest.len(),
    {
        let ghost before = pairs_view(rest@);
        let p = rest.pop().unwrap();
        assert(before == pairs_view(rest@).push((p.0@, p.1@)));
        assert(before.drop_last() == pairs_view(rest@));
        assert(pairs_view(rest@) == all.take(rest.len() as int));
        if !p.1.as_str().is_empty() {
            let ghost k = pairs_view(kept_rev@);
            kept_rev.push(p);
            assert(pairs_view(kept_rev@) =~= k.push((p.0@, p.1@)));
            assert(pairs_view(kept_rev@).reverse() =~= seq![(p.0@, p.1@)] + k.reverse());
        } else {
            assert(before.last().1.len() == 0) by {
                assert(p.1@.len() == 0);
            }
        }
    }
    assert(non_empty_values(pairs_view(rest@)) =~= Seq::<(Seq<char>, Seq<char>)>::empty());
    let mut kept: Vec<(String, String)> = Vec::new();
    let ghost rev = pairs_view(kept_rev@);
    while kept_rev.len() > 0
        invariant
            pairs_view(kept@) + pairs_view(kept_rev@).reverse() == rev.reverse(),
        decreases kept_rev.len(),
    {
        let ghost before = pairs_view(kept_rev@);
        let p = kept_rev.pop().unwrap();
        assert(before =~= pairs_view(kept_rev@).push((p.0@, p.1@)));
        assert(before.reverse() =~= seq![(p.0@, p.1@)] + pairs_view(kept_rev@).reverse());
        let ghost k = pairs_view(kept@);
        kept.push(p);
        assert(pairs_view(kept@) =~= k.push((p.0@, p.1@)));
    }
    assert(pairs_view(kept_rev@).reverse() =~= Seq::<(Seq<char>, Seq<char>)>::empty());
    assert(Seq::<(Seq<char>, Seq<char>)>::empty() + rev.reverse() =~= rev.reverse());
    kept
}

/// The request to send for `request_config` in the environment `env`:
/// placeholders resolved, the method checked (any case), query parameters
/// appended to the URL, the timeout (30 s unless the file sets one), the
/// headers that have a value, and the body unless it is blank or the method is GET.
pub fn prepare_request(request_config: RequestConfig, env: &EnvVars) -> (r: Result<PreparedRequest, String>)
    ensures
        prepared_result_view(r) == spec_prepare_request(request_config@, env@),
        ({
            let (resolved, failure) = resolve_config(request_config@, env@);
            failure is None && is_ascii_text(resolved.method) ==> uppercase(resolved.method)
                == ascii_upper(resolved.method)
        }),
{
    let mut c = request_config;
    let resolved = resolve_request_placeholders(&mut c, env);
    let ghost rc = c@;
    if let Err(error) = resolved {
        return Err(red(error.as_str()));
    }
    let method = match parse_method(c.method.as_str()) {
        Ok(m) => m,
        Err(e) => {
            return Err(e);
        },
    };
    let url = match &c.params {
        Some(params) => if params.len() > 0 {
            match url_outcome(append_query_pairs(c.url.as_str(), params)) {
                Ok(u) => u,
                Err(e) => {
                    return Err(e);
                },
            }
        } else {
            c.url.clone()
        },
        None => c.url.clone(),
    };
    let timeout_secs = match &c.config {
        Some(config) => config.timeout,
        None => REQUEST_TIMEOUT_SECS,
    };
    let headers = match c.headers {
        Some(hs) => keep_non_empty_values(hs),
        None => {
            let empty: Vec<(String, String)> = Vec::new();
            assert(pairs_view(empty@) =~= Seq::<(Seq<char>, Seq<char>)>::empty());
            empty
        },
    };
    let is_get = method == ApiMethods::GET;
    assert(is_get == (uppercase(rc.method) == "GET"@)) by {
        reveal_strlit("GET");
        reveal_strlit("POST");
        reveal_strlit("PUT");
        reveal_strlit("PATCH");
        reveal_strlit("DELETE");
        reveal_strlit("HEAD");
        reveal_strlit("OPTIONS");
    }
    let body = match c.body {
        Some(b) => {
            let trimmed = trim_chars(&chars_of(b.content.as_str()));
            if trimmed.len() > 0 && !is_get {
                Some(b.content)
            } else {
                None
            }
        },
        None => None,
    };
    Ok(
        PreparedRequest {
            method,
            display_method: c.method,
            url,
            timeout_secs,
            auth: c.auth,
            headers,
            body,
        },
    )
}

} // verus!
