use std::collections::HashMap;

use regex::Regex;
use rivet::placeholders::{resolve_env_placeholders, resolve_request_placeholders, EnvVars};
use rivet::types::{AuthConfig, Config, RequestBody, RequestConfig};

fn env(pairs: &[(&str, &str)]) -> EnvVars {
    EnvVars { vars: pairs.iter().map(|(k, v)| (k.to_string(), v.to_string())).collect() }
}

/// The placeholder resolution as the regular expression reads it.
fn by_regex(re: &Regex, value: &str, vars: &HashMap<String, String>) -> Result<String, String> {
    let mut resolved = String::new();
    let mut last = 0;
    for capture in re.captures_iter(value) {
        let whole = capture.get(0).unwrap();
        let key = capture.get(1).unwrap().as_str();
        let v = vars.get(key).ok_or_else(|| format!("Missing environment variable: {}", key))?;
        resolved.push_str(&value[last..whole.start()]);
        resolved.push_str(v);
        last = whole.end();
    }
    resolved.push_str(&value[last..]);
    Ok(resolved)
}

#[test]
fn replaces_placeholders() {
    let e = env(&[("TOKEN", "abc"), ("HOST", "example.com")]);
    assert_eq!(
        resolve_env_placeholders("https://{{HOST}}/x?t={{ TOKEN }}", &e),
        Ok("https://example.com/x?t=abc".to_string())
    );
}

#[test]
fn text_without_placeholders_is_unchanged() {
    let e = env(&[]);
    for s in ["", "plain", "{ {A} }", "{{}}", "{{1A}}", "{{A B}}", "{{A}", "ünïcode ✓"] {
        assert_eq!(resolve_env_placeholders(s, &e), Ok(s.to_string()));
    }
}

#[test]
fn missing_variable_is_reported() {
    let e = env(&[("A", "1")]);
    assert_eq!(
        resolve_env_placeholders("{{A}} {{B}} {{C}}", &e),
        Err("Missing environment variable: B".to_string())
    );
}

#[test]
fn leftmost_match_after_extra_brace() {
    let e = env(&[("X", "v")]);
    assert_eq!(resolve_env_placeholders("{{{X}}}", &e), Ok("{v}".to_string()));
    assert_eq!(resolve_env_placeholders("{{\u{3000}X\n}}", &e), Ok("v".to_string()));
}

#[test]
fn agrees_with_the_regular_expression() {
    let alphabet: Vec<char> = vec!['{', '}', ' ', 'A', 'b', '_', '1', '\t', 'é', '\u{a0}', 'Z', 'x'];
    let vars_list = [("A", "<a>"), ("b", ""), ("_", "u"), ("Ab", "ab"), ("Z1", "z")];
    let e = env(&vars_list);
    let map: HashMap<String, String> =
        vars_list.iter().map(|(k, v)| (k.to_string(), v.to_string())).collect();
    let re = Regex::new(r"\{\{\s*([A-Za-z_][A-Za-z0-9_]*)\s*\}\}").unwrap();
    let mut seed: u64 = 0x2545F4914F6CDD1D;
    for _ in 0..3000 {
        seed = seed.wrapping_mul(6364136223846793005).wrapping_add(1442695040888963407);
        let len = (seed >> 59) as usize;
        let mut s = String::new();
        let mut t = seed;
        for _ in 0..len {
            t = t.wrapping_mul(6364136223846793005).wrapping_add(1442695040888963407);
            s.push(alphabet[(t >> 33) as usize % alphabet.len()]);
        }
        assert_eq!(resolve_env_placeholders(&s, &e), by_regex(&re, &s, &map), "{s:?}");
    }
}

fn sample_config() -> RequestConfig {
    RequestConfig {
        method: "{{M}}".to_string(),
        url: "https://{{HOST}}/api".to_string(),
        params: Some(vec![("q".to_string(), "{{Q}}".to_string()), ("n".to_string(), "1".to_string())]),
        auth: Some(AuthConfig::Basic { username: "{{USER}}".to_string(), password: Some("{{PW}}".to_string()) }),
        headers: Some(vec![("X-Key".to_string(), "{{KEY}}".to_string())]),
        body: Some(RequestBody { content: "{\"a\": \"{{Q}}\"}".to_string() }),
        config: Some(Config { timeout: 5 }),
    }
}

#[test]
fn resolves_every_field() {
    let e = env(&[("M", "post"), ("HOST", "h"), ("Q", "query"), ("USER", "u"), ("PW", "p"), ("KEY", "k")]);
    let mut c = sample_config();
    assert_eq!(resolve_request_placeholders(&mut c, &e), Ok(()));
    assert_eq!(c.method, "post");
    assert_eq!(c.url, "https://h/api");
    assert_eq!(c.params, Some(vec![("q".to_string(), "query".to_string()), ("n".to_string(), "1".to_string())]));
    match c.auth {
        Some(AuthConfig::Basic { username, password }) => {
            assert_eq!(username, "u");
            assert_eq!(password, Some("p".to_string()));
        }
        _ => panic!("expected basic auth"),
    }
    assert_eq!(c.headers, Some(vec![("X-Key".to_string(), "k".to_string())]));
    assert_eq!(c.body.map(|b| b.content), Some("{\"a\": \"query\"}".to_string()));
    assert_eq!(c.config.map(|c| c.timeout), Some(5));
}

#[test]
fn stops_at_first_missing_variable() {
    let e = env(&[("M", "GET"), ("HOST", "h"), ("Q", "query")]);
    let mut c = sample_config();
    assert_eq!(
        resolve_request_placeholders(&mut c, &e),
        Err("Missing environment variable: USER".to_string())
    );
    assert_eq!(c.method, "GET");
    assert_eq!(c.url, "https://h/api");
    assert_eq!(c.params, Some(vec![("q".to_string(), "query".to_string()), ("n".to_string(), "1".to_string())]));
    match c.auth {
        Some(AuthConfig::Basic { username, password }) => {
            assert_eq!(username, "{{USER}}");
            assert_eq!(password, Some("{{PW}}".to_string()));
        }
        _ => panic!("expected basic auth"),
    }
    assert_eq!(c.headers, Some(vec![("X-Key".to_string(), "{{KEY}}".to_string())]));
}

#[test]
fn bearer_token_is_resolved() {
    let e = env(&[("T", "secret")]);
    let mut c = RequestConfig {
        method: "GET".to_string(),
        url: "u".to_string(),
        params: None,
        auth: Some(AuthConfig::Bearer { token: "Bearer {{T}}".to_string() }),
        headers: None,
        body: None,
        config: None,
    };
    assert_eq!(resolve_request_placeholders(&mut c, &e), Ok(()));
    match c.auth {
        Some(AuthConfig::Bearer { token }) => assert_eq!(token, "Bearer secret"),
        _ => panic!("expected bearer auth"),
    }
}
