use rivet::placeholders::EnvVars;
use rivet::send::{method_from_upper, parse_method, prepare_request, url_outcome};
use rivet::types::{ApiMethods, AuthConfig, Config, RequestBody, RequestConfig};

fn red(s: &str) -> String {
    format!("\u{1b}[31m{}\u{1b}[39m", s)
}

fn config(method: &str, url: &str) -> RequestConfig {
    RequestConfig {
        method: method.to_string(),
        url: url.to_string(),
        params: None,
        auth: None,
        headers: None,
        body: None,
        config: None,
    }
}

fn no_env() -> EnvVars {
    EnvVars { vars: vec![] }
}

#[test]
fn prepares_a_plain_get() {
    let p = prepare_request(config("get", "https://example.com/a"), &no_env()).unwrap();
    assert_eq!(p.method, ApiMethods::GET);
    assert_eq!(p.display_method, "get");
    assert_eq!(p.url, "https://example.com/a");
    assert_eq!(p.timeout_secs, 30);
    assert!(p.auth.is_none());
    assert!(p.headers.is_empty());
    assert!(p.body.is_none());
}

#[test]
fn appends_query_parameters() {
    let mut c = config("POST", "https://example.com/a?x=1");
    c.params = Some(vec![("q".to_string(), "a b".to_string()), ("sort".to_string(), "desc".to_string())]);
    let p = prepare_request(c, &no_env()).unwrap();
    assert_eq!(p.url, "https://example.com/a?x=1&q=a+b&sort=desc");
    let mut c = config("POST", "https://example.com/a");
    c.params = Some(vec![]);
    assert_eq!(prepare_request(c, &no_env()).unwrap().url, "https://example.com/a");
}

#[test]
fn reports_an_invalid_url_only_with_parameters() {
    let mut c = config("GET", "not a url");
    c.params = Some(vec![("q".to_string(), "1".to_string())]);
    let err = reqwest::Url::parse("not a url").unwrap_err().to_string();
    assert_eq!(prepare_request(c, &no_env()).err(), Some(format!("Invalid URL: {}", red(&err))));
    assert_eq!(prepare_request(config("GET", "not a url"), &no_env()).unwrap().url, "not a url");
}

#[test]
fn reports_an_invalid_method() {
    assert_eq!(
        prepare_request(config("fetch", "u"), &no_env()).err(),
        Some(format!("Invalid HTTP method: {}", red("FETCH")))
    );
}

#[test]
fn reports_a_missing_variable_in_red() {
    assert_eq!(
        prepare_request(config("{{M}}", "u"), &no_env()).err(),
        Some(red("Missing environment variable: M"))
    );
}

#[test]
fn keeps_headers_with_values_and_body_unless_get() {
    let mut c = config("put", "u");
    c.headers = Some(vec![("A".to_string(), "1".to_string()), ("B".to_string(), "".to_string()), ("C".to_string(), "3".to_string())]);
    c.body = Some(RequestBody { content: "{}".to_string() });
    c.config = Some(Config { timeout: 7 });
    c.auth = Some(AuthConfig::Bearer { token: "t".to_string() });
    let p = prepare_request(c, &no_env()).unwrap();
    assert_eq!(p.headers, vec![("A".to_string(), "1".to_string()), ("C".to_string(), "3".to_string())]);
    assert_eq!(p.body, Some("{}".to_string()));
    assert_eq!(p.timeout_secs, 7);
    assert!(matches!(p.auth, Some(AuthConfig::Bearer { .. })));

    let mut c = config("Get", "u");
    c.body = Some(RequestBody { content: "{}".to_string() });
    assert_eq!(prepare_request(c, &no_env()).unwrap().body, None);

    let mut c = config("POST", "u");
    c.body = Some(RequestBody { content: " \n\t".to_string() });
    assert_eq!(prepare_request(c, &no_env()).unwrap().body, None);
}

#[test]
fn upper_cases_with_unicode_rules() {
    // The long s upper-cases to S, so this names POST.
    let p = prepare_request(config("po\u{17f}t", "u"), &no_env()).unwrap();
    assert_eq!(p.method, ApiMethods::POST);
}

#[test]
fn parses_a_method_in_any_case() {
    assert_eq!(parse_method("get"), Ok(ApiMethods::GET));
    assert_eq!(parse_method("Post"), Ok(ApiMethods::POST));
    assert_eq!(parse_method("options"), Ok(ApiMethods::OPTIONS));
    assert_eq!(parse_method("fetch"), Err(format!("Invalid HTTP method: {}", red("FETCH"))));
}

#[test]
fn names_only_upper_case_methods() {
    assert_eq!(method_from_upper("DELETE"), Ok(ApiMethods::DELETE));
    assert_eq!(method_from_upper("delete"), Err(format!("Invalid HTTP method: {}", red("delete"))));
    assert_eq!(method_from_upper(""), Err(format!("Invalid HTTP method: {}", red(""))));
}

#[test]
fn reports_a_url_parse_error_in_red() {
    assert_eq!(url_outcome(Ok("https://x.test/?a=1".to_string())), Ok("https://x.test/?a=1".to_string()));
    assert_eq!(
        url_outcome(Err("relative URL without a base".to_string())),
        Err(format!("Invalid URL: {}", red("relative URL without a base")))
    );
}
