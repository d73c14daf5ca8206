//! The request model: what a saved request file holds once it is read.
use vstd::prelude::*;

verus! {

/// The HTTP methods that a saved request can name.
#[allow(non_camel_case_types)]
#[derive(Clone, Copy, Debug, PartialEq, Eq, Structural)]
pub enum ApiMethods {
    GET,
    POST,
    PUT,
    PATCH,
    DELETE,
    HEAD,
    OPTIONS,
}

/// Keys and values in the order the request file lists them.
pub type Pairs = Vec<(String, String)>;

/// The text of each key and value of `pairs`.
pub open spec fn pairs_view(pairs: Seq<(String, String)>) -> Seq<(Seq<char>, Seq<char>)> {
    pairs.map_values(|p: (String, String)| (p.0@, p.1@))
}

/// The body that a request sends.
pub struct RequestBody {
    pub content: String,
}

/// How a request authenticates.
pub enum AuthConfig {
    Basic { username: String, password: Option<String> },
    Bearer { token: String },
}

/// Client settings of a request.
pub struct Config {
    pub timeout: u64,
}

/// A saved request, as its TOML file describes it.
pub struct RequestConfig {
    pub method: String,
    pub url: String,
    pub params: Option<Pairs>,
    pub auth: Option<AuthConfig>,
    pub headers: Option<Pairs>,
    pub body: Option<RequestBody>,
    pub config: Option<Config>,
}

/// The text held by an authentication setting.
pub enum AuthView {
    Basic { username: Seq<char>, password: Option<Seq<char>> },
    Bearer { token: Seq<char> },
}

/// The text held by a request: what its contracts speak of.
pub struct RequestConfigView {
    pub method: Seq<char>,
    pub url: Seq<char>,
    pub params: Option<Seq<(Seq<char>, Seq<char>)>>,
    pub auth: Option<AuthView>,
    pub headers: Option<Seq<(Seq<char>, Seq<char>)>>,
    pub body: Option<Seq<char>>,
    pub timeout: Option<u64>,
}

impl View for AuthConfig {
    type V = AuthView;

    open spec fn view(&self) -> AuthView {
        match self {
            AuthConfig::Basic { username, password } => AuthView::Basic {
                username: username@,
                password: match password {
                    Some(p) => Some(p@),
                    None => None,
                },
            },
            AuthConfig::Bearer { token } => AuthView::Bearer { token: token@ },
        }
    }
}

impl View for RequestConfig {
    type V = RequestConfigView;

    open spec fn view(&self) -> RequestConfigView {
        RequestConfigView {
            method: self.method@,
            url: self.url@,
            params: match self.params {
                Some(p) => Some(pairs_view(p@)),
                None => None,
            },
            auth: match self.auth {
                Some(a) => Some(a@),
                None => None,
            },
            headers: match self.headers {
                Some(h) => Some(pairs_view(h@)),
                None => None,
            },
            body: match self.body {
                Some(b) => Some(b.content@),
                None => None,
            },
            timeout: match self.config {
                Some(c) => Some(c.timeout),
                None => None,
            },
        }
    }
}

} // verus!
