use vstd::prelude::*;

use crate::error::ProxyError;
use crate::text::{
    ends_with_char, str_eq, trim, trim_end_char, trim_end_matches_char, trim_start_char,
    trim_start_matches_char, trimmed,
};

verus! {

/// An absolute URL, split where the upstream logic reads it: `head` is the
/// serialization up to the path (`scheme://authority`), `domain` the host when
/// it is a domain name, and `path` the path.
pub struct BaseUrl {
    pub head: String,
    pub domain: Option<String>,
    pub path: String,
}

pub open spec fn opt_view(o: Option<String>) -> Option<Seq<char>> {
    match o {
        Some(s) => Some(s@),
        None => None,
    }
}

impl View for BaseUrl {
    type V = (Seq<char>, Option<Seq<char>>, Seq<char>);

    open spec fn view(&self) -> Self::V {
        (self.head@, opt_view(self.domain), self.path@)
    }
}

/// The serialization of a URL with view `u`.
pub open spec fn url_text(u: (Seq<char>, Option<Seq<char>>, Seq<char>)) -> Seq<char> {
    u.0 + u.2
}

/// `u` with a path that ends in `/`.
pub open spec fn slashed(u: (Seq<char>, Option<Seq<char>>, Seq<char>)) -> (
    Seq<char>,
    Option<Seq<char>>,
    Seq<char>,
) {
    if u.2.len() > 0 && u.2.last() == '/' {
        u
    } else {
        (u.0, u.1, trim_end_char(u.2, '/') + seq!['/'])
    }
}

/// Two paths joined by exactly one `/`.
pub open spec fn joined_path(base: Seq<char>, suffix: Seq<char>) -> Seq<char> {
    let b = trim_end_char(base, '/');
    let s = trim_start_char(suffix, '/');
    if s.len() == 0 {
        if b.len() == 0 {
            seq!['/']
        } else {
            b
        }
    } else if b.len() == 0 {
        seq!['/'] + s
    } else {
        b + seq!['/'] + s
    }
}

pub open spec fn github_domain() -> Seq<char> {
    seq!['g', 'i', 't', 'h', 'u', 'b', '.', 'c', 'o', 'm']
}

pub open spec fn enterprise_api_path() -> Seq<char> {
    seq!['/', 'a', 'p', 'i', '/', 'v', '3']
}

/// The public API host, `https://api.github.com/`.
pub open spec fn default_api_base() -> (Seq<char>, Option<Seq<char>>, Seq<char>) {
    (
        seq!['h', 't', 't', 'p', 's', ':', '/', '/', 'a', 'p', 'i', '.', 'g', 'i', 't', 'h', 'u', 'b', '.', 'c', 'o', 'm'],
        Some(seq!['a', 'p', 'i', '.', 'g', 'i', 't', 'h', 'u', 'b', '.', 'c', 'o', 'm']),
        seq!['/'],
    )
}

/// An API prefix with exactly one leading `/` added where it had none.
pub open spec fn rooted(p: Seq<char>) -> Seq<char> {
    if p.len() > 0 && p[0] == '/' {
        p
    } else {
        seq!['/'] + p
    }
}

/// The API base for a git base and an optional API prefix.
pub open spec fn api_base_of(
    git: (Seq<char>, Option<Seq<char>>, Seq<char>),
    prefix: Option<Seq<char>>,
) -> (Seq<char>, Option<Seq<char>>, Seq<char>) {
    match prefix {
        Some(p) => if trimmed(p).len() == 0 {
            git
        } else {
            (git.0, git.1, joined_path(git.2, rooted(trimmed(p))))
        },
        None => if git.1 == Some(github_domain()) {
            default_api_base()
        } else {
            (git.0, git.1, joined_path(git.2, enterprise_api_path()))
        },
    }
}

/// What `url::Url::join` gives for the base URL serialized as `base` and the
/// relative reference `reference`, serialized; `None` where either fails.
pub uninterp spec fn joined_url(base: Seq<char>, reference: Seq<char>) -> Option<Seq<char>>;

/// The authority that `hyper::Uri` parses out of `uri`; `None` where it
/// fails to parse or has none.
pub uninterp spec fn uri_authority(uri: Seq<char>) -> Option<Seq<char>>;

/// The outbound URL for a base and an inbound path with query.
pub open spec fn target_url(
    base: (Seq<char>, Option<Seq<char>>, Seq<char>),
    path_and_query: Seq<char>,
) -> Option<Seq<char>> {
    joined_url(url_text(slashed(base)), trim_start_char(path_and_query, '/'))
}

/// Relies on `url::Url::parse` to read `base` and on `Url::join` to resolve
/// `reference` against it; the result is the serialization of the joined URL.
#[verifier::external_body]
fn url_join(base: &str, reference: &str) -> (r: Option<String>)
    ensures
        opt_view(r) == joined_url(base@, reference@),
{
    url::Url::parse(base).and_then(|b| b.join(reference)).ok().map(|u| u.as_str().to_string())
}

/// Relies on `hyper::Uri`'s `FromStr` and `Uri::authority`: the authority of
/// `uri`, if it parses and has one.
#[verifier::external_body]
fn authority_of(uri: &str) -> (r: Option<String>)
    ensures
        opt_view(r) == uri_authority(uri@),
{
    uri.parse::<hyper::Uri>().ok().and_then(|u| u.authority().map(|a| a.as_str().to_string()))
}

fn clone_opt(o: &Option<String>) -> (r: Option<String>)
    ensures
        opt_view(r) == opt_view(*o),
{
    match o {
        Some(s) => Some(s.clone()),
        None => None,
    }
}

impl BaseUrl {
    pub fn duplicate(&self) -> (r: BaseUrl)
        ensures
            r@ == self@,
    {
        BaseUrl { head: self.head.clone(), domain: clone_opt(&self.domain), path: self.path.clone() }
    }

    /// The URL as one string.
    pub fn as_string(&self) -> (r: String)
        ensures
            r@ == url_text(self@),
    {
        self.head.clone().concat(self.path.as_str())
    }
}

/// Joins two URL paths with exactly one `/` between them; an empty result is `/`.
pub fn join_paths(base: &str, suffix: &str) -> (r: String)
    ensures
        r@ == joined_path(base@, suffix@),
{
    let b = trim_end_matches_char(base, '/');
    let s = trim_start_matches_char(suffix, '/');
    proof {
        reveal_strlit("/");
    }
    if s.is_empty() {
        if b.is_empty() {
            String::from_str("/")
        } else {
            String::from_str(b)
        }
    } else if b.is_empty() {
        String::from_str("/").concat(s)
    } else {
        String::from_str(b).concat("/").concat(s)
    }
}

/// The URL with a path ending in `/`, so that a join appends to it.
pub fn with_trailing_slash(url: &BaseUrl) -> (r: BaseUrl)
    ensures
        r@ == slashed(url@),
{
    let mut base = url.duplicate();
    if !ends_with_char(base.path.as_str(), '/') {
        proof {
            reveal_strlit("/");
        }
        let new_path = String::from_str(trim_end_matches_char(base.path.as_str(), '/')).concat("/");
        base.path = new_path;
    }
    base
}

fn default_api_url() -> (r: BaseUrl)
    ensures
        r@ == default_api_base(),
{
    proof {
        reveal_strlit("https://api.github.com");
        reveal_strlit("api.github.com");
        reveal_strlit("/");
    }
    BaseUrl {
        head: String::from_str("https://api.github.com"),
        domain: Some(String::from_str("api.github.com")),
        path: String::from_str("/"),
    }
}

fn is_github_domain(domain: &Option<String>) -> (r: bool)
    ensures
        r == (opt_view(*domain) == Some(github_domain())),
{
    proof {
        reveal_strlit("github.com");
    }
    match domain {
        Some(d) => {
            proof {
                assert("github.com"@ =~= github_domain());
            }
            str_eq(d.as_str(), "github.com")
        },
        None => false,
    }
}

/// The API base: the git base with `api_prefix` appended when one is given
/// (the git base itself when it is blank), else the public API host for
/// `github.com`, else the git base with `/api/v3` appended.
pub fn build_api_base(git_base: &BaseUrl, api_prefix: Option<String>) -> (r: BaseUrl)
    ensures
        r@ == api_base_of(git_base@, opt_view(api_prefix)),
{
    match &api_prefix {
        Some(prefix) => {
            let t = trim(prefix.as_str());
            if t.is_empty() {
                return git_base.duplicate();
            }
            proof {
                reveal_strlit("/");
            }
            let normalized = if t.unicode_len() > 0 && t.get_char(0) == '/' {
                String::from_str(t)
            } else {
                String::from_str("/").concat(t)
            };
            assert(normalized@ =~= rooted(trimmed(prefix@)));
            let mut base = git_base.duplicate();
            base.path = join_paths(git_base.path.as_str(), normalized.as_str());
            base
        },
        None => {
            if is_github_domain(&git_base.domain) {
                return default_api_url();
            }
            proof {
                reveal_strlit("/api/v3");
                assert("/api/v3"@ =~= enterprise_api_path());
            }
            let mut base = git_base.duplicate();
            base.path = join_paths(git_base.path.as_str(), "/api/v3");
            base
        },
    }
}

/// The outbound URL: `path_and_query`, leading `/` removed, resolved against
/// `base` with a trailing `/`, so that the base's own path is kept.
pub fn build_target_uri(base: &BaseUrl, path_and_query: &str) -> (r: Result<String, ProxyError>)
    ensures
        match r {
            Ok(u) => target_url(base@, path_and_query@) == Some(u@),
            Err(e) => target_url(base@, path_and_query@) is None && e == ProxyError::Build,
        },
{
    let base = with_trailing_slash(base);
    let relative = trim_start_matches_char(path_and_query, '/');
    let text = base.as_string();
    match url_join(text.as_str(), relative) {
        Some(u) => Ok(u),
        None => Err(ProxyError::Build),
    }
}

/// The authority of the outbound URL, which the `Host` header carries.
pub fn target_authority(uri: &str) -> (r: Result<String, ProxyError>)
    ensures
        match r {
            Ok(a) => uri_authority(uri@) == Some(a@),
            Err(e) => uri_authority(uri@) is None && e == ProxyError::Build,
        },
{
    match authority_of(uri) {
        Some(a) => Ok(a),
        None => Err(ProxyError::Build),
    }
}

} // verus!
