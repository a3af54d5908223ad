use vstd::prelude::*;
use vstd::utf8::encode_utf8;

use crate::auth::{auth_value, build_auth_header, check_header_value, valid_header_text};
use crate::error::ProxyError;
use crate::auth::{basic_value, bearer_value};
use crate::headers::{
    copy_headers, entries_view, is_dropped_name, kept, lemma_kept_drops, lemma_kept_keeps, HeaderEntry,
};
use crate::text::{has_prefix, starts_with, str_eq};
use crate::upstream::{build_target_uri, target_authority, target_url, uri_authority, BaseUrl};

verus! {

/// How an inbound request is served.
#[derive(Debug, Clone, Copy, PartialEq, Eq, Structural)]
pub enum Route {
    /// `/healthz`: a fixed answer, no token and no upstream call.
    Health,
    /// Forwarded to the general API base with Basic auth.
    Standard,
    /// Forwarded to the MCP base with Bearer auth.
    Mcp,
}

pub open spec fn is_mcp_path(path: Seq<char>) -> bool {
    has_prefix(path, "/mcp"@)
}

pub open spec fn route_of(path: Seq<char>) -> Route {
    if path == "/healthz"@ {
        Route::Health
    } else if is_mcp_path(path) {
        Route::Mcp
    } else {
        Route::Standard
    }
}

/// Whether the path is under `/mcp` (case-sensitive prefix).
pub fn is_mcp_request(path: &str) -> (r: bool)
    ensures
        r == is_mcp_path(path@),
{
    starts_with(path, "/mcp")
}

/// The route for an inbound path; the method plays no part.
pub fn classify(path: &str) -> (r: Route)
    ensures
        r == route_of(path@),
{
    if str_eq(path, "/healthz") {
        Route::Health
    } else if is_mcp_request(path) {
        Route::Mcp
    } else {
        Route::Standard
    }
}

/// A response the proxy answers by itself.
pub struct FixedResponse {
    pub status: u16,
    pub content_type: String,
    pub body: String,
}

/// `200`, `text/plain`, `ok`.
pub fn health_response() -> (r: FixedResponse)
    ensures
        r.status == 200,
        r.content_type@ == "text/plain"@,
        r.body@ == "ok"@,
{
    FixedResponse {
        status: 200,
        content_type: String::from_str("text/plain"),
        body: String::from_str("ok"),
    }
}

/// `502`, `text/plain`, `bad gateway`.
pub fn bad_gateway_response() -> (r: FixedResponse)
    ensures
        r.status == 502,
        r.content_type@ == "text/plain"@,
        r.body@ == "bad gateway"@,
{
    FixedResponse {
        status: 502,
        content_type: String::from_str("text/plain"),
        body: String::from_str("bad gateway"),
    }
}

/// The answer to a failed forward: the same for every kind of failure.
pub fn error_response(err: ProxyError) -> (r: FixedResponse)
    ensures
        r.status == 502,
        r.content_type@ == "text/plain"@,
        r.body@ == "bad gateway"@,
{
    bad_gateway_response()
}

/// The answer given without forwarding: the health response for exactly
/// `/healthz`, whatever the method; `None` where the request is forwarded.
pub fn local_response(path: &str) -> (r: Option<FixedResponse>)
    ensures
        path@ == "/healthz"@ ==> (r matches Some(h) && h.status == 200 && h.content_type@
            == "text/plain"@ && h.body@ == "ok"@),
        path@ != "/healthz"@ ==> r is None,
{
    match classify(path) {
        Route::Health => Some(health_response()),
        _ => None,
    }
}

/// The two upstream bases: the general API and the MCP API.
pub struct Upstreams {
    pub api_base: BaseUrl,
    pub mcp_base: BaseUrl,
}

/// The request to send upstream: its URL and its full header list.
pub struct OutboundPlan {
    pub uri: String,
    pub headers: Vec<HeaderEntry>,
}

impl View for OutboundPlan {
    type V = (Seq<char>, Seq<(Seq<char>, Seq<u8>)>);

    open spec fn view(&self) -> Self::V {
        (self.uri@, entries_view(self.headers@))
    }
}

pub open spec fn plan_view(r: Result<OutboundPlan, ProxyError>) -> Result<
    (Seq<char>, Seq<(Seq<char>, Seq<u8>)>),
    ProxyError,
> {
    match r {
        Ok(p) => Ok(p@),
        Err(e) => Err(e),
    }
}

/// The outbound request for an inbound one: the route picks the base and the
/// scheme; the path and query are appended to the base; the inbound headers
/// are kept but hop-by-hop, `authorization` and `host`; then come the
/// `authorization` header and a `host` header with the target's authority.
pub open spec fn planned(
    api_base: (Seq<char>, Option<Seq<char>>, Seq<char>),
    mcp_base: (Seq<char>, Option<Seq<char>>, Seq<char>),
    path: Seq<char>,
    path_and_query: Seq<char>,
    inbound: Seq<(Seq<char>, Seq<u8>)>,
    token: Seq<char>,
) -> Result<(Seq<char>, Seq<(Seq<char>, Seq<u8>)>), ProxyError> {
    let mcp = is_mcp_path(path);
    let base = if mcp {
        mcp_base
    } else {
        api_base
    };
    match target_url(base, path_and_query) {
        None => Err(ProxyError::Build),
        Some(uri) => match uri_authority(uri) {
            None => Err(ProxyError::Build),
            Some(authority) => {
                let auth = auth_value(token, mcp);
                if !valid_header_text(auth) || !valid_header_text(authority) {
                    Err(ProxyError::Header)
                } else {
                    Ok(
                        (
                            uri,
                            kept(inbound).push(("authorization"@, encode_utf8(auth))).push(
                                ("host"@, encode_utf8(authority)),
                            ),
                        ),
                    )
                }
            },
        },
    }
}

/// Builds the outbound request for an inbound one, given the token to send.
pub fn plan_request(
    upstreams: &Upstreams,
    path: &str,
    path_and_query: &str,
    inbound: &Vec<HeaderEntry>,
    token: &str,
) -> (r: Result<OutboundPlan, ProxyError>)
    ensures
        plan_view(r) == planned(
            upstreams.api_base@,
            upstreams.mcp_base@,
            path@,
            path_and_query@,
            entries_view(inbound@),
            token@,
        ),
{
    let mcp = is_mcp_request(path);
    let base = if mcp {
        &upstreams.mcp_base
    } else {
        &upstreams.api_base
    };
    let uri = match build_target_uri(base, path_and_query) {
        Ok(u) => u,
        Err(e) => return Err(e),
    };
    let authority = match target_authority(uri.as_str()) {
        Ok(a) => a,
        Err(e) => return Err(e),
    };
    let auth = match build_auth_header(token, mcp) {
        Ok(v) => v,
        Err(e) => return Err(e),
    };
    let host = match check_header_value(authority) {
        Ok(v) => v,
        Err(e) => return Err(e),
    };
    let mut headers: Vec<HeaderEntry> = Vec::new();
    copy_headers(inbound, &mut headers);
    assert(entries_view(Seq::<HeaderEntry>::empty()) =~= Seq::empty());
    let ghost copied = headers@;
    headers.push(
        HeaderEntry { name: String::from_str("authorization"), value: auth.as_str().as_bytes_vec() },
    );
    headers.push(HeaderEntry { name: String::from_str("host"), value: host.as_str().as_bytes_vec() });
    proof {
        assert(entries_view(headers@) =~= entries_view(copied).push(
            ("authorization"@, encode_utf8(auth@)),
        ).push(("host"@, encode_utf8(host@))));
    }
    Ok(OutboundPlan { uri, headers })
}

/// On an MCP path the outbound `Authorization` is `Bearer {token}`; on any
/// other path it is `Basic` with the base64 of `x-access-token:{token}`. It is
/// the one `authorization` entry, and `host` carries the target's authority.
pub proof fn lemma_auth_scheme(
    api_base: (Seq<char>, Option<Seq<char>>, Seq<char>),
    mcp_base: (Seq<char>, Option<Seq<char>>, Seq<char>),
    path: Seq<char>,
    path_and_query: Seq<char>,
    inbound: Seq<(Seq<char>, Seq<u8>)>,
    token: Seq<char>,
)
    requires
        planned(api_base, mcp_base, path, path_and_query, inbound, token) is Ok,
    ensures
        ({
            let h = planned(api_base, mcp_base, path, path_and_query, inbound, token)->Ok_0.1;
            let n = h.len();
            &&& n >= 2
            &&& h[n - 2] == ("authorization"@, encode_utf8(
                if is_mcp_path(path) {
                    bearer_value(token)
                } else {
                    basic_value(token)
                },
            ))
            &&& h[n - 1].0 == "host"@
            &&& forall|i: int| 0 <= i < n - 2 ==> !is_dropped_name(#[trigger] h[i].0)
        }),
{
    lemma_kept_drops(inbound);
}

/// Header fidelity: of the inbound headers, exactly those that are neither
/// hop-by-hop nor `authorization` nor `host` reach the outbound request,
/// where only the proxy's own two entries follow them.
pub proof fn lemma_header_fidelity(
    api_base: (Seq<char>, Option<Seq<char>>, Seq<char>),
    mcp_base: (Seq<char>, Option<Seq<char>>, Seq<char>),
    path: Seq<char>,
    path_and_query: Seq<char>,
    inbound: Seq<(Seq<char>, Seq<u8>)>,
    token: Seq<char>,
)
    requires
        planned(api_base, mcp_base, path, path_and_query, inbound, token) is Ok,
    ensures
        ({
            let h = planned(api_base, mcp_base, path, path_and_query, inbound, token)->Ok_0.1;
            let copied = h.subrange(0, h.len() - 2);
            &&& forall|i: int| 0 <= i < copied.len() ==> !is_dropped_name(#[trigger] copied[i].0)
            &&& forall|i: int| 0 <= i < copied.len() ==> inbound.contains(#[trigger] copied[i])
            &&& forall|e: (Seq<char>, Seq<u8>)|
                #![trigger inbound.contains(e)]
                inbound.contains(e) && !is_dropped_name(e.0) ==> copied.contains(e)
        }),
{
    lemma_kept_drops(inbound);
    let h = planned(api_base, mcp_base, path, path_and_query, inbound, token)->Ok_0.1;
    let copied = h.subrange(0, h.len() - 2);
    assert(copied =~= kept(inbound));
    assert forall|e: (Seq<char>, Seq<u8>)|
        #![trigger inbound.contains(e)]
        inbound.contains(e) && !is_dropped_name(e.0) implies copied.contains(e) by {
        lemma_kept_keeps(inbound, e);
    }
}

} // verus!
