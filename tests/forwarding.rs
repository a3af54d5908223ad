use github_app_proxy::auth::{build_auth_header, build_basic_header, build_bearer_header};
use github_app_proxy::error::ProxyError;
use github_app_proxy::headers::{copy_headers, is_hop_header, HeaderEntry};
use github_app_proxy::proxy::{
    bad_gateway_response, classify, error_response, health_response, is_mcp_request,
    local_response, plan_request, OutboundPlan, Route, Upstreams,
};
use github_app_proxy::upstream::BaseUrl;

fn entry(name: &str, value: &str) -> HeaderEntry {
    HeaderEntry { name: name.to_string(), value: value.as_bytes().to_vec() }
}

fn names(headers: &[HeaderEntry]) -> Vec<String> {
    headers.iter().map(|e| e.name.clone()).collect()
}

fn find<'a>(headers: &'a [HeaderEntry], name: &str) -> Vec<&'a [u8]> {
    headers.iter().filter(|e| e.name == name).map(|e| e.value.as_slice()).collect()
}

fn base(head: &str, domain: Option<&str>, path: &str) -> BaseUrl {
    BaseUrl { head: head.to_string(), domain: domain.map(|d| d.to_string()), path: path.to_string() }
}

fn upstreams() -> Upstreams {
    Upstreams {
        api_base: base("https://example.com", Some("example.com"), "/api/v3"),
        mcp_base: base("https://mcp.example.com", Some("mcp.example.com"), "/"),
    }
}

fn plan(path: &str, pq: &str, inbound: &Vec<HeaderEntry>, token: &str) -> OutboundPlan {
    plan_request(&upstreams(), path, pq, inbound, token).expect("plan")
}

#[test]
fn mcp_prefix_is_case_sensitive() {
    assert!(is_mcp_request("/mcp"));
    assert!(is_mcp_request("/mcp/tools/list"));
    assert!(is_mcp_request("/mcpx"));
    assert!(!is_mcp_request("/MCP/tools"));
    assert!(!is_mcp_request("/repos/mcp"));
    assert!(!is_mcp_request("/mc"));
    assert!(!is_mcp_request(""));
}

#[test]
fn healthz_is_answered_locally() {
    assert_eq!(classify("/healthz"), Route::Health);
    let r = local_response("/healthz").expect("health");
    assert_eq!(r.status, 200);
    assert_eq!(r.body, "ok");
    assert_eq!(r.content_type, "text/plain");
    let h = health_response();
    assert_eq!((h.status, h.body.as_str()), (200, "ok"));
}

#[test]
fn healthz_needs_an_exact_path() {
    assert_eq!(classify("/healthz/"), Route::Standard);
    assert_eq!(classify("/healthzz"), Route::Standard);
    assert_eq!(classify("/mcp/healthz"), Route::Mcp);
    assert!(local_response("/healthz/").is_none());
    assert!(local_response("/repos/x/y").is_none());
}

#[test]
fn every_failure_is_bad_gateway() {
    for e in [ProxyError::Refresh, ProxyError::Build, ProxyError::Header, ProxyError::Transport] {
        let r = error_response(e);
        assert_eq!(r.status, 502);
        assert_eq!(r.body, "bad gateway");
        assert_eq!(r.content_type, "text/plain");
    }
    assert_eq!(bad_gateway_response().status, 502);
}

#[test]
fn basic_header_encodes_access_token() {
    assert_eq!(build_basic_header("abc").unwrap(), "Basic eC1hY2Nlc3MtdG9rZW46YWJj");
    assert_eq!(build_auth_header("abc", false).unwrap(), "Basic eC1hY2Nlc3MtdG9rZW46YWJj");
}

#[test]
fn bearer_header_carries_token() {
    assert_eq!(build_bearer_header("ghs_123").unwrap(), "Bearer ghs_123");
    assert_eq!(build_auth_header("ghs_123", true).unwrap(), "Bearer ghs_123");
}

#[test]
fn header_value_rejects_control_characters() {
    assert_eq!(build_bearer_header("bad\ntoken"), Err(ProxyError::Header));
    assert_eq!(build_bearer_header("bad\u{7f}"), Err(ProxyError::Header));
    assert!(build_bearer_header("tab\tok").is_ok());
    // base64 output is always a legal value
    assert!(build_basic_header("bad\ntoken").is_ok());
}

#[test]
fn hop_headers_any_case() {
    for n in [
        "connection", "Connection", "KEEP-ALIVE", "proxy-authenticate", "Proxy-Authorization",
        "te", "TE", "trailer", "Transfer-Encoding", "upgrade",
    ] {
        assert!(is_hop_header(n), "{}", n);
    }
    for n in ["accept", "authorization", "host", "tee", "x-connection", ""] {
        assert!(!is_hop_header(n), "{}", n);
    }
}

#[test]
fn copy_drops_hop_auth_and_host() {
    let src = vec![
        entry("connection", "keep-alive"),
        entry("accept", "application/json"),
        entry("Authorization", "token secret"),
        entry("x-custom", "1"),
        entry("Host", "proxy.local"),
        entry("x-custom", "2"),
        entry("Keep-Alive", "timeout=5"),
        entry("transfer-encoding", "chunked"),
    ];
    let mut dst = vec![entry("existing", "v")];
    copy_headers(&src, &mut dst);
    assert_eq!(names(&dst), vec!["existing", "accept", "x-custom", "x-custom"]);
    assert_eq!(find(&dst, "x-custom"), vec![b"1".as_slice(), b"2".as_slice()]);
}

#[test]
fn standard_route_uses_basic_and_api_base() {
    let inbound = vec![
        entry("connection", "keep-alive"),
        entry("authorization", "Bearer client-secret"),
        entry("host", "proxy.local"),
        entry("accept", "*/*"),
    ];
    let p = plan("/repos/x/y", "/repos/x/y?per_page=5", &inbound, "abc");
    assert_eq!(p.uri, "https://example.com/api/v3/repos/x/y?per_page=5");
    assert_eq!(names(&p.headers), vec!["accept", "authorization", "host"]);
    assert_eq!(find(&p.headers, "authorization"), vec![b"Basic eC1hY2Nlc3MtdG9rZW46YWJj".as_slice()]);
    assert_eq!(find(&p.headers, "host"), vec![b"example.com".as_slice()]);
}

#[test]
fn mcp_route_uses_bearer_and_mcp_base() {
    let inbound = vec![entry("content-type", "application/json"), entry("upgrade", "h2c")];
    let p = plan("/mcp/", "/mcp/", &inbound, "ghs_tok");
    assert_eq!(p.uri, "https://mcp.example.com/mcp/");
    assert_eq!(names(&p.headers), vec!["content-type", "authorization", "host"]);
    assert_eq!(find(&p.headers, "authorization"), vec![b"Bearer ghs_tok".as_slice()]);
    assert_eq!(find(&p.headers, "host"), vec![b"mcp.example.com".as_slice()]);
}

#[test]
fn plan_fails_on_bad_token() {
    let r = plan_request(&upstreams(), "/mcp", "/mcp", &Vec::new(), "a\r\nb");
    assert!(matches!(r, Err(ProxyError::Header)));
}

#[test]
fn plan_fails_on_bad_base() {
    let u = Upstreams {
        api_base: base("not a url", None, ""),
        mcp_base: base("https://mcp.example.com", Some("mcp.example.com"), "/"),
    };
    let r = plan_request(&u, "/repos", "/repos", &Vec::new(), "t");
    assert!(matches!(r, Err(ProxyError::Build)));
}
