use snake::headers::HeaderEntry;
use snake::headers::filter_request_headers;
use snake::headers::filter_response_headers;
use snake::headers::name_eq_ci;
use snake::headers::sse_response_headers;

fn entry(name: &str, value: &str) -> HeaderEntry {
    HeaderEntry {
        name: name.to_string(),
        value: value.as_bytes().to_vec(),
    }
}

#[test]
fn request_filter_drops_hop_by_hop_and_sets_bearer() {
    let headers = vec![
        entry("Host", "proxy.example"),
        entry("content-type", "application/json"),
        entry("Connection", "keep-alive"),
        entry("Keep-Alive", "timeout=5"),
        entry("Proxy-Authenticate", "Basic"),
        entry("proxy-authorization", "Basic abc"),
        entry("TE", "trailers"),
        entry("Trailers", "Expires"),
        entry("Transfer-Encoding", "chunked"),
        entry("Upgrade", "h2c"),
        entry("Content-Length", "42"),
        entry("authorization", "Bearer client-key"),
        entry("x-custom", "kept"),
    ];
    let out = filter_request_headers(headers, "gw-token");
    let names: Vec<&str> = out.iter().map(|h| h.name.as_str()).collect();
    assert_eq!(
        names,
        vec!["content-type", "authorization", "x-custom", "cf-aig-authorization"]
    );
    assert_eq!(out.last().unwrap().value, b"Bearer gw-token".to_vec());
    // The client's provider credential passes through untouched.
    assert_eq!(out[1].value, b"Bearer client-key".to_vec());
}

#[test]
fn request_filter_overrides_client_gateway_authorization() {
    let headers = vec![
        entry("CF-AIG-Authorization", "Bearer forged"),
        entry("accept", "text/plain"),
    ];
    let out = filter_request_headers(headers, "real-token");
    assert_eq!(out.len(), 2);
    assert_eq!(out[0].name, "accept");
    assert_eq!(out[1].name, "cf-aig-authorization");
    assert_eq!(out[1].value, b"Bearer real-token".to_vec());
}

#[test]
fn response_filter_drops_hop_by_hop_keeps_rest_in_order() {
    let headers = vec![
        entry("Content-Type", "application/json"),
        entry("connection", "close"),
        entry("keep-alive", "timeout=5"),
        entry("x-ratelimit", "99"),
        entry("transfer-encoding", "chunked"),
        entry("upgrade", "h2c"),
        entry("te", "trailers"),
        entry("trailers", "Expires"),
        entry("proxy-authenticate", "Basic"),
        entry("proxy-authorization", "Basic abc"),
        entry("content-length", "7"),
    ];
    let out = filter_response_headers(headers);
    let names: Vec<&str> = out.iter().map(|h| h.name.as_str()).collect();
    // host and content-length are dropped only on the request side.
    assert_eq!(names, vec!["Content-Type", "x-ratelimit", "content-length"]);
}

#[test]
fn sse_headers_force_event_stream_envelope() {
    let hs = sse_response_headers();
    assert_eq!(hs.len(), 3);
    assert_eq!(hs[0].name, "content-type");
    assert_eq!(hs[0].value, b"text/event-stream".to_vec());
    assert_eq!(hs[1].name, "cache-control");
    assert_eq!(hs[1].value, b"no-cache".to_vec());
    assert_eq!(hs[2].name, "connection");
    assert_eq!(hs[2].value, b"keep-alive".to_vec());
}

#[test]
fn name_comparison_ignores_ascii_case_only() {
    assert!(name_eq_ci("Content-Type", "content-type"));
    assert!(name_eq_ci("HOST", "host"));
    assert!(!name_eq_ci("host", "host2"));
    assert!(!name_eq_ci("hos", "host"));
}
