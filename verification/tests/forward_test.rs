use snake::config::Config;
use snake::config::GatewayConfig;
use snake::config::TomlConfig;
use snake::headers::HeaderEntry;
use snake::proxy::ClientResponse;
use snake::proxy::ProxyError;
use snake::proxy::finish_response;
use snake::proxy::plan_forward;
use snake::proxy::prepare_body;
use snake::proxy::rewrite_path;

fn one_gateway_config() -> Config {
    let t = TomlConfig {
        host_port: 3000,
        https_port: 443,
        https_server: false,
        tls_cert_path: "cert.pem".to_string(),
        tls_key_path: "key.pem".to_string(),
        gateways: vec![GatewayConfig {
            account_id: "acc".to_string(),
            gateway_id: "gw".to_string(),
            token: "secret-token".to_string(),
        }],
        providers: vec![],
    };
    Config::new(t).expect("valid")
}

#[test]
fn stream_true_is_rewritten_to_false_upstream() {
    let body = "{\"model\":\"m\",\"stream\":true}".as_bytes().to_vec();
    let prepared = prepare_body(body).expect("a JSON body is accepted");
    assert!(prepared.wants_stream);
    let doc: serde_json::Value =
        serde_json::from_slice(&prepared.body).expect("the rewritten body is still JSON");
    assert_eq!(doc.get("stream"), Some(&serde_json::Value::Bool(false)));
    assert_eq!(
        doc.get("model").and_then(|m| m.as_str()),
        Some("m"),
        "the rest of the body is preserved"
    );
}

#[test]
fn stream_false_passes_body_through() {
    let body = "{\"model\":\"m\",\"stream\":false}".as_bytes().to_vec();
    let prepared = prepare_body(body.clone()).expect("accepted");
    assert!(!prepared.wants_stream);
    assert_eq!(prepared.body, body);
}

#[test]
fn missing_stream_field_passes_body_through() {
    let body = "{\"model\":\"m\"}".as_bytes().to_vec();
    let prepared = prepare_body(body.clone()).expect("accepted");
    assert!(!prepared.wants_stream);
    assert_eq!(prepared.body, body);
}

#[test]
fn non_boolean_stream_field_passes_body_through() {
    let body = "{\"stream\":\"yes\"}".as_bytes().to_vec();
    let prepared = prepare_body(body.clone()).expect("accepted");
    assert!(!prepared.wants_stream);
    assert_eq!(prepared.body, body);
}

#[test]
fn malformed_body_passes_through_unchanged() {
    let body = b"not json at all {".to_vec();
    let prepared = prepare_body(body.clone()).expect("malformed JSON is not an error");
    assert!(!prepared.wants_stream);
    assert_eq!(prepared.body, body);
}

#[test]
fn plan_composes_url_token_and_headers() {
    let mut cfg = one_gateway_config();
    let headers = vec![
        HeaderEntry {
            name: "Host".to_string(),
            value: b"proxy.local".to_vec(),
        },
        HeaderEntry {
            name: "content-type".to_string(),
            value: b"application/json".to_vec(),
        },
    ];
    let body = "{\"stream\":true}".as_bytes().to_vec();
    let plan =
        plan_forward(&mut cfg, "/v1/chat/completions", None, headers, body).expect("planning succeeds");
    assert_eq!(
        plan.url,
        "https://gateway.ai.cloudflare.com/v1/acc/gw/compat/chat/completions/chat/completions"
    );
    assert!(plan.wants_stream);
    assert_eq!(plan.headers.len(), 2);
    assert_eq!(plan.headers[0].name, "content-type");
    assert_eq!(plan.headers[1].name, "cf-aig-authorization");
    assert_eq!(plan.headers[1].value, b"Bearer secret-token".to_vec());
    assert_eq!(cfg.gateway_counter, 1, "exactly one rotation step per request");
}

#[test]
fn path_rewriting_strips_only_a_leading_version_segment() {
    assert_eq!(rewrite_path("/v1/chat/completions"), "/chat/completions");
    assert_eq!(rewrite_path("/v1"), "");
    assert_eq!(rewrite_path("/v2/models"), "/v2/models");
    assert_eq!(rewrite_path("/v1x/models"), "/v1x/models");
    assert_eq!(rewrite_path("/chat/completions"), "/chat/completions");
    assert_eq!(rewrite_path(""), "");
}

fn provider_config() -> Config {
    let t = TomlConfig {
        host_port: 3000,
        https_port: 443,
        https_server: false,
        tls_cert_path: "cert.pem".to_string(),
        tls_key_path: "key.pem".to_string(),
        gateways: vec![GatewayConfig {
            account_id: "acc".to_string(),
            gateway_id: "gw".to_string(),
            token: "gw-token".to_string(),
        }],
        providers: vec![snake::config::ProviderEntry {
            name: "openai".to_string(),
            config: snake::config::ProviderConfig {
                api_keys: vec!["k1".to_string(), "k2".to_string()],
                test_model: "m".to_string(),
            },
        }],
    };
    Config::new(t).expect("valid")
}

#[test]
fn configured_provider_key_replaces_client_authorization() {
    let mut cfg = provider_config();
    let headers = vec![
        HeaderEntry {
            name: "Authorization".to_string(),
            value: b"Bearer client-key".to_vec(),
        },
        HeaderEntry {
            name: "content-type".to_string(),
            value: b"application/json".to_vec(),
        },
    ];
    let plan = plan_forward(&mut cfg, "/v1/x", Some("openai"), headers, vec![]).expect("planned");
    let names: Vec<&str> = plan.headers.iter().map(|h| h.name.as_str()).collect();
    assert_eq!(names, vec!["content-type", "authorization", "cf-aig-authorization"]);
    assert_eq!(plan.headers[1].value, b"Bearer k1".to_vec());
    // The pool rotates independently per request.
    let plan2 =
        plan_forward(&mut cfg, "/v1/x", Some("openai"), vec![], vec![]).expect("planned");
    assert_eq!(plan2.headers[0].value, b"Bearer k2".to_vec());
}

#[test]
fn unconfigured_provider_keeps_client_authorization() {
    let mut cfg = provider_config();
    let headers = vec![HeaderEntry {
        name: "authorization".to_string(),
        value: b"Bearer client-key".to_vec(),
    }];
    let plan = plan_forward(&mut cfg, "/v1/x", Some("groq"), headers, vec![]).expect("planned");
    assert_eq!(plan.headers.len(), 2);
    assert_eq!(plan.headers[0].name, "authorization");
    assert_eq!(
        plan.headers[0].value,
        b"Bearer client-key".to_vec(),
        "the client credential is the fallback"
    );
}

#[test]
fn direct_response_passes_status_and_body_verbatim() {
    let headers = vec![
        HeaderEntry {
            name: "content-type".to_string(),
            value: b"application/json".to_vec(),
        },
        HeaderEntry {
            name: "connection".to_string(),
            value: b"close".to_vec(),
        },
    ];
    let body = b"{\"answer\":42}".to_vec();
    match finish_response(404, headers, body.clone(), false) {
        ClientResponse::Direct {
            status,
            headers,
            body: out,
        } => {
            assert_eq!(status, 404, "upstream status passes through unchanged");
            assert_eq!(out, body);
            assert_eq!(headers.len(), 1);
            assert_eq!(headers[0].name, "content-type");
        }
        ClientResponse::Stream { .. } => panic!("no stream was requested"),
    }
}

#[test]
fn error_statuses_match_taxonomy() {
    let bad_request = ProxyError::BadRequest("cannot read body".to_string());
    let bad_gateway = ProxyError::BadGateway("connect timeout".to_string());
    assert_eq!(bad_request.status_code(), 400);
    assert_eq!(bad_gateway.status_code(), 502);
    assert_eq!(bad_request.message(), "cannot read body");
    assert_eq!(bad_gateway.message(), "connect timeout");
}
