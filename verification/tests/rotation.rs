use snake::config::Config;
use snake::config::GatewayConfig;
use snake::config::ProviderConfig;
use snake::config::ProviderEntry;
use snake::config::TomlConfig;
use snake::config::default_cert_path;
use snake::config::default_https_port;
use snake::config::default_key_path;
use snake::config::default_port;

fn gateway(account: &str, gw: &str, token: &str) -> GatewayConfig {
    GatewayConfig {
        account_id: account.to_string(),
        gateway_id: gw.to_string(),
        token: token.to_string(),
    }
}

fn toml_config(gateways: Vec<GatewayConfig>, providers: Vec<ProviderEntry>) -> TomlConfig {
    TomlConfig {
        host_port: 3000,
        https_port: 443,
        https_server: false,
        tls_cert_path: "cert.pem".to_string(),
        tls_key_path: "key.pem".to_string(),
        gateways,
        providers,
    }
}

fn three_gateway_config() -> Config {
    let t = toml_config(
        vec![
            gateway("acc-a", "gw-a", "tok-a"),
            gateway("acc-b", "gw-b", "tok-b"),
            gateway("acc-c", "gw-c", "tok-c"),
        ],
        vec![],
    );
    Config::new(t).expect("three gateways are valid")
}

#[test]
fn gateway_rotation_visits_each_once_then_repeats() {
    let mut cfg = three_gateway_config();
    let g1 = cfg.next_gateway();
    let g2 = cfg.next_gateway();
    let g3 = cfg.next_gateway();
    let g4 = cfg.next_gateway();
    assert_eq!(g1.account_id, "acc-a");
    assert_eq!(g2.account_id, "acc-b");
    assert_eq!(g3.account_id, "acc-c");
    assert_eq!(g4.account_id, "acc-a");
}

#[test]
fn current_token_matches_gateway_just_selected() {
    let mut cfg = three_gateway_config();
    for _ in 0..5 {
        let g = cfg.next_gateway();
        assert_eq!(cfg.current_gateway_token(), g.token);
    }
}

#[test]
fn next_target_url_appends_compat_suffix() {
    let mut cfg = three_gateway_config();
    let url = cfg.next_target_url();
    assert_eq!(
        url,
        "https://gateway.ai.cloudflare.com/v1/acc-a/gw-a/compat/chat/completions"
    );
    assert_eq!(cfg.current_gateway_token(), "tok-a");
    let url2 = cfg.next_target_url();
    assert_eq!(
        url2,
        "https://gateway.ai.cloudflare.com/v1/acc-b/gw-b/compat/chat/completions"
    );
    assert_eq!(cfg.current_gateway_token(), "tok-b");
}

#[test]
fn base_url_substitutes_identifiers() {
    let g = gateway("my-account", "my-gateway", "t");
    assert_eq!(
        g.base_url(),
        "https://gateway.ai.cloudflare.com/v1/my-account/my-gateway"
    );
}

#[test]
fn provider_pool_exhausted_once_before_repeating() {
    let providers = vec![
        ProviderEntry {
            name: "openai".to_string(),
            config: ProviderConfig {
                api_keys: vec!["k1".to_string(), "k2".to_string(), "k3".to_string()],
                test_model: "m".to_string(),
            },
        },
        ProviderEntry {
            name: "groq".to_string(),
            config: ProviderConfig {
                api_keys: vec!["g1".to_string()],
                test_model: "m".to_string(),
            },
        },
    ];
    let t = toml_config(vec![gateway("a", "g", "t")], providers);
    let mut cfg = Config::new(t).expect("valid");
    assert_eq!(cfg.next_api_key("openai"), Some("k1".to_string()));
    assert_eq!(cfg.next_api_key("openai"), Some("k2".to_string()));
    assert_eq!(cfg.next_api_key("openai"), Some("k3".to_string()));
    assert_eq!(cfg.next_api_key("openai"), Some("k1".to_string()));
    // An independent pool keeps its own counter.
    assert_eq!(cfg.next_api_key("groq"), Some("g1".to_string()));
    assert_eq!(cfg.next_api_key("groq"), Some("g1".to_string()));
}

#[test]
fn absent_provider_yields_no_key() {
    let t = toml_config(vec![gateway("a", "g", "t")], vec![]);
    let mut cfg = Config::new(t).expect("valid");
    assert_eq!(cfg.next_api_key("openai"), None);
}

#[test]
fn empty_pool_yields_no_key() {
    let providers = vec![ProviderEntry {
        name: "openai".to_string(),
        config: ProviderConfig {
            api_keys: vec![],
            test_model: "m".to_string(),
        },
    }];
    let t = toml_config(vec![gateway("a", "g", "t")], providers);
    let mut cfg = Config::new(t).expect("valid");
    assert_eq!(cfg.next_api_key("openai"), None);
}

#[test]
fn zero_gateways_fail_construction() {
    let t = toml_config(vec![], vec![]);
    match Config::new(t) {
        Err(msg) => assert_eq!(msg, "At least one gateway configuration is required"),
        Ok(_) => panic!("a configuration without gateways must be rejected"),
    }
}

#[test]
fn listen_port_follows_tls_switch() {
    let mut t = toml_config(vec![gateway("a", "g", "t")], vec![]);
    t.host_port = 8080;
    t.https_port = 8443;
    let cfg = Config::new(t).expect("valid");
    assert_eq!(cfg.listen_port(), 8080);
    let mut t2 = toml_config(vec![gateway("a", "g", "t")], vec![]);
    t2.host_port = 8080;
    t2.https_port = 8443;
    t2.https_server = true;
    let cfg2 = Config::new(t2).expect("valid");
    assert_eq!(cfg2.listen_port(), 8443);
}

#[test]
fn gateway_counter_wraps_at_the_integer_bound() {
    let mut cfg = three_gateway_config();
    cfg.gateway_counter = usize::MAX;
    let g = cfg.next_gateway();
    assert_eq!(g.account_id, format!("acc-{}", ["a", "b", "c"][usize::MAX % 3]));
    assert_eq!(cfg.gateway_counter, 0);
    let g2 = cfg.next_gateway();
    assert_eq!(g2.account_id, "acc-a");
}

#[test]
fn default_values_match_configuration_surface() {
    assert_eq!(default_port(), 3000);
    assert_eq!(default_https_port(), 443);
    assert_eq!(default_cert_path(), "cert.pem");
    assert_eq!(default_key_path(), "key.pem");
}
