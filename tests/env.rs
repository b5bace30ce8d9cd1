use runtime_api_proxy::env::{latch_runtime_env, lrap_api, sandbox_runtime_api, DEFAULT_PROXY_PORT};
use runtime_api_proxy::error::Fatal;

#[test]
fn proxy_endpoint_name_wins_over_runtime_api_name() {
    let env = latch_runtime_env(
        Some("proxy:1".to_string()),
        Some("runtime:2".to_string()),
        None,
    )
    .unwrap();
    assert_eq!(sandbox_runtime_api(&env), "proxy:1");
    let env = latch_runtime_env(None, Some("runtime:2".to_string()), None).unwrap();
    assert_eq!(sandbox_runtime_api(&env), "runtime:2");
}

#[test]
fn missing_control_endpoint_is_fatal() {
    assert!(matches!(
        latch_runtime_env(None, None, Some("80".to_string())),
        Err(Fatal::MissingControlEndpoint)
    ));
}

#[test]
fn listen_address_is_loopback_with_configured_or_default_port() {
    let with = |p: Option<&str>| {
        let env = latch_runtime_env(None, Some("r:1".to_string()), p.map(|s| s.to_string()))
            .unwrap();
        lrap_api(&env).to_string()
    };
    assert_eq!(DEFAULT_PROXY_PORT, 9009);
    assert_eq!(with(None), "127.0.0.1:9009");
    assert_eq!(with(Some("8080")), "127.0.0.1:8080");
    assert_eq!(with(Some("+7")), "127.0.0.1:7");
    assert_eq!(with(Some("0")), "127.0.0.1:0");
    assert_eq!(with(Some("65535")), "127.0.0.1:65535");
    assert_eq!(with(Some("65536")), "127.0.0.1:9009");
    assert_eq!(with(Some("-1")), "127.0.0.1:9009");
    assert_eq!(with(Some("")), "127.0.0.1:9009");
    assert_eq!(with(Some(" 80")), "127.0.0.1:9009");
    assert_eq!(with(Some("port")), "127.0.0.1:9009");
}
