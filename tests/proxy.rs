use runtime_api_proxy::env::latch_runtime_env;
use runtime_api_proxy::proxy::{endpoint_uri, passthru_reply, Forwarded, BAD_GATEWAY_STATUS};

fn env() -> runtime_api_proxy::env::RuntimeEnv {
    latch_runtime_env(None, Some("127.0.0.1:9001".to_string()), None).unwrap()
}

#[test]
fn target_uri_keeps_path_and_query_on_the_control_endpoint() {
    assert_eq!(
        endpoint_uri(&env(), "/2018-06-01/runtime/invocation/next?x=1"),
        "http://127.0.0.1:9001/2018-06-01/runtime/invocation/next?x=1"
    );
    assert_eq!(endpoint_uri(&env(), "/"), "http://127.0.0.1:9001/");
}

#[test]
fn upstream_response_is_returned_unmodified() {
    let outcome: Result<String, ()> = Ok("root response".to_string());
    match passthru_reply(outcome) {
        Forwarded::Upstream(r) => assert_eq!(r, "root response"),
        other => panic!("unexpected {:?}", other),
    }
}

#[test]
fn refused_connection_gives_bad_gateway() {
    let outcome: Result<String, &str> = Err("connection refused");
    match passthru_reply(outcome) {
        Forwarded::BadGateway { status, body } => {
            assert_eq!(status, 502);
            assert_eq!(status, BAD_GATEWAY_STATUS);
            assert_eq!(
                body,
                "502 - Bad Gateway: Lambda Runtime API did not process request"
            );
        }
        other => panic!("unexpected {:?}", other),
    }
}
