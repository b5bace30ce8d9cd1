use runtime_api_proxy::env::{latch_runtime_env, RuntimeEnv};
use runtime_api_proxy::error::{Fatal, HeaderField};
use runtime_api_proxy::route::Method;
use runtime_api_proxy::sandbox::{
    create_invoke_result_request, find_extension_name, next, Extension,
};

fn env() -> RuntimeEnv {
    latch_runtime_env(None, Some("sandbox:9001".to_string()), None).unwrap()
}

#[test]
fn registration_request_declares_invoke_events() {
    let ext = Extension::new();
    let req = ext.register_request(&env()).unwrap();
    assert_eq!(req.method, Method::Post);
    assert_eq!(req.uri, "http://sandbox:9001/2020-01-01/extension/register");
    assert_eq!(
        req.headers,
        vec![("Lambda-Extension-Name".to_string(), "lrap".to_string())]
    );
    assert_eq!(req.body, r#"{"events":["INVOKE"]}"#);
    assert_eq!(find_extension_name(), "lrap");
}

#[test]
fn registration_without_identifier_is_fatal_and_nothing_is_polled() {
    let mut ext = Extension::new();
    assert_eq!(
        ext.complete_registration(HeaderField::Missing),
        Err(Fatal::MissingExtensionId)
    );
    assert_eq!(ext.extension_id(), Err(Fatal::NotRegistered));
    assert!(matches!(ext.next_event_request(&env()), Err(Fatal::NotRegistered)));
}

#[test]
fn registration_with_unreadable_identifier_is_fatal() {
    let mut ext = Extension::new();
    assert_eq!(
        ext.complete_registration(HeaderField::Invalid),
        Err(Fatal::InvalidExtensionId)
    );
}

#[test]
fn identifier_is_kept_for_lifecycle_polls() {
    let mut ext = Extension::new();
    assert_eq!(
        ext.complete_registration(HeaderField::Present("ext-42".to_string())),
        Ok(())
    );
    assert_eq!(ext.extension_id(), Ok(&"ext-42".to_string()));
    for _ in 0..2 {
        let req = ext.next_event_request(&env()).unwrap();
        assert_eq!(req.method, Method::Get);
        assert_eq!(req.uri, "http://sandbox:9001/2020-01-01/extension/event/next");
        assert_eq!(
            req.headers,
            vec![("Lambda-Extension-Identifier".to_string(), "ext-42".to_string())]
        );
        assert_eq!(req.body, "");
    }
}

#[test]
fn second_registration_is_fatal_and_keeps_the_identifier() {
    let mut ext = Extension::new();
    ext.complete_registration(HeaderField::Present("first".to_string()))
        .unwrap();
    assert!(matches!(ext.register_request(&env()), Err(Fatal::AlreadyRegistered)));
    assert_eq!(
        ext.complete_registration(HeaderField::Present("second".to_string())),
        Err(Fatal::AlreadyRegistered)
    );
    assert_eq!(ext.extension_id(), Ok(&"first".to_string()));
}

#[test]
fn next_work_request_targets_the_control_endpoint() {
    assert_eq!(
        next(&env(), "/2018-06-01/runtime/invocation/next"),
        "http://sandbox:9001/2018-06-01/runtime/invocation/next"
    );
}

#[test]
fn invoke_result_request_posts_to_the_invocation() {
    let req = create_invoke_result_request(&env(), "abc", "{}".to_string());
    assert_eq!(req.method, Method::Post);
    assert_eq!(
        req.uri,
        "http://sandbox:9001/2018-06-01/runtime/invocation/abc/response"
    );
    assert!(req.headers.is_empty());
    assert_eq!(req.body, "{}");
}
