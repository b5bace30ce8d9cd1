use runtime_api_proxy::error::{Fatal, HeaderField};
use runtime_api_proxy::env::latch_runtime_env;
use runtime_api_proxy::poller::{
    validate_and_mangle_next_event, FetchOutcome, PollAction, PollState, Poller, Resolution,
    Verdict, RETRY_DELAY_MS,
};
use runtime_api_proxy::sandbox::{create_invoke_result_request, OutboundRequest};

#[test]
fn transport_failure_retries_after_fixed_delay() {
    let mut p = Poller::new();
    for _ in 0..3 {
        let a = p.on_fetched(FetchOutcome::TransportFailure);
        assert_eq!(a, PollAction::Retry { delay_ms: 100 });
        assert_eq!(RETRY_DELAY_MS, 100);
        assert_eq!(p.state_now(), PollState::WaitNext);
    }
}

#[test]
fn missing_request_id_is_fatal() {
    let mut p = Poller::new();
    let a = p.on_fetched(FetchOutcome::Response(HeaderField::Missing));
    assert_eq!(a, PollAction::Abort(Fatal::MissingRequestId));
    assert_eq!(p.state_now(), PollState::Done);
    assert!(Fatal::MissingRequestId
        .message()
        .contains("lambda-runtime-aws-request-id"));
}

#[test]
fn unreadable_request_id_is_fatal() {
    let mut p = Poller::new();
    let a = p.on_fetched(FetchOutcome::Response(HeaderField::Invalid));
    assert_eq!(a, PollAction::Abort(Fatal::InvalidRequestId));
}

#[test]
fn accepted_work_is_delivered() {
    let mut p = Poller::new();
    let a = p.on_fetched(FetchOutcome::Response(HeaderField::Present("id-1".to_string())));
    assert_eq!(a, PollAction::Validate("id-1".to_string()));
    assert_eq!(p.state_now(), PollState::Validate);
    let v = validate_and_mangle_next_event("id-1", "payload".to_string());
    assert!(matches!(&v, Verdict::Accept(r) if r == "payload"));
    match p.on_verdict(v) {
        Resolution::Deliver(r) => assert_eq!(r, "payload"),
        Resolution::SendCorrective(_) => panic!("accepted work was not delivered"),
    }
    assert_eq!(p.state_now(), PollState::Done);
}

#[test]
fn rejected_work_is_reported_and_fetched_again() {
    let env = latch_runtime_env(None, Some("sandbox:9001".to_string()), None).unwrap();
    let mut p = Poller::new();
    p.on_fetched(FetchOutcome::Response(HeaderField::Present("bad".to_string())));
    let corrective = create_invoke_result_request(&env, "bad", "{}".to_string());
    let v: Verdict<String, OutboundRequest> = Verdict::Reject(corrective);
    match p.on_verdict(v) {
        Resolution::SendCorrective(req) => assert_eq!(
            req.uri,
            "http://sandbox:9001/2018-06-01/runtime/invocation/bad/response"
        ),
        Resolution::Deliver(_) => panic!("rejected work was delivered"),
    }
    assert_eq!(p.state_now(), PollState::WaitNext);
    let a = p.on_fetched(FetchOutcome::Response(HeaderField::Present("good".to_string())));
    assert_eq!(a, PollAction::Validate("good".to_string()));
}

#[test]
fn every_fatal_error_has_its_line() {
    assert_eq!(
        Fatal::MissingControlEndpoint.message(),
        "LRAP_RUNTIME_API_ENDPOINT or AWS_LAMBDA_RUNTIME_API not found"
    );
    assert_eq!(
        Fatal::NotRegistered.message(),
        "Lambda Extension Identifier not set!"
    );
    assert!(Fatal::MissingExtensionId
        .message()
        .contains("lambda-extension-identifier"));
}
