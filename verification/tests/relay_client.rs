use txboost::bundle::{BundleHash, SendBundleRequest, SimulateBundleRequest, StateBlockNumber};
use txboost::middleware::{finish_bundle_response, TxBoostMiddleware, TxBoostMiddlewareError};
use txboost::relay::{finish_response, Relay, RelayError};

fn relay() -> Relay<u8> {
    Relay::new("https://relay.example".to_string(), None, "token".to_string())
}

#[test]
fn ids_start_at_one_and_increase() {
    let mut r = relay();
    assert_eq!(r.next_id(), 1);
    assert_eq!(r.next_id(), 2);
    assert_eq!(r.next_id(), 3);
}

#[test]
fn clones_restart_the_id_sequence() {
    let mut r = relay();
    assert_eq!(r.next_id(), 1);
    let mut a = r.clone();
    let mut b = r.clone();
    assert_eq!(a.next_id(), 1);
    assert_eq!(b.next_id(), 1);
    assert_eq!(r.next_id(), 2);
    assert_eq!(a.url(), r.url());
    assert_eq!(a.authorization_key(), "token");
}

#[test]
fn begin_request_builds_the_envelope() {
    let mut r = relay();
    let body = r.begin_request("eth_sendBundle", "[{}]");
    assert_eq!(body,
        "{\"id\":1,\"jsonrpc\":\"2.0\",\"method\":\"eth_sendBundle\",\"params\":[{}]}");
    let body = r.begin_request("eth_callBundle", "[]");
    assert_eq!(body, "{\"id\":2,\"jsonrpc\":\"2.0\",\"method\":\"eth_callBundle\",\"params\":[]}");
}

#[test]
fn http_400_is_a_client_error_with_the_body_text() {
    match finish_response(400, "bad bundle") {
        Err(RelayError::ClientError { text }) => assert_eq!(text, "bad bundle"),
        _ => panic!("expected a client error"),
    }
    assert!(matches!(finish_response(404, "x"), Err(RelayError::ClientError { .. })));
    assert!(matches!(finish_response(499, "x"), Err(RelayError::ClientError { .. })));
}

#[test]
fn http_5xx_is_a_request_error() {
    assert!(matches!(finish_response(500, "oops"), Err(RelayError::RequestError { .. })));
    assert!(matches!(finish_response(503, ""), Err(RelayError::RequestError { .. })));
}

#[test]
fn null_result_is_an_absent_value() {
    match finish_response(200, "{\"id\":1,\"jsonrpc\":\"2.0\",\"result\":null}") {
        Ok(None) => {},
        _ => panic!("expected success with an absent value"),
    }
}

#[test]
fn present_result_is_returned_verbatim() {
    match finish_response(200, "{\"id\":1,\"jsonrpc\":\"2.0\",\"result\":{\"bundleHash\":\"0x1\"}}") {
        Ok(Some(raw)) => assert_eq!(raw, "{\"bundleHash\":\"0x1\"}"),
        _ => panic!("expected success with a value"),
    }
}

#[test]
fn relay_reported_error_text_carries_the_message() {
    match finish_response(200,
        "{\"id\":1,\"jsonrpc\":\"2.0\",\"error\":{\"code\":-32000,\"message\":\"bundle too large\"}}") {
        Err(RelayError::ResponseSerdeJson { text }) => {
            assert!(text.contains("bundle too large"));
            assert!(text.contains("-32000"));
        },
        _ => panic!("expected a protocol error"),
    }
}

#[test]
fn unparseable_body_is_a_malformed_response() {
    match finish_response(200, "not json") {
        Err(RelayError::MalformedResponse { text }) => assert_eq!(text, "not json"),
        _ => panic!("expected a malformed-response error"),
    }
}

#[test]
fn missing_result_becomes_a_bundle_error() {
    let out = finish_response(200, "{\"id\":1,\"jsonrpc\":\"2.0\",\"result\":null}");
    match finish_bundle_response::<u8>(out) {
        Err(TxBoostMiddlewareError::BundleSimError) => {},
        _ => panic!("expected the missing-result error"),
    }
}

#[test]
fn present_result_passes_through_the_middleware_finish() {
    match finish_bundle_response::<u8>(Ok(Some("{\"x\":1}".to_string()))) {
        Ok(raw) => assert_eq!(raw, "{\"x\":1}"),
        _ => panic!("expected success"),
    }
    match finish_bundle_response::<u8>(Err(RelayError::ClientError { text: "t".to_string() })) {
        Err(TxBoostMiddlewareError::RelayError(RelayError::ClientError { text })) => {
            assert_eq!(text, "t");
        },
        _ => panic!("expected the relay error to pass through"),
    }
}

#[test]
fn middleware_error_wraps_the_inner_error() {
    let e = TxBoostMiddlewareError::<u8>::from_err(7);
    assert_eq!(e.as_inner(), Some(&7));
    let r = TxBoostMiddlewareError::<u8>::RelayError(RelayError::ClientError {
        text: "x".to_string(),
    });
    assert_eq!(r.as_inner(), None);
}

#[test]
fn middleware_getters() {
    let mw = TxBoostMiddleware::new(5u32, relay(), None);
    assert_eq!(mw.relay().url(), "https://relay.example");
    assert!(mw.simulation_relay().is_none());
    assert_eq!(mw.into_inner(), 5);
}

#[test]
fn send_bundle_body_uses_the_submission_relay() {
    let mut mw = TxBoostMiddleware::new((), relay(), None);
    let req = SendBundleRequest::new(vec![BundleHash { bytes: [0x11; 32] }], 16);
    let body = mw.send_bundle_body(&req);
    let expected = format!(
        "{{\"id\":1,\"jsonrpc\":\"2.0\",\"method\":\"eth_sendBundle\",\"params\":[{}]}}",
        req.encode());
    assert_eq!(body, expected);
    assert_eq!(mw.relay().id, 1);
}

#[test]
fn simulate_bundle_body_prefers_the_simulation_relay() {
    let mut mw = TxBoostMiddleware::new((), relay(), Some(relay()));
    let req = SimulateBundleRequest::new(vec![BundleHash { bytes: [0x11; 32] }], 16,
        StateBlockNumber::Latest);
    let body = mw.simulate_bundle_body(&req);
    let expected = format!(
        "{{\"id\":1,\"jsonrpc\":\"2.0\",\"method\":\"eth_callBundle\",\"params\":[{}]}}",
        req.encode());
    assert_eq!(body, expected);
    assert_eq!(mw.relay().id, 0);
    assert_eq!(mw.simulation_relay().unwrap().id, 1);
}

#[test]
fn simulate_bundle_body_falls_back_to_the_submission_relay() {
    let mut mw = TxBoostMiddleware::new((), relay(), None);
    let req = SimulateBundleRequest::new(Vec::new(), 1, StateBlockNumber::Number(2));
    let body = mw.simulate_bundle_body(&req);
    assert!(body.contains("\"method\":\"eth_callBundle\""));
    assert!(body.contains("\"id\":1"));
    assert_eq!(mw.relay().id, 1);
}
