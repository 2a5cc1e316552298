//! Validation rules against responses.
use evento::protocol::ProtocolResponse;
use evento::rules::rule_passes;

fn response(status: u16, latency: u64) -> ProtocolResponse {
    ProtocolResponse::from_http(status, latency, vec![("content-type".to_string(), "text/plain".to_string())], b"ok".to_vec())
}

#[test]
fn status_rules() {
    let r = response(201, 80);
    assert!(rule_passes("response.status == 201", &r));
    assert!(!rule_passes("response.status == 200", &r));
    assert!(rule_passes("response.status != 200", &r));
    assert!(rule_passes("response.status < 300", &r));
    assert!(rule_passes("response.status >= 201", &r));
    assert!(!rule_passes("response.status > 201", &r));
    assert!(rule_passes("response.status <= 201", &r));
}

#[test]
fn time_and_header_rules() {
    let r = response(200, 480);
    assert!(rule_passes("response.time < 500ms", &r));
    assert!(!rule_passes("response.time < 400ms", &r));
    assert!(rule_passes("header['Content-Type'] exists", &r));
    assert!(!rule_passes("header['X-Idempotency-Key'] exists", &r));
}

#[test]
fn other_rules_do_not_fail() {
    let r = response(500, 1);
    assert!(rule_passes("context.order.amount > 0", &r));
    assert!(rule_passes("response.status == abc", &r));
    assert!(rule_passes("response.status  == 200", &r));
}
