//! The target-service simulator's decisions.
use evento::compiler::Compiler;
use evento::dsl::TestPlan;
use evento::simulator::{latency_fits, latency_of, match_route, MockReply, RouteMatch};
use evento::state::ExecutionPlan;

fn plan(yaml: &str) -> ExecutionPlan {
    Compiler::compile(TestPlan::from_yaml_str(yaml).unwrap()).unwrap()
}

const ORDERS: &str = "test: shop\nscenario:\n  - name: list\n    endpoint: /api/orders\n    method: GET\n    mock:\n      response:\n        status: 201\n        latency: 2s\n        body:\n          ok: true\n  - name: create\n    endpoint: /api/orders\n    method: POST\n";

#[test]
fn route_not_found_names_the_request() {
    let runs = vec![("r1".to_string(), plan(ORDERS))];
    match match_route(&runs, "DELETE", "/api/orders", None) {
        RouteMatch::NotFound(m) => assert_eq!(m, "No mock found for DELETE /api/orders"),
        other => panic!("unexpected {:?}", other),
    }
}

#[test]
fn route_matches_method_without_case() {
    let runs = vec![("r1".to_string(), plan(ORDERS))];
    match match_route(&runs, "post", "/api/orders", None) {
        RouteMatch::Found(r, t) => assert_eq!((r, t), (0, 1)),
        other => panic!("unexpected {:?}", other),
    }
}

#[test]
fn route_conflict_unless_run_named() {
    let runs = vec![("r1".to_string(), plan(ORDERS)), ("r2".to_string(), plan(ORDERS))];
    match match_route(&runs, "GET", "/api/orders", None) {
        RouteMatch::Conflict(m) => assert_eq!(m, "Multiple active test plans match this route. Please provide X-Evento-Run-Id header."),
        other => panic!("unexpected {:?}", other),
    }
    match match_route(&runs, "GET", "/api/orders", Some("r2")) {
        RouteMatch::Found(r, t) => assert_eq!((r, t), (1, 0)),
        other => panic!("unexpected {:?}", other),
    }
    match match_route(&runs, "GET", "/api/orders", Some("r9")) {
        RouteMatch::NotFound(_) => {},
        other => panic!("unexpected {:?}", other),
    }
}

#[test]
fn mock_reply_of_a_step() {
    let p = plan(ORDERS);
    let r = MockReply::for_step(&p.tasks[0].step_definition);
    assert_eq!(r.status, 201);
    assert_eq!(r.latency_ms, 2000);
    assert_eq!(r.json_body.as_deref(), Some("{\"ok\":true}"));
    let bare = MockReply::for_step(&p.tasks[1].step_definition);
    assert_eq!(bare.status, 200);
    assert_eq!(bare.latency_ms, 0);
    assert!(bare.json_body.is_none());
    let odd = plan("test: x\nscenario:\n  - name: a\n    mock:\n      response:\n        status: 42\n        latency: 15ms\n");
    let o = MockReply::for_step(&odd.tasks[0].step_definition);
    assert_eq!(o.status, 200);
    assert_eq!(o.latency_ms, 15);
}

#[test]
fn simulated_latencies() {
    assert_eq!(latency_of("250ms"), 250);
    assert_eq!(latency_of("3s"), 3000);
    assert_eq!(latency_of("3sss"), 3000);
    assert_eq!(latency_of("fast"), 0);
    assert_eq!(latency_of("1m"), 0);
    assert!(latency_fits("18446744073709551615ms"));
    assert!(!latency_fits("18446744073709551615s"));
}
