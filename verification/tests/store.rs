//! Keys of the embedded store.
use evento::store::{attempt_key, is_step_result, plan_key, run_entries_prefix, run_id_of_plan_key, run_state_key, vu_context_key};

#[test]
fn store_keys_have_their_layout() {
    assert_eq!(run_state_key("test-run-123"), "run:test-run-123:state");
    assert_eq!(vu_context_key("test-run-123", 42, "auth_token"), "run:test-run-123:ctx:42:auth_token");
    assert_eq!(run_entries_prefix("r"), "run:r:ctx:");
    assert_eq!(plan_key("test-run-123"), "plan:test-run-123");
    assert_eq!(attempt_key("r1", 0, "t9", 3), "run:r1:vu:0:task:t9:attempt:3");
}

#[test]
fn plan_keys_give_back_their_run() {
    assert_eq!(run_id_of_plan_key(&plan_key("abc")).as_deref(), Some("abc"));
    assert_eq!(run_id_of_plan_key("run:abc:state"), None);
    assert_eq!(run_id_of_plan_key("plan:").as_deref(), Some(""));
}

#[test]
fn step_results_are_recognised() {
    assert!(is_step_result(r#"{"task_id":"t","status":"Success"}"#));
    assert!(!is_step_result(r#"{"task_id":"t"}"#));
    assert!(!is_step_result("secret123"));
}
