//! Virtual-user variables and interpolation.
use evento::context::VuContext;

#[test]
fn get_after_set_and_overwrite() {
    let mut ctx = VuContext::new("run-1".to_string(), 3);
    assert_eq!(ctx.vu_id, 3);
    assert_eq!(ctx.run_id, "run-1");
    assert!(ctx.get("token").is_none());
    ctx.set("token".to_string(), "abc".to_string());
    ctx.set("other".to_string(), "x".to_string());
    assert_eq!(ctx.get("token").map(|s| s.as_str()), Some("abc"));
    ctx.set("token".to_string(), "def".to_string());
    assert_eq!(ctx.get("token").map(|s| s.as_str()), Some("def"));
    assert_eq!(ctx.get("other").map(|s| s.as_str()), Some("x"));
    assert_eq!(ctx.variables.len(), 2);
}

#[test]
fn default_context_is_empty() {
    let ctx = VuContext::default();
    assert_eq!(ctx.vu_id, 0);
    assert_eq!(ctx.run_id, "");
    assert_eq!(ctx.variables.len(), 0);
}

#[test]
fn interpolate_replaces_known_variables() {
    let mut ctx = VuContext::new("r".to_string(), 0);
    ctx.set("authToken".to_string(), "t0k".to_string());
    ctx.set("id".to_string(), "42".to_string());
    assert_eq!(ctx.interpolate("Bearer ${$context.authToken}"), "Bearer t0k");
    assert_eq!(ctx.interpolate("/api/orders/${$context.id}/items/${$context.id}"), "/api/orders/42/items/42");
}

#[test]
fn interpolate_keeps_unknown_and_other_templates() {
    let ctx = VuContext::new("r".to_string(), 0);
    assert_eq!(ctx.interpolate("${$context.missing}!"), "${$context.missing}!");
    assert_eq!(ctx.interpolate("${$faker.uuid()}"), "${$faker.uuid()}");
    assert_eq!(ctx.interpolate("unclosed ${$context.x"), "unclosed ${$context.x");
    assert_eq!(ctx.interpolate("plain text"), "plain text");
    assert_eq!(ctx.interpolate(""), "");
}
