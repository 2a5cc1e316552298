//! Reading documents: the rules beyond the scenarios.
use evento::decode::Defect;
use evento::dsl::{DoBlock, ModuleDefinition, RampUp, TestPlan};
use evento::reader::PlanError;

fn shape_error(yaml: &str) -> Defect {
    match TestPlan::from_yaml_str(yaml) {
        Err(PlanError::Shape(d)) => d,
        other => panic!("expected a shape error, got {:?}", other.map(|p| p.test)),
    }
}

#[test]
fn missing_and_duplicate_fields() {
    assert!(matches!(shape_error("scenario: []\n"), Defect::MissingField(f) if f == "test"));
    assert!(matches!(shape_error("test: t\n"), Defect::MissingField(f) if f == "scenario"));
    assert!(matches!(shape_error("test: a\nname: b\nscenario: []\n"), Defect::DuplicateField(f) if f == "test"));
    assert!(matches!(shape_error("test: t\nscenario:\n  - description: no name\n"), Defect::MissingField(f) if f == "name"));
}

#[test]
fn yaml_errors_are_reported_as_such() {
    assert!(matches!(TestPlan::from_yaml_str("test: [unclosed"), Err(PlanError::Yaml(_))));
    assert!(matches!(TestPlan::from_yaml_str("- just\n- a list\n"), Err(PlanError::Shape(_))));
}

#[test]
fn unknown_keys_and_nulls_are_ignored() {
    let p = TestPlan::from_yaml_str("test: t\nextra: 1\ndescription: ~\nscenario:\n  - name: s\n    bogus: [1, 2]\n    method: ~\n").unwrap();
    assert!(p.description.is_none());
    assert!(p.scenario[0].method.is_none());
    let empty = TestPlan::from_yaml_str("test: t\nscenario:\n").unwrap();
    assert!(empty.scenario.is_empty());
}

#[test]
fn plain_numbers_read_as_text_outside_untagged_forms() {
    let p = TestPlan::from_yaml_str("test: 42\nscenario:\n  - name: 7\n    timeout: 30\n    async: true\n").unwrap();
    assert_eq!(p.test, "42");
    assert_eq!(p.scenario[0].name, "7");
    assert_eq!(p.scenario[0].timeout.as_deref(), Some("30"));
    assert_eq!(p.scenario[0].is_async, Some(true));
}

#[test]
fn counts_must_fit_their_type() {
    assert!(TestPlan::from_yaml_str("test: t\nconfig:\n  virtual_users: 4294967295\nscenario: []\n").is_ok());
    assert!(TestPlan::from_yaml_str("test: t\nconfig:\n  virtual_users: 4294967296\nscenario: []\n").is_err());
    assert!(TestPlan::from_yaml_str("test: t\nconfig:\n  virtual_users: -1\nscenario: []\n").is_err());
    assert!(TestPlan::from_yaml_str("test: t\nconfig:\n  virtual_users: \"5\"\nscenario: []\n").is_err());
    assert!(TestPlan::from_yaml_str("test: t\nscenario:\n  - name: s\n    mock:\n      response:\n        status: 70000\n").is_err());
}

#[test]
fn untagged_forms_take_the_first_that_fits() {
    let p = TestPlan::from_yaml_str("test: t\nconfig:\n  ramp_up: 30\nscenario: []\n");
    assert!(p.is_err());
    let q = TestPlan::from_yaml_str("test: t\nconfig:\n  ramp_up: \"30s\"\nscenario: []\n").unwrap();
    assert!(matches!(q.config.unwrap().ramp_up, Some(RampUp::Duration(d)) if d == "30s"));
    let single = TestPlan::from_yaml_str("test: t\nscenario:\n  - name: l\n    do:\n      name: inner\n      protocol: https\n").unwrap();
    assert!(matches!(single.scenario[0].do_steps.as_ref(), Some(DoBlock::Single(s)) if s.name == "inner"));
    let inline = TestPlan::from_yaml_str("test: t\nscenario:\n  - name: l\n    do:\n      protocol: https\n      endpoint: /x\n").unwrap();
    match inline.scenario[0].do_steps.as_ref() {
        Some(DoBlock::Inline(b)) => assert_eq!(b.endpoint.as_deref(), Some("/x")),
        other => panic!("unexpected {:?}", other),
    }
    let strict = TestPlan::from_yaml_str("test: t\nscenario:\n  - name: l\n    do:\n      name: 5\n      protocol: https\n").unwrap();
    assert!(matches!(strict.scenario[0].do_steps.as_ref(), Some(DoBlock::Inline(_))));
    assert!(TestPlan::from_yaml_str("test: t\nscenario:\n  - name: l\n    do: 3\n").is_err());
}

#[test]
fn modules_are_read() {
    let m = ModuleDefinition::from_yaml_str("module: auth\ninputs: [user]\noutputs: [token]\nscenario:\n  - name: login\n").unwrap();
    assert_eq!(m.module, "auth");
    assert_eq!(m.inputs, Some(vec!["user".to_string()]));
    assert_eq!(m.scenario[0].name, "login");
    assert!(matches!(ModuleDefinition::from_yaml_str("scenario: []\n"), Err(PlanError::Shape(Defect::MissingField(f))) if f == "module"));
}

#[test]
fn error_texts() {
    assert_eq!(Defect::MissingField("test".to_string()).describe(), "missing field `test`");
    assert_eq!(Defect::DuplicateField("x".to_string()).describe(), "duplicate field `x`");
    assert_eq!(Defect::InvalidType("y".to_string()).describe(), "invalid type for `y`");
    assert_eq!(Defect::NoMatchingVariant("DoBlock".to_string()).describe(), "data did not match any variant of untagged enum `DoBlock`");
    let e = TestPlan::from_yaml_str("x: [").unwrap_err();
    assert!(!e.cause().is_empty());
}

#[test]
fn defects_name_the_first_field_that_does_not_read() {
    assert_eq!(shape_error("test: t\nconfig:\n  virtual_users: -1\nscenario: []\n").describe(), "invalid type for `virtual_users`");
    assert_eq!(shape_error("test: t\ndescription: [1]\nconfig:\n  virtual_users: -1\nscenario: []\n").describe(), "invalid type for `description`");
    assert_eq!(shape_error("test: t\nscenario:\n  - name: a\n    mock:\n      behavior:\n        latency: [1]\n").describe(), "data did not match any variant of untagged enum `MockLatency`");
    assert_eq!(shape_error("test: t\nscenario: 3\n").describe(), "invalid type for `steps`");
    assert_eq!(shape_error("- 1\n").describe(), "invalid type for `TestPlan`");
    assert_eq!(PlanError::Shape(shape_error("test: t\n")).cause(), "missing field `scenario`");
}
