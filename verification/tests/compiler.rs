//! Compiling plans into execution plans.
use evento::compiler::Compiler;
use evento::dsl::{MockConfig, Step, TestPlan};

fn http_step(name: &str) -> Step {
    Step {
        name: name.to_string(),
        description: None,
        protocol: Some("http".to_string()),
        endpoint: None,
        method: None,
        headers: None,
        body: None,
        topic: None,
        message: None,
        mode: None,
        expect: None,
        within: None,
        service: None,
        connection: None,
        query: None,
        is_async: None,
        validate: None,
        on_success: None,
        on_failure: None,
        parallel: None,
        loop_config: None,
        do_steps: None,
        wait_for: None,
        timeout: None,
        on_timeout: None,
        retry: None,
        extract: None,
        track_metric: None,
        script: None,
        runtime: None,
        transform: None,
        use_module: None,
        with: None,
        outputs_to: None,
        mock: Some(MockConfig {
            response: None,
            responses: None,
            on_exhausted: None,
            behavior: None,
            request_schema: None,
            response_schema: None,
        }),
    }
}

fn plan_of(test: &str, scenario: Vec<Step>) -> TestPlan {
    TestPlan {
        test: test.to_string(),
        description: None,
        imports: None,
        config: None,
        data_sources: None,
        functions: None,
        scenario,
        validation: None,
        outputs: None,
        metadata: None,
        base: None,
        extends: None,
    }
}

#[test]
fn test_compiler_linear_flow() {
    let plan = plan_of("sales.buyflow.basic", vec![http_step("step1"), http_step("step2")]);

    let exec_plan = Compiler::compile(plan).unwrap();

    assert_eq!(exec_plan.namespace, "sales/buyflow/basic");
    assert_eq!(exec_plan.tasks.len(), 2);

    // step2 should depend on step1
    assert_eq!(exec_plan.tasks[1].dependencies.len(), 1);
    assert_eq!(exec_plan.tasks[1].dependencies[0], exec_plan.tasks[0].task_id);
}

#[test]
fn compile_defaults_and_first_step_without_dependencies() {
    let plan = plan_of("simple", vec![http_step("only")]);
    let p = Compiler::compile(plan).unwrap();
    assert_eq!(p.config.virtual_users, 1);
    assert_eq!(p.config.duration_ms, 60000);
    assert_eq!(p.config.mock_strategy, "auto");
    assert_eq!(p.config.step_timeout, None);
    assert!(p.tasks[0].dependencies.is_empty());
    assert_eq!(p.tasks[0].step_name, "only");
    assert_ne!(p.run_id, p.tasks[0].task_id);
    assert_eq!(p.run_id.len(), 36);
    assert_eq!(p.tasks[0].task_id.len(), 36);
}

#[test]
fn compile_wait_for_resolves_named_steps() {
    let mut c = http_step("c");
    c.wait_for = Some(vec!["a".to_string(), "b".to_string()]);
    let plan = plan_of("waits", vec![http_step("a"), http_step("b"), c]);
    let p = Compiler::compile(plan).unwrap();
    assert_eq!(p.tasks[2].dependencies, vec![p.tasks[0].task_id.clone(), p.tasks[1].task_id.clone()]);
}

#[test]
fn compile_wait_for_takes_latest_step_of_a_name() {
    let mut last = http_step("z");
    last.wait_for = Some(vec!["dup".to_string()]);
    let plan = plan_of("dups", vec![http_step("dup"), http_step("dup"), last]);
    let p = Compiler::compile(plan).unwrap();
    assert_eq!(p.tasks[2].dependencies, vec![p.tasks[1].task_id.clone()]);
}

#[test]
fn compile_rejects_a_step_waiting_for_itself() {
    let mut s = http_step("self");
    s.wait_for = Some(vec!["self".to_string()]);
    let plan = plan_of("selfish", vec![http_step("before"), s]);
    let e = Compiler::compile(plan).unwrap_err();
    assert_eq!(e.message(), "Step 'self' waits for unknown step 'self'");
}

#[test]
fn compile_waits_for_an_earlier_step_of_its_own_name() {
    let mut s = http_step("dup");
    s.wait_for = Some(vec!["dup".to_string()]);
    let plan = plan_of("again", vec![http_step("dup"), s]);
    let p = Compiler::compile(plan).unwrap();
    assert_eq!(p.tasks[1].dependencies, vec![p.tasks[0].task_id.clone()]);
}

#[test]
fn compile_rejects_unknown_or_later_step() {
    let mut a = http_step("a");
    a.wait_for = Some(vec!["b".to_string()]);
    let plan = plan_of("bad", vec![a, http_step("b")]);
    let e = Compiler::compile(plan).unwrap_err();
    assert_eq!(e.step, "a");
    assert_eq!(e.missing, "b");
    assert_eq!(e.message(), "Step 'a' waits for unknown step 'b'");
}

#[test]
fn compile_reports_first_unresolved_entry() {
    let mut a = http_step("a");
    a.wait_for = Some(vec!["x".to_string(), "y".to_string()]);
    let mut b = http_step("b");
    b.wait_for = Some(vec!["w".to_string()]);
    let plan = plan_of("bad2", vec![a, b]);
    let e = Compiler::compile(plan).unwrap_err();
    assert_eq!(e.missing, "x");
}

#[test]
fn compile_namespace_and_config_values() {
    let yaml = "test: a.b.c\ndescription: d\nconfig:\n  virtual_users: 7\n  mock_strategy: auto\nscenario:\n  - name: s\n";
    let plan = TestPlan::from_yaml_str(yaml).unwrap();
    let p = Compiler::compile(plan).unwrap();
    assert_eq!(p.namespace, "a/b/c");
    assert_eq!(p.config.virtual_users, 7);
    assert_eq!(p.config.mock_strategy, "auto");
    assert_eq!(p.metadata.description.as_deref(), Some("d"));
}
