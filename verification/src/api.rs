//! The REST API of the engine: what a run submission is answered, and the JSON
//! documents that describe stored runs and their results.
use vstd::prelude::*;
use crate::compiler::{compiled_as, compiles, reports, CompileError, Compiler};
use crate::dsl::TestPlan;
use crate::reader::{plan_ok, plan_reads, PlanError};
use crate::state::ExecutionPlan;
use crate::text::owned;
use crate::value::{json_parse, json_text, parse_json, render_json, yaml_parse, Node};

verus! {

/// A request to run a test plan.
#[derive(Debug, Clone)]
pub struct RunRequest {
    /// The plan, as YAML text.
    pub yaml_content: String,
}

/// The answer to an accepted run.
#[derive(Debug, Clone)]
pub struct RunResponse {
    pub run_id: String,
    pub namespace: String,
    pub status: String,
}

/// A refused request: the HTTP status and the body text of the answer.
#[derive(Debug, Clone)]
pub struct Rejection {
    pub status: u16,
    pub body: String,
}

/// The body of the answer to a plan that does not parse.
pub open spec fn invalid_yaml_body() -> Seq<char> {
    "Invalid YAML: Failed to parse YAML test plan"@
}

/// The body of the answer to a plan that does not compile.
pub open spec fn compile_failure_body(e: CompileError) -> Seq<char> {
    "Compilation failed: "@ + ("Step '"@ + e.step@ + "' waits for unknown step '"@ + e.missing@ + "'"@)
}

/// Parses and compiles a submitted plan. A plan that does not parse is refused
/// with 400 and `Invalid YAML: Failed to parse YAML test plan`; one that does not
/// compile with 400 and `Compilation failed: ` followed by the compiler's message.
pub fn prepare_run(req: &RunRequest) -> (r: Result<ExecutionPlan, Rejection>)
    ensures
        match yaml_parse(req.yaml_content@) {
            Err(_) => r matches Err(j) && j.status == 400 && j.body@ == invalid_yaml_body(),
            Ok(n) => if !plan_ok(n) {
                r matches Err(j) && j.status == 400 && j.body@ == invalid_yaml_body()
            } else {
                exists|p: TestPlan|
                    #![trigger plan_reads(n, p)]
                    plan_reads(n, p) && match r {
                        Ok(e) => compiles(p.scenario@) && compiled_as(p, e),
                        Err(j) => !compiles(p.scenario@) && j.status == 400 && exists|ce: CompileError|
                            #![trigger reports(p.scenario@, ce)]
                            reports(p.scenario@, ce) && j.body@ == compile_failure_body(ce),
                    }
            },
        },
{
    let plan = match TestPlan::from_yaml_str(req.yaml_content.as_str()) {
        Ok(p) => p,
        Err(_) => {
            return Err(Rejection { status: 400, body: owned("Invalid YAML: Failed to parse YAML test plan") });
        },
    };
    let ghost p = plan;
    match Compiler::compile(plan) {
        Ok(e) => Ok(e),
        Err(ce) => {
            let mut body = owned("Compilation failed: ");
            body.append(ce.message().as_str());
            assert(reports(p.scenario@, ce));
            Err(Rejection { status: 400, body })
        },
    }
}

impl RunResponse {
    /// The answer to an accepted run: its id and namespace, status `Submitted`.
    pub fn submitted(plan: &ExecutionPlan) -> (r: RunResponse)
        ensures
            r.run_id == plan.run_id,
            r.namespace == plan.namespace,
            r.status@ == "Submitted"@,
    {
        RunResponse { run_id: plan.run_id.clone(), namespace: plan.namespace.clone(), status: owned("Submitted") }
    }
}

/// The stored state of a run, as read from the store.
#[derive(Debug, Clone)]
pub enum StateLookup {
    /// The stored state text.
    Found(String),
    /// No state is stored.
    Missing,
    /// The store could not be read.
    Unreadable,
}

/// The text that stands for a run's state: the stored text, `Unknown` when there
/// is none, `Error` when the store fails.
pub open spec fn state_text(s: StateLookup) -> Seq<char> {
    match s {
        StateLookup::Found(t) => t@,
        StateLookup::Missing => "Unknown"@,
        StateLookup::Unreadable => "Error"@,
    }
}

/// The document that describes a run: `{"run_id": id, "plan": the plan's JSON (or
/// null when it does not parse), "state": the state's JSON (or its text when it
/// does not parse)}`.
pub open spec fn run_document(d: Node, run_id: Seq<char>, plan_json: Seq<char>, state: Seq<char>) -> bool {
    d matches Node::Mapping(es) && {
        &&& es@.len() == 3
        &&& es@[0].0 matches Node::String(k) && k@ == "run_id"@
        &&& es@[0].1 matches Node::String(v) && v@ == run_id
        &&& es@[1].0 matches Node::String(k) && k@ == "plan"@
        &&& es@[1].1 == match json_parse(plan_json) {
            Some(v) => v,
            None => Node::Null,
        }
        &&& es@[2].0 matches Node::String(k) && k@ == "state"@
        &&& match json_parse(state) {
            Some(v) => es@[2].1 == v,
            None => es@[2].1 matches Node::String(t) && t@ == state,
        }
    }
}

/// Describes a run from its stored plan text and state.
pub fn run_details(run_id: &str, plan_json: &str, state: StateLookup) -> (d: Node)
    ensures
        run_document(d, run_id@, plan_json@, state_text(state)),
{
    let state_str = match state {
        StateLookup::Found(t) => t,
        StateLookup::Missing => owned("Unknown"),
        StateLookup::Unreadable => owned("Error"),
    };
    let plan = match parse_json(plan_json) {
        Some(v) => v,
        None => Node::Null,
    };
    let state_node = match parse_json(state_str.as_str()) {
        Some(v) => v,
        None => Node::String(state_str),
    };
    let mut es: Vec<(Node, Node)> = Vec::new();
    es.push((Node::String(owned("run_id")), Node::String(owned(run_id))));
    es.push((Node::String(owned("plan")), plan));
    es.push((Node::String(owned("state")), state_node));
    Node::Mapping(es)
}

/// The stored results that parse as JSON, in order.
pub open spec fn parsed_results(rs: Seq<String>) -> Seq<Node>
    decreases rs.len(),
{
    if rs.len() == 0 {
        Seq::empty()
    } else {
        let prev = parsed_results(rs.drop_last());
        match json_parse(rs.last()@) {
            Some(v) => prev.push(v),
            None => prev,
        }
    }
}

/// Parses the stored step results of a run, dropping those that are not JSON.
pub fn results_document(results: &Vec<String>) -> (d: Node)
    ensures
        d matches Node::Sequence(items) && items@ == parsed_results(results@),
{
    let mut items: Vec<Node> = Vec::new();
    let n = results.len();
    let mut i: usize = 0;
    assert(results@.take(0) =~= Seq::<String>::empty());
    while i < n
        invariant
            n == results@.len(),
            i <= n,
            items@ == parsed_results(results@.take(i as int)),
        decreases n - i,
    {
        proof {
            assert(results@.take(i + 1).drop_last() =~= results@.take(i as int));
        }
        match parse_json(results[i].as_str()) {
            Some(v) => items.push(v),
            None => {},
        }
        i = i + 1;
    }
    assert(results@.take(n as int) =~= results@);
    Node::Sequence(items)
}

/// The compact JSON text of a document.
pub fn json_string(d: &Node) -> (s: String)
    ensures
        s@ == json_text(*d),
{
    render_json(d)
}

} // verus!
