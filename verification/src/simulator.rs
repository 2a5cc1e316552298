//! The target-service simulator: which stored plan step answers a request, and
//! with what status, latency and body its mock answers.
use vstd::prelude::*;
use crate::dsl::Step;
use crate::state::{ExecutionPlan, ExecutionTask};
use crate::text::{
    decimal_text, ends_with, eq_ignore_ascii_case, equal_ignoring_ascii_case, has_suffix, is_digit,
    lemma_decimal_text_value, lemma_parse_decimal_text, owned, parse_u64, spec_parse_u64, str_equal,
};
use crate::value::{tags_named, yaml_json_text, yaml_to_json, Node};
use crate::worker::{before_suffix, trim_end_all, trim_end_matches_str};

verus! {

/// A step serves a request when its endpoint is the request path and its method
/// is the request method, ASCII letters compared without case.
pub open spec fn step_serves(step: Step, method: Seq<char>, path: Seq<char>) -> bool {
    &&& step.endpoint matches Some(e) && e@ == path
    &&& step.method matches Some(m) && eq_ignore_ascii_case(m@, method)
}

/// A run is considered when the request names no run, or names this one.
pub open spec fn run_considered(id: Seq<char>, wanted: Option<Seq<char>>) -> bool {
    wanted is None || wanted == Some(id)
}

/// The tasks (run index, task index) of one run that serve a request, in order.
pub open spec fn task_hits(tasks: Seq<ExecutionTask>, run: int, method: Seq<char>, path: Seq<char>) -> Seq<(int, int)>
    decreases tasks.len(),
{
    if tasks.len() == 0 {
        Seq::empty()
    } else {
        let prev = task_hits(tasks.drop_last(), run, method, path);
        if step_serves(tasks.last().step_definition, method, path) {
            prev.push((run, tasks.len() - 1))
        } else {
            prev
        }
    }
}

/// The tasks of all considered runs that serve a request, run by run, in order.
pub open spec fn route_hits(
    runs: Seq<(String, ExecutionPlan)>,
    method: Seq<char>,
    path: Seq<char>,
    wanted: Option<Seq<char>>,
) -> Seq<(int, int)>
    decreases runs.len(),
{
    if runs.len() == 0 {
        Seq::empty()
    } else {
        let prev = route_hits(runs.drop_last(), method, path, wanted);
        if run_considered(runs.last().0@, wanted) {
            prev + task_hits(runs.last().1.tasks@, runs.len() - 1, method, path)
        } else {
            prev
        }
    }
}

proof fn lemma_task_hits(tasks: Seq<ExecutionTask>, run: int, method: Seq<char>, path: Seq<char>)
    ensures
        forall|k: int|
            0 <= k < task_hits(tasks, run, method, path).len() ==> {
                let h = #[trigger] task_hits(tasks, run, method, path)[k];
                &&& h.0 == run
                &&& 0 <= h.1 < tasks.len()
                &&& step_serves(tasks[h.1].step_definition, method, path)
            },
        forall|t: int|
            0 <= t < tasks.len() && step_serves(#[trigger] tasks[t].step_definition, method, path) ==> exists|k: int|
                0 <= k < task_hits(tasks, run, method, path).len() && #[trigger] task_hits(tasks, run, method, path)[k]
                    == (run, t),
    decreases tasks.len(),
{
    if tasks.len() > 0 {
        let prev = tasks.drop_last();
        lemma_task_hits(prev, run, method, path);
        let ph = task_hits(prev, run, method, path);
        let h = task_hits(tasks, run, method, path);
        assert forall|k: int| 0 <= k < h.len() implies {
            let x = #[trigger] h[k];
            &&& x.0 == run
            &&& 0 <= x.1 < tasks.len()
            &&& step_serves(tasks[x.1].step_definition, method, path)
        } by {
            if k < ph.len() {
                assert(h[k] == ph[k]);
                assert(tasks[ph[k].1] == prev[ph[k].1]);
            }
        }
        assert forall|t: int| 0 <= t < tasks.len() && step_serves(#[trigger] tasks[t].step_definition, method, path) implies exists|k: int|
            0 <= k < h.len() && #[trigger] h[k] == (run, t) by {
            if t < tasks.len() - 1 {
                assert(prev[t] == tasks[t]);
                let k = choose|k: int| 0 <= k < ph.len() && #[trigger] ph[k] == (run, t);
                assert(h[k] == ph[k]);
            } else {
                assert(h[ph.len() as int] == (run, t));
            }
        }
    }
}

proof fn lemma_route_hits(runs: Seq<(String, ExecutionPlan)>, method: Seq<char>, path: Seq<char>, wanted: Option<Seq<char>>)
    ensures
        forall|k: int|
            0 <= k < route_hits(runs, method, path, wanted).len() ==> {
                let h = #[trigger] route_hits(runs, method, path, wanted)[k];
                &&& 0 <= h.0 < runs.len()
                &&& run_considered(runs[h.0].0@, wanted)
                &&& 0 <= h.1 < runs[h.0].1.tasks@.len()
                &&& step_serves(runs[h.0].1.tasks@[h.1].step_definition, method, path)
            },
        forall|a: int, t: int|
            0 <= a < runs.len() && run_considered(runs[a].0@, wanted) && 0 <= t < runs[a].1.tasks@.len()
                && step_serves(#[trigger] runs[a].1.tasks@[t].step_definition, method, path) ==> exists|k: int|
                0 <= k < route_hits(runs, method, path, wanted).len() && #[trigger] route_hits(
                    runs,
                    method,
                    path,
                    wanted,
                )[k] == (a, t),
    decreases runs.len(),
{
    if runs.len() > 0 {
        let prev = runs.drop_last();
        let last = runs.len() - 1;
        lemma_route_hits(prev, method, path, wanted);
        lemma_task_hits(runs[last].1.tasks@, last, method, path);
        let ph = route_hits(prev, method, path, wanted);
        let th = task_hits(runs[last].1.tasks@, last, method, path);
        let h = route_hits(runs, method, path, wanted);
        assert forall|k: int| 0 <= k < h.len() implies {
            let x = #[trigger] h[k];
            &&& 0 <= x.0 < runs.len()
            &&& run_considered(runs[x.0].0@, wanted)
            &&& 0 <= x.1 < runs[x.0].1.tasks@.len()
            &&& step_serves(runs[x.0].1.tasks@[x.1].step_definition, method, path)
        } by {
            if k < ph.len() {
                assert(h[k] == ph[k]);
                assert(runs[ph[k].0] == prev[ph[k].0]);
            } else {
                assert(run_considered(runs.last().0@, wanted));
                assert(h[k] == th[k - ph.len()]);
            }
        }
        assert forall|a: int, t: int|
            0 <= a < runs.len() && run_considered(runs[a].0@, wanted) && 0 <= t < runs[a].1.tasks@.len()
                && step_serves(#[trigger] runs[a].1.tasks@[t].step_definition, method, path) implies exists|k: int|
            0 <= k < h.len() && #[trigger] h[k] == (a, t) by {
            if a < last {
                assert(prev[a] == runs[a]);
                let k = choose|k: int| 0 <= k < ph.len() && #[trigger] ph[k] == (a, t);
                assert(h[k] == ph[k]);
            } else {
                let j = choose|j: int| 0 <= j < th.len() && #[trigger] th[j] == (last, t);
                assert(h[ph.len() + j] == th[j]);
            }
        }
    }
}

/// The simulator's matching, in terms of the stored runs: every step that it
/// counts for a request has the request path as its endpoint and the request
/// method as its method (ASCII letters compared without case), and belongs to a
/// run that the request allows; and every such step is counted.
pub proof fn lemma_route_hits_answer_the_request(
    runs: Seq<(String, ExecutionPlan)>,
    method: Seq<char>,
    path: Seq<char>,
    wanted: Option<Seq<char>>,
)
    ensures
        forall|k: int|
            0 <= k < route_hits(runs, method, path, wanted).len() ==> {
                let h = #[trigger] route_hits(runs, method, path, wanted)[k];
                let step = runs[h.0].1.tasks@[h.1].step_definition;
                &&& 0 <= h.0 < runs.len()
                &&& 0 <= h.1 < runs[h.0].1.tasks@.len()
                &&& (wanted matches Some(w) ==> runs[h.0].0@ == w)
                &&& step.endpoint matches Some(e) && e@ == path
                &&& step.method matches Some(m) && eq_ignore_ascii_case(m@, method)
            },
        forall|a: int, t: int|
            0 <= a < runs.len() && 0 <= t < runs[a].1.tasks@.len() && (wanted matches Some(w) ==> runs[a].0@ == w)
                && (#[trigger] runs[a].1.tasks@[t].step_definition.endpoint matches Some(e) && e@ == path)
                && (runs[a].1.tasks@[t].step_definition.method matches Some(m) && eq_ignore_ascii_case(m@, method))
                ==> exists|k: int|
                0 <= k < route_hits(runs, method, path, wanted).len() && #[trigger] route_hits(
                    runs,
                    method,
                    path,
                    wanted,
                )[k] == (a, t),
{
    lemma_route_hits(runs, method, path, wanted);
    let h = route_hits(runs, method, path, wanted);
    assert forall|a: int, t: int|
        0 <= a < runs.len() && 0 <= t < runs[a].1.tasks@.len() && (wanted matches Some(w) ==> runs[a].0@ == w)
            && (#[trigger] runs[a].1.tasks@[t].step_definition.endpoint matches Some(e) && e@ == path)
            && (runs[a].1.tasks@[t].step_definition.method matches Some(m) && eq_ignore_ascii_case(m@, method))
            implies exists|k: int| 0 <= k < h.len() && #[trigger] h[k] == (a, t) by {
        assert(run_considered(runs[a].0@, wanted));
        assert(step_serves(runs[a].1.tasks@[t].step_definition, method, path));
    }
}

/// How the simulator resolves a request against the stored runs.
#[derive(Debug)]
pub enum RouteMatch {
    /// No step serves the request: answered 404 with this message.
    NotFound(String),
    /// Steps of several runs serve it and the request names no run: answered 409
    /// with this message.
    Conflict(String),
    /// The first step that serves it: its run and task indices.
    Found(usize, usize),
}

/// An optional string slice as text.
pub open spec fn opt_str(o: Option<&str>) -> Option<Seq<char>> {
    match o {
        Some(s) => Some(s@),
        None => None,
    }
}

/// Finds the step that answers a request for `method` and `path`, among the
/// stored runs (`(run id, plan)` pairs), restricted to the run `run_id` when the
/// request names one.
pub fn match_route(runs: &Vec<(String, ExecutionPlan)>, method: &str, path: &str, run_id: Option<&str>) -> (r: RouteMatch)
    ensures
        ({
            let hits = route_hits(runs@, method@, path@, opt_str(run_id));
            &&& hits.len() == 0 ==> (r matches RouteMatch::NotFound(m) && m@ == "No mock found for "@ + method@
                + " "@ + path@)
            &&& hits.len() > 1 && run_id is None ==> (r matches RouteMatch::Conflict(m) && m@
                == "Multiple active test plans match this route. Please provide X-Evento-Run-Id header."@)
            &&& (hits.len() == 1 || (hits.len() > 1 && run_id is Some)) ==> r == RouteMatch::Found(
                hits[0].0 as usize,
                hits[0].1 as usize,
            )
        }),        r matches RouteMatch::Found(a, b) ==> {
            let step = runs@[a as int].1.tasks@[b as int].step_definition;
            &&& a < runs@.len()
            &&& b < runs@[a as int].1.tasks@.len()
            &&& (run_id matches Some(w) ==> runs@[a as int].0@ == w@)
            &&& step.endpoint matches Some(e) && e@ == path@
            &&& step.method matches Some(m) && eq_ignore_ascii_case(m@, method@)
        },
        (r is NotFound) <==> !exists|a: int, b: int|
            0 <= a < runs@.len() && 0 <= b < runs@[a].1.tasks@.len() && (run_id matches Some(w) ==> runs@[a].0@ == w@)
                && (#[trigger] runs@[a].1.tasks@[b].step_definition.endpoint matches Some(e) && e@ == path@)
                && (runs@[a].1.tasks@[b].step_definition.method matches Some(m) && eq_ignore_ascii_case(m@, method@)),
{
    proof {
        lemma_route_hits_answer_the_request(runs@, method@, path@, opt_str(run_id));
    }
    let ghost wanted = opt_str(run_id);
    let mut seen: u8 = 0;
    let mut first: (usize, usize) = (0, 0);
    let n = runs.len();
    let mut i: usize = 0;
    assert(runs@.take(0) =~= Seq::<(String, ExecutionPlan)>::empty());
    while i < n
        invariant
            n == runs@.len(),
            i <= n,
            wanted == opt_str(run_id),
            ({
                let hits = route_hits(runs@.take(i as int), method@, path@, wanted);
                &&& seen as int == if hits.len() >= 2 { 2 } else { hits.len() as int }
                &&& hits.len() > 0 ==> first == (hits[0].0 as usize, hits[0].1 as usize)
                &&& forall|k: int| 0 <= k < hits.len() ==> 0 <= (#[trigger] hits[k]).0 < n && 0 <= hits[k].1
                    <= usize::MAX
            }),
        decreases n - i,
    {
        let ghost before = route_hits(runs@.take(i as int), method@, path@, wanted);
        proof {
            assert(runs@.take(i + 1).drop_last() =~= runs@.take(i as int));
        }
        let id = runs[i].0.as_str();
        let considered = match run_id {
            Some(want) => str_equal(id, want),
            None => true,
        };
        if considered {
            let tasks = &runs[i].1.tasks;
            let m = tasks.len();
            let mut j: usize = 0;
            assert(tasks@.take(0) =~= Seq::<ExecutionTask>::empty());
            while j < m
                invariant
                    n == runs@.len(),
                    i < n,
                    m == tasks@.len(),
                    *tasks == runs@[i as int].1.tasks,
                    j <= m,
                    ({
                        let hits = before + task_hits(tasks@.take(j as int), i as int, method@, path@);
                        &&& seen as int == if hits.len() >= 2 { 2 } else { hits.len() as int }
                        &&& hits.len() > 0 ==> first == (hits[0].0 as usize, hits[0].1 as usize)
                        &&& forall|k: int| 0 <= k < hits.len() ==> 0 <= (#[trigger] hits[k]).0 < n && 0
                            <= hits[k].1 <= usize::MAX
                    }),
                decreases m - j,
            {
                proof {
                    assert(tasks@.take(j + 1).drop_last() =~= tasks@.take(j as int));
                }
                let step = &tasks[j].step_definition;
                let serves = match (&step.endpoint, &step.method) {
                    (Some(e), Some(mm)) => str_equal(e.as_str(), path) && equal_ignoring_ascii_case(
                        mm.as_str(),
                        method,
                    ),
                    _ => false,
                };
                let ghost old_hits = before + task_hits(tasks@.take(j as int), i as int, method@, path@);
                if serves {
                    if seen == 0 {
                        first = (i, j);
                    }
                    if seen < 2 {
                        seen = seen + 1;
                    }
                    assert(before + task_hits(tasks@.take(j + 1), i as int, method@, path@) =~= old_hits.push(
                        (i as int, j as int),
                    ));
                } else {
                    assert(before + task_hits(tasks@.take(j + 1), i as int, method@, path@) =~= old_hits);
                }
                j = j + 1;
            }
            assert(tasks@.take(m as int) =~= tasks@);
        }
        i = i + 1;
    }
    assert(runs@.take(n as int) =~= runs@);
    if seen == 0 {
        let mut msg = owned("No mock found for ");
        msg.append(method);
        msg.append(" ");
        msg.append(path);
        proof {
            reveal_strlit("No mock found for ");
            reveal_strlit(" ");
        }
        return RouteMatch::NotFound(msg);
    }
    if seen > 1 && run_id.is_none() {
        return RouteMatch::Conflict(
            owned("Multiple active test plans match this route. Please provide X-Evento-Run-Id header."),
        );
    }
    RouteMatch::Found(first.0, first.1)
}

// ---------------------------------------------------------------------------
// The mock's answer
// ---------------------------------------------------------------------------

/// The status that `http::StatusCode::from_u16` accepts: three digits, 100 to 999.
pub open spec fn valid_status(code: u16) -> bool {
    100 <= code <= 999
}

/// The latency text of a mock response, read by the simulator: `<n>ms` (every
/// trailing `ms` removed), else `<n>s` (every trailing `s` removed) in seconds;
/// anything else, or an unreadable number, is no latency.
pub open spec fn simulated_latency(s: Seq<char>) -> int {
    if has_suffix(s, "ms"@) {
        match spec_parse_u64(trim_end_all(s, "ms"@)) {
            Some(v) => v as int,
            None => 0,
        }
    } else if has_suffix(s, "s"@) {
        match spec_parse_u64(trim_end_all(s, "s"@)) {
            Some(v) => v * 1000,
            None => 0,
        }
    } else {
        0
    }
}

/// The mock response of a step, if it has one.
pub open spec fn mock_response_of(step: Step) -> Option<crate::dsl::MockResponse> {
    match step.mock {
        Some(m) => m.response,
        None => None,
    }
}

/// The latency text of a step's mock response (empty when it has none).
pub open spec fn latency_text(step: Step) -> Seq<char> {
    match mock_response_of(step) {
        Some(r) => match r.latency {
            Some(l) => l@,
            None => Seq::empty(),
        },
        None => Seq::empty(),
    }
}

/// Every tag in the body of the step's mock response has a name.
pub open spec fn mock_body_tags_named(step: Step) -> bool {
    mock_response_of(step) matches Some(r) ==> (r.body matches Some(b) ==> tags_named(b))
}

/// A mock latency written as a number followed by `ms` or `s` is that many
/// milliseconds or seconds; an empty latency is none.
pub proof fn lemma_latency_texts(n: u64)
    ensures
        simulated_latency(decimal_text(n as nat) + "ms"@) == n,
        simulated_latency(decimal_text(n as nat) + "s"@) == n * 1000,
{
    reveal_strlit("ms");
    reveal_strlit("s");
    lemma_decimal_text_value(n as nat);
    lemma_parse_decimal_text(n);
    let t = decimal_text(n as nat);
    let a = t + "ms"@;
    let b = t + "s"@;
    assert(is_digit(t[t.len() - 1]));
    assert(a.subrange(a.len() - 2, a.len() as int) =~= "ms"@);
    assert(before_suffix(a, "ms"@) =~= t);
    assert(!has_suffix(t, "ms"@)) by {
        if has_suffix(t, "ms"@) {
            assert(t.subrange(t.len() - 2, t.len() as int)[1] == 's');
        }
    }
    assert(trim_end_all(t, "ms"@) == t);
    assert(trim_end_all(a, "ms"@) == t);
    assert(b.subrange(b.len() - 1, b.len() as int) =~= "s"@);
    assert(before_suffix(b, "s"@) =~= t);
    assert(b[b.len() - 2] == t[t.len() - 1]);
    assert(!has_suffix(b, "ms"@)) by {
        if has_suffix(b, "ms"@) {
            assert(b.subrange(b.len() - 2, b.len() as int)[0] == 'm');
        }
    }
    assert(!has_suffix(t, "s"@)) by {
        if has_suffix(t, "s"@) {
            assert(t.subrange(t.len() - 1, t.len() as int)[0] == 's');
        }
    }
    assert(trim_end_all(t, "s"@) == t);
    assert(trim_end_all(b, "s"@) == t);
}

proof fn lemma_no_latency_text()
    ensures
        simulated_latency(Seq::<char>::empty()) == 0,
{
}

/// What the simulator sends for a matched step.
#[derive(Debug)]
pub struct MockReply {
    /// The status, 200 when the mock gives none or one that is not a valid code.
    pub status: u16,
    /// How long to wait before answering.
    pub latency_ms: u64,
    /// The JSON text of the mock body, when it has one that serializes; otherwise
    /// the simulator answers with a fixed text.
    pub json_body: Option<String>,
}

/// Reads the simulated latency of a mock response.
pub fn latency_of(s: &str) -> (r: u64)
    requires
        simulated_latency(s@) <= u64::MAX,
    ensures
        r == simulated_latency(s@),
{
    proof {
        reveal_strlit("ms");
        reveal_strlit("s");
    }
    if ends_with(s, "ms") {
        match parse_u64(trim_end_matches_str(s, "ms")) {
            Some(v) => v,
            None => 0,
        }
    } else if ends_with(s, "s") {
        match parse_u64(trim_end_matches_str(s, "s")) {
            Some(v) => v * 1000,
            None => 0,
        }
    } else {
        0
    }
}

/// Whether a latency text fits in `u64` milliseconds.
pub fn latency_fits(s: &str) -> (r: bool)
    ensures
        r == (simulated_latency(s@) <= u64::MAX),
{
    proof {
        reveal_strlit("ms");
        reveal_strlit("s");
    }
    if ends_with(s, "ms") {
        true
    } else if ends_with(s, "s") {
        match parse_u64(trim_end_matches_str(s, "s")) {
            Some(v) => v <= u64::MAX / 1000,
            None => true,
        }
    } else {
        true
    }
}

impl MockReply {
    /// The answer of a matched step's mock: its response status (if a valid
    /// code, else 200), its latency, and the JSON text of its body.
    pub fn for_step(step: &Step) -> (r: MockReply)
        requires
            simulated_latency(latency_text(*step)) <= u64::MAX,
            mock_body_tags_named(*step),
        ensures
            r.status == match mock_response_of(*step) {
                Some(resp) => match resp.status {
                    Some(c) => if valid_status(c) {
                        c
                    } else {
                        200
                    },
                    None => 200,
                },
                None => 200,
            },
            r.latency_ms == simulated_latency(latency_text(*step)),
            match mock_response_of(*step) {
                Some(resp) => match resp.body {
                    Some(b) => match yaml_json_text(b) {
                        Some(t) => r.json_body matches Some(j) && j@ == t,
                        None => r.json_body is None,
                    },
                    None => r.json_body is None,
                },
                None => r.json_body is None,
            },
            step.mock is Some && step.mock->0.response is Some && step.mock->0.response->0.status is Some
                && 100 <= step.mock->0.response->0.status->0 <= 999 ==> r.status
                == step.mock->0.response->0.status->0,
            !(step.mock is Some && step.mock->0.response is Some && step.mock->0.response->0.status is Some
                && 100 <= step.mock->0.response->0.status->0 <= 999) ==> r.status == 200,
            step.mock is None ==> r.status == 200 && r.latency_ms == 0 && r.json_body is None,
    {
        proof {
            reveal_strlit("");
            lemma_no_latency_text();
        }
        let resp = match &step.mock {
            Some(m) => match &m.response {
                Some(r) => r,
                None => return MockReply { status: 200, latency_ms: latency_of(""), json_body: None },
            },
            None => return MockReply { status: 200, latency_ms: latency_of(""), json_body: None },
        };
        let status = match resp.status {
            Some(c) => if 100 <= c && c <= 999 {
                c
            } else {
                200
            },
            None => 200,
        };
        let latency_ms = match &resp.latency {
            Some(l) => latency_of(l.as_str()),
            None => latency_of(""),
        };
        let json_body = match &resp.body {
            Some(b) => yaml_to_json(b),
            None => None,
        };
        MockReply { status, latency_ms, json_body }
    }
}

} // verus!
