//! The decisions of a virtual-user worker: which task runs next, how a step is
//! attempted and retried, whether it is executed against a protocol or answered by
//! its mock, and how loops iterate. The worker itself (timers, spawning, protocol
//! calls) drives these functions and performs what they decide.
use vstd::prelude::*;
use crate::dsl::{LoopConfig, MockLatency, Step, WithinConfig};
use crate::state::{ExecutionTask, StepStatus};
use crate::text::{is_digit, lemma_decimal_text_value, lemma_parse_decimal_text, contains_str, contains_text, decimal_text, ends_with, has_suffix, owned, parse_u64, push_decimal, spec_parse_u64, str_equal, strip_suffix};
use crate::value::{json_parse, json_text, parse_json, render_json, Node};
use crate::context::VuContext;
use crate::protocol::{apply_extractions, text_values, with_extractions, ProtocolResponse};
use crate::rules::{rule_holds, rule_passes};

verus! {

// ---------------------------------------------------------------------------
// Durations
// ---------------------------------------------------------------------------

/// The text before a suffix.
pub open spec fn before_suffix(s: Seq<char>, p: Seq<char>) -> Seq<char> {
    s.subrange(0, s.len() - p.len())
}

/// A duration in milliseconds: `<n>ms`, `<n>s` or `<n>m`, where `<n>` is read as
/// `str::parse::<u64>` reads it; any other text has no duration.
pub open spec fn spec_parse_duration(s: Seq<char>) -> Option<int> {
    if has_suffix(s, "ms"@) {
        match spec_parse_u64(before_suffix(s, "ms"@)) {
            Some(n) => Some(n as int),
            None => None,
        }
    } else if has_suffix(s, "s"@) {
        match spec_parse_u64(before_suffix(s, "s"@)) {
            Some(n) => Some(n * 1000),
            None => None,
        }
    } else if has_suffix(s, "m"@) {
        match spec_parse_u64(before_suffix(s, "m"@)) {
            Some(n) => Some(n * 60000),
            None => None,
        }
    } else {
        None
    }
}

/// A minute count whose number of seconds overflows `u64`.
pub open spec fn minutes_overflow(s: Seq<char>) -> bool {
    &&& !has_suffix(s, "ms"@)
    &&& !has_suffix(s, "s"@)
    &&& has_suffix(s, "m"@)
    &&& spec_parse_u64(before_suffix(s, "m"@)) matches Some(n) && n * 60 > u64::MAX
}

/// Whether `parse_duration` accepts `s` without overflow.
pub fn duration_fits(s: &str) -> (r: bool)
    ensures
        r == !minutes_overflow(s@),
{
    proof {
        reveal_strlit("ms");
        reveal_strlit("s");
        reveal_strlit("m");
    }
    if ends_with(s, "ms") || ends_with(s, "s") {
        return true;
    }
    match strip_suffix(s, "m") {
        Some(rest) => match parse_u64(rest) {
            Some(n) => n <= u64::MAX / 60,
            None => true,
        },
        None => true,
    }
}

/// Reads a duration such as `500ms`, `30s` or `5m`, in milliseconds.
pub fn parse_duration(s: &str) -> (r: Option<u128>)
    requires
        !minutes_overflow(s@),
    ensures
        match r {
            Some(ms) => spec_parse_duration(s@) == Some(ms as int),
            None => spec_parse_duration(s@) is None,
        },
{
    proof {
        reveal_strlit("ms");
        reveal_strlit("s");
        reveal_strlit("m");
    }
    if let Some(ms_str) = strip_suffix(s, "ms") {
        match parse_u64(ms_str) {
            Some(n) => Some(n as u128),
            None => None,
        }
    } else if let Some(s_str) = strip_suffix(s, "s") {
        match parse_u64(s_str) {
            Some(n) => Some(n as u128 * 1000),
            None => None,
        }
    } else if let Some(m_str) = strip_suffix(s, "m") {
        match parse_u64(m_str) {
            Some(n) => Some(n as u128 * 60000),
            None => None,
        }
    } else {
        None
    }
}

/// The text left after removing every trailing repetition of `p`, as
/// `str::trim_end_matches` leaves it.
pub open spec fn trim_end_all(s: Seq<char>, p: Seq<char>) -> Seq<char>
    decreases s.len(),
{
    if p.len() > 0 && has_suffix(s, p) {
        trim_end_all(before_suffix(s, p), p)
    } else {
        s
    }
}

/// `s` without every trailing repetition of `p`, as `str::trim_end_matches` gives it.
pub fn trim_end_matches_str<'a>(s: &'a str, p: &str) -> (r: &'a str)
    requires
        p@.len() > 0,
    ensures
        r@ == trim_end_all(s@, p@),
{
    let mut cur: &'a str = s;
    loop
        invariant
            p@.len() > 0,
            trim_end_all(cur@, p@) == trim_end_all(s@, p@),
        decreases cur@.len(),
    {
        match strip_suffix(cur, p) {
            Some(rest) => {
                cur = rest;
            },
            None => {
                return cur;
            },
        }
    }
}

/// A simulated latency in milliseconds, as the worker reads it: text ending in
/// `ms` whose remainder, after removing every trailing `ms`, is a `u64`.
pub open spec fn spec_mock_latency_ms(s: Seq<char>) -> Option<u64> {
    if has_suffix(s, "ms"@) {
        spec_parse_u64(trim_end_all(s, "ms"@))
    } else {
        None
    }
}

/// Reads a mock latency such as `200ms`.
pub fn mock_latency_ms(s: &str) -> (r: Option<u64>)
    ensures
        r == spec_mock_latency_ms(s@),
{
    proof {
        reveal_strlit("ms");
    }
    if ends_with(s, "ms") {
        parse_u64(trim_end_matches_str(s, "ms"))
    } else {
        None
    }
}

// ---------------------------------------------------------------------------
// Choosing the next task
// ---------------------------------------------------------------------------

/// Whether a stored run state marks the run as cancelled.
pub fn is_cancelled(state_json: &str) -> (r: bool)
    ensures
        r == contains_text(state_json@, "Cancelled"@),
{
    contains_str(state_json, "Cancelled")
}

/// The first task whose step is named `name`.
pub open spec fn first_task_named(tasks: Seq<ExecutionTask>, name: Seq<char>) -> Option<int> {
    if exists|i: int| 0 <= i < tasks.len() && #[trigger] tasks[i].step_name@ == name {
        Some(
            choose|i: int|
                0 <= i < tasks.len() && #[trigger] tasks[i].step_name@ == name && forall|j: int|
                    0 <= j < i ==> (#[trigger] tasks[j]).step_name@ != name,
        )
    } else {
        None
    }
}

/// Position of the first task whose step is named `name`.
pub fn find_task(tasks: &Vec<ExecutionTask>, name: &str) -> (r: Option<usize>)
    ensures
        match r {
            Some(i) => first_task_named(tasks@, name@) == Some(i as int),
            None => first_task_named(tasks@, name@) is None,
        },
{
    let n = tasks.len();
    let mut i: usize = 0;
    while i < n
        invariant
            n == tasks@.len(),
            i <= n,
            forall|j: int| 0 <= j < i ==> (#[trigger] tasks@[j]).step_name@ != name@,
        decreases n - i,
    {
        if str_equal(tasks[i].step_name.as_str(), name) {
            proof {
                lemma_first_named_exists(tasks@, name@, i as int);
                let w = choose|k: int|
                    0 <= k < tasks@.len() && #[trigger] tasks@[k].step_name@ == name@ && forall|j: int|
                        0 <= j < k ==> (#[trigger] tasks@[j]).step_name@ != name@;
                assert(0 <= i < tasks@.len() && tasks@[i as int].step_name@ == name@);
                if w < i {
                    assert(tasks@[w].step_name@ != name@);
                } else if w > i {
                    assert(tasks@[i as int].step_name@ != name@);
                }
            }
            return Some(i);
        }
        i = i + 1;
    }
    None
}

/// Where the run goes after the task at `current` finished with `status`: a failed
/// task jumps to its `on_failure` step if there is one and ends the run otherwise;
/// a successful task jumps to its `on_success` step if there is one and goes on to
/// the next task otherwise (`None` ends the run).
pub open spec fn spec_next_index(tasks: Seq<ExecutionTask>, current: int, status: StepStatus) -> Option<int> {
    let step = tasks[current].step_definition;
    match status {
        StepStatus::Failed(_) => match step.on_failure {
            Some(target) => first_task_named(tasks, target@),
            None => None,
        },
        StepStatus::Success => match step.on_success {
            Some(target) => match first_task_named(tasks, target@) {
                Some(j) => Some(j),
                None => if current < tasks.len() - 1 {
                    Some(current + 1)
                } else {
                    None
                },
            },
            None => if current + 1 < tasks.len() {
                Some(current + 1)
            } else {
                None
            },
        },
    }
}

/// The next task to run after the task at `current` finished with `status`, or
/// `None` when the run is over.
pub fn next_index(tasks: &Vec<ExecutionTask>, current: usize, status: &StepStatus) -> (r: Option<usize>)
    requires
        current < tasks@.len(),
    ensures
        match r {
            Some(i) => spec_next_index(tasks@, current as int, *status) == Some(i as int) && i < tasks@.len(),
            None => spec_next_index(tasks@, current as int, *status) is None,
        },
{
    let step = &tasks[current].step_definition;
    match status {
        StepStatus::Failed(_) => match &step.on_failure {
            Some(target) => {
                let r = find_task(tasks, target.as_str());
                proof {
                    if let Some(i) = r {
                        lemma_first_task_bounds(tasks@, target@);
                    }
                }
                r
            },
            None => None,
        },
        StepStatus::Success => {
            let jump = match &step.on_success {
                Some(target) => {
                    let r = find_task(tasks, target.as_str());
                    proof {
                        lemma_first_task_bounds(tasks@, target@);
                    }
                    r
                },
                None => None,
            };
            match jump {
                Some(j) => Some(j),
                None => if current < tasks.len() - 1 {
                    Some(current + 1)
                } else {
                    None
                },
            }
        },
    }
}

proof fn lemma_first_named_exists(tasks: Seq<ExecutionTask>, name: Seq<char>, k: int)
    requires
        0 <= k < tasks.len(),
        tasks[k].step_name@ == name,
    ensures
        exists|i: int|
            0 <= i < tasks.len() && #[trigger] tasks[i].step_name@ == name && forall|j: int|
                0 <= j < i ==> (#[trigger] tasks[j]).step_name@ != name,
    decreases k,
{
    if exists|j: int| 0 <= j < k && #[trigger] tasks[j].step_name@ == name {
        let j = choose|j: int| 0 <= j < k && #[trigger] tasks[j].step_name@ == name;
        lemma_first_named_exists(tasks, name, j);
    } else {
        assert(forall|j: int| 0 <= j < k ==> (#[trigger] tasks[j]).step_name@ != name);
    }
}

proof fn lemma_first_task_bounds(tasks: Seq<ExecutionTask>, name: Seq<char>)
    ensures
        first_task_named(tasks, name) matches Some(i) ==> 0 <= i < tasks.len() && tasks[i].step_name@ == name,
{
    if exists|i: int| 0 <= i < tasks.len() && #[trigger] tasks[i].step_name@ == name {
        let k = choose|i: int| 0 <= i < tasks.len() && #[trigger] tasks[i].step_name@ == name;
        lemma_first_named_exists(tasks, name, k);
    }
}

/// Where a run goes after a task, in terms of the tasks' names: a failed task
/// without `on_failure` ends the run, and with one the run goes to the first task
/// of that name (or ends when there is none); a successful task without
/// `on_success` goes on to the next task (or ends after the last), and with one
/// goes to the first task of that name when there is one.
pub proof fn lemma_next_task(tasks: Seq<ExecutionTask>, current: int, status: StepStatus)
    requires
        0 <= current < tasks.len(),
    ensures
        status is Failed && tasks[current].step_definition.on_failure is None ==> spec_next_index(
            tasks,
            current,
            status,
        ) is None,
        status is Success && tasks[current].step_definition.on_success is None ==> spec_next_index(
            tasks,
            current,
            status,
        ) == if current + 1 < tasks.len() {
            Some(current + 1)
        } else {
            None
        },
        status is Failed && spec_next_index(tasks, current, status) is Some ==> ({
            let j = spec_next_index(tasks, current, status)->0;
            &&& tasks[current].step_definition.on_failure is Some
            &&& 0 <= j < tasks.len()
            &&& tasks[j].step_name@ == tasks[current].step_definition.on_failure->0@
            &&& forall|i: int| 0 <= i < j ==> (#[trigger] tasks[i]).step_name@ != tasks[current].step_definition.on_failure->0@
        }),
        status is Success && tasks[current].step_definition.on_success is Some && (exists|k: int|
            0 <= k < tasks.len() && #[trigger] tasks[k].step_name@ == tasks[current].step_definition.on_success->0@)
            ==> ({
            let j = spec_next_index(tasks, current, status)->0;
            &&& spec_next_index(tasks, current, status) is Some
            &&& 0 <= j < tasks.len()
            &&& tasks[j].step_name@ == tasks[current].step_definition.on_success->0@
            &&& forall|i: int| 0 <= i < j ==> (#[trigger] tasks[i]).step_name@ != tasks[current].step_definition.on_success->0@
        }),
{
    let step = tasks[current].step_definition;
    match step.on_failure {
        Some(t) => {
            if exists|k: int| 0 <= k < tasks.len() && #[trigger] tasks[k].step_name@ == t@ {
                let k = choose|k: int| 0 <= k < tasks.len() && #[trigger] tasks[k].step_name@ == t@;
                lemma_first_named_exists(tasks, t@, k);
            }
        },
        None => {},
    }
    match step.on_success {
        Some(t) => {
            if exists|k: int| 0 <= k < tasks.len() && #[trigger] tasks[k].step_name@ == t@ {
                let k = choose|k: int| 0 <= k < tasks.len() && #[trigger] tasks[k].step_name@ == t@;
                lemma_first_named_exists(tasks, t@, k);
            }
        },
        None => {},
    }
}

// ---------------------------------------------------------------------------
// Attempts, retries and temporal windows
// ---------------------------------------------------------------------------

/// The duration text of a `within` constraint.
pub open spec fn within_text(w: WithinConfig) -> Seq<char> {
    match w {
        WithinConfig::Duration(d) => d@,
        WithinConfig::Structured(s) => s.duration@,
    }
}

/// Every duration that the step's attempts read is free of minute overflow.
pub open spec fn step_durations_fit(step: Step) -> bool {
    &&& (step.within matches Some(w) ==> !minutes_overflow(within_text(w)))
    &&& (step.timeout matches Some(t) ==> !minutes_overflow(t@))
    &&& (step.retry matches Some(r) ==> (r.delay matches Some(d) ==> !minutes_overflow(d@)))
}

/// How a step is attempted.
#[derive(Debug, Clone, Copy)]
pub struct AttemptPolicy {
    /// Attempts allowed when there is no `within` window (1 without `retry`).
    pub max_attempts: u32,
    /// The `within` window, in milliseconds, when the step has one that parses.
    pub within_ms: Option<u128>,
    /// Timeout of each protocol call: the step's `timeout`, else the plan's
    /// `step_timeout`, else 10 s (a text that does not parse counts as absent).
    pub step_timeout_ms: u128,
    /// Delay between attempts of a step with `retry`: its `delay`, or 1 s.
    pub retry_delay_ms: Option<u128>,
}

/// An optional count of milliseconds, as an integer.
pub open spec fn opt_ms(o: Option<u128>) -> Option<int> {
    match o {
        Some(x) => Some(x as int),
        None => None,
    }
}

/// The duration that an optional text reads as, in milliseconds.
pub open spec fn opt_duration(t: Option<String>) -> Option<int> {
    match t {
        Some(x) => spec_parse_duration(x@),
        None => None,
    }
}

/// The attempt policy of a step, given the plan's default step timeout.
pub fn attempt_policy(step: &Step, default_timeout: &Option<String>) -> (p: AttemptPolicy)
    requires
        step_durations_fit(*step),
        default_timeout matches Some(t) ==> !minutes_overflow(t@),
    ensures
        p.max_attempts == match step.retry {
            Some(r) => r.max_attempts,
            None => 1,
        },
        opt_ms(p.within_ms) == match step.within {
            Some(w) => spec_parse_duration(within_text(w)),
            None => None,
        },
        p.step_timeout_ms as int == match opt_duration(step.timeout) {
            Some(ms) => ms,
            None => match opt_duration(*default_timeout) {
                Some(ms) => ms,
                None => 10000,
            },
        },
        opt_ms(p.retry_delay_ms) == match step.retry {
            Some(r) => Some(
                match r.delay {
                    Some(d) => match spec_parse_duration(d@) {
                        Some(ms) => ms,
                        None => 1000,
                    },
                    None => 1000,
                },
            ),
            None => None,
        },
{
    let max_attempts = match &step.retry {
        Some(r) => r.max_attempts,
        None => 1,
    };
    let within_ms = match &step.within {
        Some(WithinConfig::Duration(d)) => parse_duration(d.as_str()),
        Some(WithinConfig::Structured(s)) => parse_duration(s.duration.as_str()),
        None => None,
    };
    let own = match &step.timeout {
        Some(t) => parse_duration(t.as_str()),
        None => None,
    };
    let step_timeout_ms = match own {
        Some(ms) => ms,
        None => match default_timeout {
            Some(t) => match parse_duration(t.as_str()) {
                Some(ms) => ms,
                None => 10000,
            },
            None => 10000,
        },
    };
    let retry_delay_ms = match &step.retry {
        Some(r) => Some(
            match &r.delay {
                Some(d) => match parse_duration(d.as_str()) {
                    Some(ms) => ms,
                    None => 1000,
                },
                None => 1000,
            },
        ),
        None => None,
    };
    AttemptPolicy { max_attempts, within_ms, step_timeout_ms, retry_delay_ms }
}

/// What happens before an attempt.
#[derive(Debug, Clone, Copy)]
pub enum AttemptGate {
    /// Make the attempt.
    Run,
    /// No attempt is left: the step ends with the status it has so far.
    Done,
    /// The `within` window has closed: the step fails with `Within duration exceeded`.
    WithinExceeded,
}

/// Whether attempt number `attempt` (from 1) is made, `elapsed_ms` after the
/// first attempt began: not once the attempts are used up (without a `within`
/// window), nor once the window has closed.
pub open spec fn spec_gate(p: AttemptPolicy, attempt: u32, elapsed_ms: u128) -> AttemptGate {
    if attempt > p.max_attempts && p.within_ms is None {
        AttemptGate::Done
    } else if p.within_ms matches Some(limit) && elapsed_ms >= limit {
        AttemptGate::WithinExceeded
    } else {
        AttemptGate::Run
    }
}

/// Whether the step stops after failed attempt number `attempt`: without a
/// `within` window, when the attempts are used up.
pub open spec fn stops_after(p: AttemptPolicy, attempt: u32) -> bool {
    p.within_ms is None && attempt >= p.max_attempts
}

/// Whether attempt number `attempt` (from 1) is made, `elapsed_ms` after the
/// first attempt began.
pub fn gate_attempt(p: &AttemptPolicy, attempt: u32, elapsed_ms: u128) -> (g: AttemptGate)
    ensures
        g == spec_gate(*p, attempt, elapsed_ms),
{
    if attempt > p.max_attempts && p.within_ms.is_none() {
        return AttemptGate::Done;
    }
    if let Some(limit) = p.within_ms {
        if elapsed_ms >= limit {
            return AttemptGate::WithinExceeded;
        }
    }
    AttemptGate::Run
}

/// What follows a failed attempt: a pause, then either another attempt or the end.
#[derive(Debug, Clone, Copy)]
pub struct AfterFailure {
    pub delay_ms: u128,
    pub stop: bool,
}

/// The pause after failed attempt number `attempt` (500 ms while a `within`
/// window is open, the retry delay with `retry`, no pause otherwise) and whether
/// the step then stops (no window and the attempts are used up).
pub fn after_failure(p: &AttemptPolicy, attempt: u32) -> (a: AfterFailure)
    ensures
        a.delay_ms == (if p.within_ms is Some {
            500
        } else {
            match p.retry_delay_ms {
                Some(d) => d,
                None => 0,
            }
        }),
        a.stop == stops_after(*p, attempt),
{
    let delay_ms = if p.within_ms.is_some() {
        500
    } else {
        match p.retry_delay_ms {
            Some(d) => d,
            None => 0,
        }
    };
    AfterFailure { delay_ms, stop: p.within_ms.is_none() && attempt >= p.max_attempts }
}

// ---------------------------------------------------------------------------
// Protocol or mock
// ---------------------------------------------------------------------------

/// The protocol drivers the worker knows.
#[derive(Debug, Clone, Copy)]
pub enum ProtocolKind {
    Http,
    Postgres,
    Cassandra,
    Kafka,
    Script,
}

/// The driver for a protocol name: `http` or `https` (both HTTP), `postgres`,
/// `cassandra`, `kafka` or `eventhub` (both Kafka), `script`.
pub open spec fn spec_protocol_kind(p: Seq<char>) -> Option<ProtocolKind> {
    if p == "http"@ || p == "https"@ {
        Some(ProtocolKind::Http)
    } else if p == "postgres"@ {
        Some(ProtocolKind::Postgres)
    } else if p == "cassandra"@ {
        Some(ProtocolKind::Cassandra)
    } else if p == "kafka"@ || p == "eventhub"@ {
        Some(ProtocolKind::Kafka)
    } else if p == "script"@ {
        Some(ProtocolKind::Script)
    } else {
        None
    }
}

/// Each protocol name of the worker selects its own driver, and no other name
/// selects one: `http` and `https` the HTTP driver, `postgres` the Postgres
/// driver, `cassandra` the Cassandra driver, `kafka` and `eventhub` the Kafka
/// driver, `script` the script driver.
pub proof fn lemma_driver_names(p: Seq<char>)
    ensures
        (spec_protocol_kind(p) == Some(ProtocolKind::Http)) <==> (p == "http"@ || p == "https"@),
        (spec_protocol_kind(p) == Some(ProtocolKind::Postgres)) <==> p == "postgres"@,
        (spec_protocol_kind(p) == Some(ProtocolKind::Cassandra)) <==> p == "cassandra"@,
        (spec_protocol_kind(p) == Some(ProtocolKind::Kafka)) <==> (p == "kafka"@ || p == "eventhub"@),
        (spec_protocol_kind(p) == Some(ProtocolKind::Script)) <==> p == "script"@,
        (spec_protocol_kind(p) is None) <==> !(p == "http"@ || p == "https"@ || p == "postgres"@ || p
            == "cassandra"@ || p == "kafka"@ || p == "eventhub"@ || p == "script"@),
{
    reveal_strlit("http");
    reveal_strlit("https");
    reveal_strlit("postgres");
    reveal_strlit("cassandra");
    reveal_strlit("kafka");
    reveal_strlit("eventhub");
    reveal_strlit("script");
    assert("http"@[0] == 'h' && "https"@[0] == 'h' && "postgres"@[0] == 'p' && "cassandra"@[0] == 'c'
        && "kafka"@[0] == 'k' && "eventhub"@[0] == 'e' && "script"@[0] == 's');
    assert("http"@.len() == 4 && "https"@.len() == 5);
}

/// Looks up the driver for a protocol name.
pub fn protocol_kind(p: &str) -> (r: Option<ProtocolKind>)
    ensures
        r == spec_protocol_kind(p@),
        (r == Some(ProtocolKind::Http)) <==> (p@ == "http"@ || p@ == "https"@),
        (r == Some(ProtocolKind::Postgres)) <==> p@ == "postgres"@,
        (r == Some(ProtocolKind::Cassandra)) <==> p@ == "cassandra"@,
        (r == Some(ProtocolKind::Kafka)) <==> (p@ == "kafka"@ || p@ == "eventhub"@),
        (r == Some(ProtocolKind::Script)) <==> p@ == "script"@,
{
    proof {
        lemma_driver_names(p@);
    }
    if str_equal(p, "http") || str_equal(p, "https") {
        Some(ProtocolKind::Http)
    } else if str_equal(p, "postgres") {
        Some(ProtocolKind::Postgres)
    } else if str_equal(p, "cassandra") {
        Some(ProtocolKind::Cassandra)
    } else if str_equal(p, "kafka") || str_equal(p, "eventhub") {
        Some(ProtocolKind::Kafka)
    } else if str_equal(p, "script") {
        Some(ProtocolKind::Script)
    } else {
        None
    }
}

/// The step only runs a script: a script without a protocol, or protocol `script`.
pub open spec fn script_only(step: Step) -> bool {
    (step.protocol is None && step.script is Some) || (step.protocol matches Some(p) && p@ == "script"@)
}

/// A step whose protocol is `script` and that has no mock runs its script under
/// every mock strategy.
pub proof fn lemma_script_steps_run(step: Step, mock_strategy: Seq<char>)
    requires
        step.mock is None,
        step.protocol matches Some(p) && p@ == "script"@,
    ensures
        protocol_applies(step, mock_strategy),
        protocol_name(step) == "script"@,
        spec_protocol_kind(protocol_name(step)) == Some(ProtocolKind::Script),
{
    lemma_driver_names("script"@);
}

/// The step is executed against its protocol: it has a protocol or a script, and
/// either the mock strategy is `disabled`, or the step has no mock and the
/// strategy is `auto` (or the step only runs a script). A step with a mock uses
/// its mock under `auto` and `required`.
pub open spec fn protocol_applies(step: Step, mock_strategy: Seq<char>) -> bool {
    &&& (mock_strategy == "disabled"@ || (step.mock is None && (mock_strategy == "auto"@ || script_only(step))))
    &&& (step.protocol is Some || step.script is Some)
}

/// The protocol a step names, `script` when it has none.
pub open spec fn protocol_name(step: Step) -> Seq<char> {
    match step.protocol {
        Some(p) => p@,
        None => "script"@,
    }
}

/// How one attempt at a step begins.
#[derive(Debug)]
pub enum Route {
    /// Call the protocol driver.
    Execute(ProtocolKind),
    /// The named protocol has no driver: the attempt fails with
    /// `Unsupported protocol: <name>`.
    Unsupported(String),
    /// No protocol call is made.
    Skip,
}

/// Whether an attempt calls a protocol driver, under the plan's mock strategy.
pub fn route(step: &Step, mock_strategy: &str) -> (r: Route)
    ensures
        !protocol_applies(*step, mock_strategy@) ==> r is Skip,
        protocol_applies(*step, mock_strategy@) ==> match spec_protocol_kind(protocol_name(*step)) {
            Some(k) => r == Route::Execute(k),
            None => r matches Route::Unsupported(n) && n@ == protocol_name(*step),
        },        step.mock is None && (step.protocol matches Some(p) && p@ == "script"@) ==> r == Route::Execute(
            ProtocolKind::Script,
        ),
        step.protocol is Some && (mock_strategy@ == "disabled"@ || (mock_strategy@ == "auto"@
            && step.mock is None)) ==> match r {
            Route::Execute(k) => spec_protocol_kind(step.protocol->0@) == Some(k),
            Route::Unsupported(n) => n@ == step.protocol->0@ && spec_protocol_kind(n@) is None,
            Route::Skip => false,
        },
{
    proof {
        if step.mock is None && step.protocol is Some && step.protocol->0@ == "script"@ {
            lemma_script_steps_run(*step, mock_strategy@);
        }
        if step.protocol is Some {
            lemma_strategies_differ();
            reveal_strlit("auto");
            reveal_strlit("disabled");
        }
    }
    let is_script_protocol = match &step.protocol {
        Some(p) => str_equal(p.as_str(), "script"),
        None => false,
    };
    let is_script_only = (step.protocol.is_none() && step.script.is_some()) || is_script_protocol;
    let applies = (str_equal(mock_strategy, "disabled") || (step.mock.is_none() && (str_equal(
        mock_strategy,
        "auto",
    ) || is_script_only))) && (step.protocol.is_some() || step.script.is_some());
    if !applies {
        return Route::Skip;
    }
    let name: &str = match &step.protocol {
        Some(p) => p.as_str(),
        None => "script",
    };
    match protocol_kind(name) {
        Some(k) => Route::Execute(k),
        None => Route::Unsupported(name.to_owned()),
    }
}

/// `<prefix><code>`.
fn prefixed_code(prefix: &str, code: u16) -> (m: String)
    ensures
        m@ == prefix@ + decimal_text(code as nat),
{
    let mut m = prefix.to_owned();
    push_decimal(&mut m, code as u64);
    m
}

/// The status of an attempt whose protocol call returned `status_code`: a code of
/// 400 or more fails with `Protocol Error <code>`.
pub fn response_status(status_code: u16) -> (s: StepStatus)
    ensures
        status_code >= 400 ==> (s matches StepStatus::Failed(m) && m@ == "Protocol Error "@
            + decimal_text(status_code as nat)),
        status_code < 400 ==> s is Success,
{
    if status_code >= 400 {
        StepStatus::Failed(prefixed_code("Protocol Error ", status_code))
    } else {
        StepStatus::Success
    }
}

/// The first of `rules` that the response breaks.
pub open spec fn broken_rule(rules: Seq<String>, r: ProtocolResponse) -> Option<Seq<char>>
    decreases rules.len(),
{
    if rules.len() == 0 {
        None
    } else if !rule_holds(rules[0]@, r) {
        Some(rules[0]@)
    } else {
        broken_rule(rules.drop_first(), r)
    }
}

/// The failure message of an attempt whose protocol call answered `r` (`None` when
/// it succeeds): `Protocol Error <code>` for a code of 400 or more; otherwise
/// `Validation failed: <rule>` for the first `validate` rule that the response
/// breaks.
pub open spec fn answered_status(step: Step, r: ProtocolResponse) -> Option<Seq<char>> {
    if r.status_code >= 400 {
        Some("Protocol Error "@ + decimal_text(r.status_code as nat))
    } else {
        match step.validate {
            Some(rules) => match broken_rule(rules@, r) {
                Some(m) => Some("Validation failed: "@ + m),
                None => None,
            },
            None => None,
        }
    }
}

/// The status as text: `None` for success, the message of a failure.
pub open spec fn status_text(s: StepStatus) -> Option<Seq<char>> {
    match s {
        StepStatus::Success => None,
        StepStatus::Failed(m) => Some(m@),
    }
}

/// The first rule of `rules` that the response breaks.
fn first_broken_rule(rules: &Vec<String>, r: &ProtocolResponse) -> (b: Option<String>)
    ensures
        match b {
            Some(m) => broken_rule(rules@, *r) == Some(m@),
            None => broken_rule(rules@, *r) is None,
        },
{
    let n = rules.len();
    let mut i: usize = 0;
    assert(rules@.subrange(0, n as int) =~= rules@);
    while i < n
        invariant
            n == rules@.len(),
            i <= n,
            broken_rule(rules@, *r) == broken_rule(rules@.subrange(i as int, n as int), *r),
        decreases n - i,
    {
        let ghost rest = rules@.subrange(i as int, n as int);
        assert(rest[0] == rules@[i as int]);
        assert(rest.drop_first() =~= rules@.subrange(i + 1, n as int));
        if !rule_passes(rules[i].as_str(), r) {
            return Some(rules[i].clone());
        }
        i = i + 1;
    }
    None
}

/// Takes in the answer of a protocol call: an answer with a code under 400 stores
/// the step's `extract` values into the context; the status is `answered_status`.
pub fn take_answer(ctx: &mut VuContext, step: &Step, r: &ProtocolResponse) -> (s: StepStatus)
    ensures
        status_text(s) == answered_status(*step, *r),
        r.status_code >= 400 || step.extract is None ==> *final(ctx) == *old(ctx),
        r.status_code < 400 ==> match step.extract {
            Some(e) => text_values(final(ctx).variables@) == with_extractions(
                text_values(old(ctx).variables@),
                e.pairs(),
                *r,
            ),
            None => true,
        },
        final(ctx).vu_id == old(ctx).vu_id,
        final(ctx).run_id == old(ctx).run_id,
{
    if r.status_code >= 400 {
        return response_status(r.status_code);
    }
    if let Some(e) = &step.extract {
        apply_extractions(ctx, r, e);
    }
    match &step.validate {
        Some(rules) => match first_broken_rule(rules, r) {
            Some(m) => {
                let mut msg = owned("Validation failed: ");
                msg.append(m.as_str());
                StepStatus::Failed(msg)
            },
            None => StepStatus::Success,
        },
        None => StepStatus::Success,
    }
}

/// The status of an attempt at a protocol that has no driver:
/// `Unsupported protocol: <name>`.
pub fn unsupported_status(name: &str) -> (s: StepStatus)
    ensures
        status_text(s) == Some("Unsupported protocol: "@ + name@),
{
    let mut m = owned("Unsupported protocol: ");
    m.append(name);
    StepStatus::Failed(m)
}

/// The status of an attempt whose protocol call outlived the step timeout, given
/// the timeout as the worker prints it: `Step timeout of <timeout> exceeded`.
pub fn timeout_status(timeout_text: &str) -> (s: StepStatus)
    ensures
        status_text(s) == Some("Step timeout of "@ + timeout_text@ + " exceeded"@),
{
    let mut m = owned("Step timeout of ");
    m.append(timeout_text);
    m.append(" exceeded");
    StepStatus::Failed(m)
}

/// The outcome of resolving a step's mock after its protocol phase.
#[derive(Debug)]
pub struct MockOutcome {
    pub status: StepStatus,
    /// Simulated latencies to wait, in order, in milliseconds.
    pub sleeps_ms: Vec<u64>,
}

/// The mock is consulted: strategy `required`, or `auto` when no protocol call was
/// made or it failed.
pub open spec fn mock_consulted(mock_strategy: Seq<char>, executed: bool, status: StepStatus) -> bool {
    mock_strategy == "required"@ || (mock_strategy == "auto"@ && (!executed || status is Failed))
}

/// The mock's injected error fires: it has an error rate and the roll came up.
pub open spec fn chaos_fires(step: Step, chaos_roll: bool) -> bool {
    step.mock matches Some(m) && m.behavior matches Some(b) && b.error_rate is Some && chaos_roll
}

/// Decides the status of an attempt from the step's mock. `executed` tells whether
/// a protocol call was made, `status` is the status it gave, and `chaos_roll`
/// whether a random draw fell under the mock's error rate (it matters only when
/// the mock has one).
pub fn resolve_mock(step: &Step, mock_strategy: &str, executed: bool, status: StepStatus, chaos_roll: bool) -> (o: MockOutcome)
    ensures
        !mock_consulted(mock_strategy@, executed, status) ==> o.status == status && o.sleeps_ms@.len() == 0,
        mock_consulted(mock_strategy@, executed, status) ==> match step.mock {
            None => o.sleeps_ms@.len() == 0 && if executed {
                o.status == status
            } else if step.protocol is Some {
                o.status matches StepStatus::Failed(m) && m@ == "Mock strategy is '"@ + mock_strategy@
                    + "', but no mock configuration found for protocol"@
            } else {
                o.status matches StepStatus::Failed(m) && m@ == "No mock or protocol configuration found"@
            },
            Some(mock) => {
                let fired = chaos_fires(*step, chaos_roll);
                let behavior_sleep: Seq<u64> = match mock.behavior {
                    Some(b) => match b.latency {
                        Some(MockLatency::Fixed(f)) => match spec_mock_latency_ms(f@) {
                            Some(ms) => seq![ms],
                            None => Seq::empty(),
                        },
                        _ => Seq::empty(),
                    },
                    None => Seq::empty(),
                };
                let response_sleep: Seq<u64> = if fired {
                    Seq::empty()
                } else {
                    match mock.response {
                        Some(r) => match r.latency {
                            Some(l) => match spec_mock_latency_ms(l@) {
                                Some(ms) => seq![ms],
                                None => Seq::empty(),
                            },
                            None => Seq::empty(),
                        },
                        None => Seq::empty(),
                    }
                };
                &&& o.sleeps_ms@ == behavior_sleep + response_sleep
                &&& if fired {
                    match mock.behavior->0.error_response {
                        Some(er) => match er.status {
                            Some(code) => o.status matches StepStatus::Failed(m) && m@ == "HTTP "@
                                + decimal_text(code as nat),
                            None => o.status matches StepStatus::Failed(m) && m@ == "Chaos Error Injected"@,
                        },
                        None => o.status matches StepStatus::Failed(m) && m@ == "Chaos Error Injected"@,
                    }
                } else {
                    match mock.response {
                        Some(r) => match r.status {
                            Some(code) => if code >= 400 {
                                o.status matches StepStatus::Failed(m) && m@ == "HTTP "@ + decimal_text(
                                    code as nat,
                                )
                            } else {
                                o.status is Success
                            },
                            None => o.status is Success,
                        },
                        None => o.status is Success,
                    }
                }
            },
        },
        mock_strategy@ == "disabled"@ ==> o.status == status && o.sleeps_ms@.len() == 0,
        mock_strategy@ == "auto"@ && executed && status is Success ==> o.status == status && o.sleeps_ms@.len()
            == 0,
{
    proof {
        reveal_strlit("required");
        reveal_strlit("auto");
        reveal_strlit("disabled");
        assert("disabled"@[0] != "required"@[0] && "disabled"@[0] != "auto"@[0]);
    }
    let consult = str_equal(mock_strategy, "required") || (str_equal(mock_strategy, "auto") && (!executed
        || match &status {
        StepStatus::Failed(_) => true,
        StepStatus::Success => false,
    }));
    let mut sleeps: Vec<u64> = Vec::new();
    if !consult {
        return MockOutcome { status, sleeps_ms: sleeps };
    }
    match &step.mock {
        Some(mock) => {
            let mut out = StepStatus::Success;
            let mut fired = false;
            if let Some(behavior) = &mock.behavior {
                if behavior.error_rate.is_some() && chaos_roll {
                    fired = true;
                    out = StepStatus::Failed(owned("Chaos Error Injected"));
                    if let Some(er) = &behavior.error_response {
                        if let Some(code) = er.status {
                            out = StepStatus::Failed(prefixed_code("HTTP ", code));
                        }
                    }
                }
                if let Some(MockLatency::Fixed(f)) = &behavior.latency {
                    if let Some(ms) = mock_latency_ms(f.as_str()) {
                        sleeps.push(ms);
                    }
                }
            }
            let ghost after_behavior = sleeps@;
            if !fired {
                if let Some(r) = &mock.response {
                    if let Some(l) = &r.latency {
                        if let Some(ms) = mock_latency_ms(l.as_str()) {
                            sleeps.push(ms);
                        }
                    }
                    if let Some(code) = r.status {
                        if code >= 400 {
                            out = StepStatus::Failed(prefixed_code("HTTP ", code));
                        }
                    }
                }
            }
            proof {
                assert(sleeps@ =~= after_behavior + (sleeps@.subrange(after_behavior.len() as int, sleeps@.len() as int)));
            }
            MockOutcome { status: out, sleeps_ms: sleeps }
        },
        None => {
            if executed {
                MockOutcome { status, sleeps_ms: sleeps }
            } else if step.protocol.is_some() {
                let mut m = owned("Mock strategy is '");
                m.append(mock_strategy);
                m.append("', but no mock configuration found for protocol");
                MockOutcome { status: StepStatus::Failed(m), sleeps_ms: sleeps }
            } else {
                MockOutcome {
                    status: StepStatus::Failed(owned("No mock or protocol configuration found")),
                    sleeps_ms: sleeps,
                }
            }
        },
    }
}

// ---------------------------------------------------------------------------
// Loops
// ---------------------------------------------------------------------------

/// How a loop step iterates.
#[derive(Debug)]
pub enum LoopPlan {
    /// Once per item, with the item's text bound to the variable `var`.
    Collection { var: String, items: Vec<String> },
    /// A number of times.
    Count(u64),
}

/// The text bound to the loop variable for a collection item: a string as is,
/// anything else as compact JSON.
pub open spec fn item_text(x: Node) -> Seq<char> {
    match x {
        Node::String(s) => s@,
        _ => json_text(x),
    }
}

/// The items of a collection expression, once resolved to JSON text: the elements
/// of a JSON array, nothing otherwise.
pub open spec fn collection_items(resolved_from: Seq<char>) -> Seq<Seq<char>> {
    match json_parse(resolved_from) {
        Some(Node::Sequence(xs)) => xs@.map_values(|x: Node| item_text(x)),
        _ => Seq::empty(),
    }
}

/// The iteration count of a loop: a non-negative integer count, or a string count
/// that resolves to a `u64`; 0 otherwise.
pub open spec fn loop_count(count: Option<Node>, resolved_count: Seq<char>) -> u64 {
    match count {
        Some(Node::Number(t)) => match spec_parse_u64(t@) {
            Some(n) => n,
            None => 0,
        },
        Some(Node::String(_)) => match spec_parse_u64(resolved_count) {
            Some(n) => n,
            None => 0,
        },
        _ => 0,
    }
}

/// How a loop iterates. A loop with both `over` and `from` walks the collection
/// that `resolved_from` (its `from` after interpolation) holds, ignoring any count;
/// otherwise it repeats `count` times, where a string count is read from
/// `resolved_count` (the count after interpolation).
pub fn loop_plan(lc: &LoopConfig, resolved_from: &str, resolved_count: &str) -> (p: LoopPlan)
    ensures
        match (lc.over, lc.from) {
            (Some(var), Some(_)) => p matches LoopPlan::Collection { var: v, items } && v@ == var@
                && items@.map_values(|s: String| s@) == collection_items(resolved_from@),
            _ => p == LoopPlan::Count(loop_count(lc.count, resolved_count@)),
        },
{
    match (&lc.over, &lc.from) {
        (Some(var), Some(_)) => {
            let mut items: Vec<String> = Vec::new();
            match parse_json(resolved_from) {
                Some(Node::Sequence(xs)) => {
                    let n = xs.len();
                    let mut i: usize = 0;
                    while i < n
                        invariant
                            n == xs@.len(),
                            i <= n,
                            items@.len() == i,
                            forall|j: int| 0 <= j < i ==> (#[trigger] items@[j])@ == item_text(xs@[j]),
                        decreases n - i,
                    {
                        let t = match &xs[i] {
                            Node::String(s) => s.clone(),
                            other => render_json(other),
                        };
                        items.push(t);
                        i = i + 1;
                    }
                    assert(items@.map_values(|s: String| s@) =~= xs@.map_values(|x: Node| item_text(x)));
                },
                _ => {
                    assert(items@.map_values(|s: String| s@) =~= Seq::<Seq<char>>::empty());
                },
            }
            LoopPlan::Collection { var: var.clone(), items }
        },
        _ => {
            let n = match &lc.count {
                Some(Node::Number(t)) => match parse_u64(t.as_str()) {
                    Some(n) => n,
                    None => 0,
                },
                Some(Node::String(_)) => match parse_u64(resolved_count) {
                    Some(n) => n,
                    None => 0,
                },
                _ => 0,
            };
            LoopPlan::Count(n)
        },
    }
}

/// The task id of the single body step of a loop in iteration `iter`:
/// `<parent>_iter_<iter>_inner`.
pub fn inner_task_id(parent: &str, iter: u64) -> (id: String)
    ensures
        id@ == parent@ + "_iter_"@ + decimal_text(iter as nat) + "_inner"@,
{
    let mut id = parent.to_owned();
    id.append("_iter_");
    push_decimal(&mut id, iter);
    id.append("_inner");
    id
}

/// The task id of body step `index` of a loop in iteration `iter`:
/// `<parent>_iter_<iter>_inner_<index>`.
pub fn inner_task_id_at(parent: &str, iter: u64, index: u64) -> (id: String)
    ensures
        id@ == parent@ + "_iter_"@ + decimal_text(iter as nat) + "_inner_"@ + decimal_text(index as nat),
{
    let mut id = parent.to_owned();
    id.append("_iter_");
    push_decimal(&mut id, iter);
    id.append("_inner_");
    push_decimal(&mut id, index);
    id
}

/// Without a `within` window, attempt number `a` is made exactly when `a` is at
/// most the policy's attempt count, and a failed attempt ends the step exactly
/// when it was the last one allowed: a step that keeps failing is attempted
/// `max_attempts` times.
pub proof fn lemma_attempts_bounded(p: AttemptPolicy, a: u32, elapsed_ms: u128)
    requires
        p.within_ms is None,
    ensures
        (spec_gate(p, a, elapsed_ms) == AttemptGate::Run) <==> a <= p.max_attempts,
        stops_after(p, a) <==> a >= p.max_attempts,
{
}

/// Under the `required` mock strategy no protocol driver is called, except for a
/// step without a mock that only runs a script.
pub proof fn lemma_required_runs_only_scripts(step: Step)
    ensures
        protocol_applies(step, "required"@) ==> script_only(step) && step.mock is None,
{
    lemma_strategies_differ();
}

/// A duration written as a number followed by `ms`, `s` or `m` reads back as that
/// many milliseconds, seconds or minutes.
pub proof fn lemma_duration_texts(n: u64)
    ensures
        spec_parse_duration(decimal_text(n as nat) + "ms"@) == Some(n as int),
        spec_parse_duration(decimal_text(n as nat) + "s"@) == Some(n * 1000),
        spec_parse_duration(decimal_text(n as nat) + "m"@) == Some(n * 60000),
{
    reveal_strlit("ms");
    reveal_strlit("s");
    reveal_strlit("m");
    lemma_decimal_text_value(n as nat);
    lemma_parse_decimal_text(n);
    let t = decimal_text(n as nat);
    let a = t + "ms"@;
    let b = t + "s"@;
    let c = t + "m"@;
    assert(a.subrange(a.len() - 2, a.len() as int) =~= "ms"@);
    assert(before_suffix(a, "ms"@) =~= t);
    assert(b.subrange(b.len() - 1, b.len() as int) =~= "s"@);
    assert(before_suffix(b, "s"@) =~= t);
    assert(is_digit(t[t.len() - 1]));
    assert(b[b.len() - 2] == t[t.len() - 1]);
    assert(!has_suffix(b, "ms"@)) by {
        if has_suffix(b, "ms"@) {
            assert(b.subrange(b.len() - 2, b.len() as int)[0] == 'm');
        }
    }
    assert(c.subrange(c.len() - 1, c.len() as int) =~= "m"@);
    assert(before_suffix(c, "m"@) =~= t);
    assert(!has_suffix(c, "ms"@)) by {
        if has_suffix(c, "ms"@) {
            assert(c.subrange(c.len() - 2, c.len() as int)[1] == 's');
        }
    }
    assert(!has_suffix(c, "s"@)) by {
        if has_suffix(c, "s"@) {
            assert(c.subrange(c.len() - 1, c.len() as int)[0] == 's');
        }
    }
}

/// A step with a mock never calls its protocol driver unless the mock strategy is
/// `disabled`: under `auto` and `required` it answers from its mock.
pub proof fn lemma_mocked_steps_stay_offline(step: Step, mock_strategy: Seq<char>)
    requires
        step.mock is Some,
    ensures
        protocol_applies(step, mock_strategy) ==> mock_strategy == "disabled"@,
{
}

proof fn lemma_strategies_differ()
    ensures
        "required"@ != "auto"@,
        "required"@ != "disabled"@,
{
    reveal_strlit("required");
    reveal_strlit("auto");
    reveal_strlit("disabled");
    assert("required"@[0] != "auto"@[0]);
    assert("required"@[0] != "disabled"@[0]);
}

} // verus!
