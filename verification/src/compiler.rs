//! Compilation of a test plan into an execution plan: one task per scenario step,
//! each depending on the steps it waits for or, by default, on the step before it.
use vstd::prelude::*;
use crate::dsl::{Step, TestPlan};
use crate::state::{now_unix_ms, ExecutionConfig, ExecutionPlan, ExecutionTask, PlanMetadata};
use crate::text::{owned, replace_char, replace_char_with, str_equal};

verus! {

/// Fresh identifier from `uuid::Uuid::new_v4`, in its hyphenated text form
/// (`8-4-4-4-12` hexadecimal digits, 36 characters). Its digits are random: only
/// its length is claimed.
#[verifier::external_body]
fn new_task_id() -> (r: String)
    ensures
        r@.len() == 36,
{
    uuid::Uuid::new_v4().to_string()
}

/// The names of a sequence of steps.
pub open spec fn step_names(steps: Seq<Step>) -> Seq<Seq<char>> {
    steps.map_values(|s: Step| s.name@)
}

/// The step names that a step waits for (empty when it has no `wait_for`).
pub open spec fn wait_list(s: Step) -> Seq<Seq<char>> {
    match s.wait_for {
        Some(w) => w@.map_values(|x: String| x@),
        None => Seq::empty(),
    }
}

/// The latest step at or before position `upto` whose name is `d` (none when
/// `upto` is negative).
pub open spec fn resolve_dep(names: Seq<Seq<char>>, upto: int, d: Seq<char>) -> Option<int>
    decreases upto + 1,
{
    if upto < 0 {
        None
    } else if names[upto] == d {
        Some(upto)
    } else {
        resolve_dep(names, upto - 1, d)
    }
}

proof fn lemma_resolve_bounds(names: Seq<Seq<char>>, upto: int, d: Seq<char>)
    ensures
        resolve_dep(names, upto, d) matches Some(j) ==> 0 <= j <= upto && names[j] == d,
    decreases upto + 1,
{
    if upto >= 0 && names[upto] != d {
        lemma_resolve_bounds(names, upto - 1, d);
    }
}

/// Entry `k` of the wait list of step `i` names no step before `i`.
pub open spec fn unresolved(steps: Seq<Step>, i: int, k: int) -> bool {
    &&& 0 <= i < steps.len()
    &&& 0 <= k < wait_list(steps[i]).len()
    &&& resolve_dep(step_names(steps), i - 1, wait_list(steps[i])[k]) is None
}

/// `(i, k)` is the first unresolved wait-list entry in document order.
pub open spec fn first_unresolved(steps: Seq<Step>, i: int, k: int) -> bool {
    &&& unresolved(steps, i, k)
    &&& forall|i2: int, k2: int|
        (i2 < i || (i2 == i && k2 < k)) ==> !#[trigger] unresolved(steps, i2, k2)
}

/// The dependencies of step `i`, given the task ids of all steps: the tasks of the
/// steps it waits for, or else the task just before it.
pub open spec fn expected_deps(steps: Seq<Step>, ids: Seq<Seq<char>>, i: int) -> Seq<Seq<char>> {
    match steps[i].wait_for {
        Some(_) => wait_list(steps[i]).map_values(
            |d: Seq<char>| ids[resolve_dep(step_names(steps), i - 1, d)->0],
        ),
        None => if i == 0 {
            Seq::empty()
        } else {
            seq![ids[i - 1]]
        },
    }
}

proof fn lemma_expected_deps_prefix(steps: Seq<Step>, a: Seq<Seq<char>>, b: Seq<Seq<char>>, j: int)
    requires
        0 <= j < steps.len(),
        forall|x: int| 0 <= x <= j ==> a[x] == b[x],
        forall|k: int| !#[trigger] unresolved(steps, j, k),
    ensures
        expected_deps(steps, a, j) == expected_deps(steps, b, j),
{
    match steps[j].wait_for {
        Some(_) => {
            let w = wait_list(steps[j]);
            assert forall|k: int| 0 <= k < w.len() implies expected_deps(steps, a, j)[k]
                == expected_deps(steps, b, j)[k] by {
                lemma_resolve_bounds(step_names(steps), j - 1, w[k]);
                assert(!unresolved(steps, j, k));
            }
            assert(expected_deps(steps, a, j) =~= expected_deps(steps, b, j));
        },
        None => {},
    }
}

/// The text of each string.
pub open spec fn texts(v: Seq<String>) -> Seq<Seq<char>> {
    v.map_values(|s: String| s@)
}

/// The task ids of a sequence of tasks.
pub open spec fn task_ids(tasks: Seq<ExecutionTask>) -> Seq<Seq<char>> {
    tasks.map_values(|t: ExecutionTask| t.task_id@)
}

/// A step waits for a step that does not precede it.
#[derive(Debug, Clone)]
pub struct CompileError {
    /// The step whose `wait_for` cannot be resolved.
    pub step: String,
    /// The name it waits for.
    pub missing: String,
}

impl CompileError {
    /// `Step '<step>' waits for unknown step '<missing>'`.
    pub fn message(&self) -> (m: String)
        ensures
            m@ == "Step '"@ + self.step@ + "' waits for unknown step '"@ + self.missing@ + "'"@,
    {
        let mut m = owned("Step '");
        m.append(self.step.as_str());
        m.append("' waits for unknown step '");
        m.append(self.missing.as_str());
        m.append("'");
        m
    }
}

/// Every wait-list entry of every step names a step before it.
pub open spec fn compiles(steps: Seq<Step>) -> bool {
    forall|i: int, k: int| !#[trigger] unresolved(steps, i, k)
}

/// `e` names the first unresolved wait-list entry, in document order.
pub open spec fn reports(steps: Seq<Step>, e: CompileError) -> bool {
    exists|i: int, k: int|
        #![trigger unresolved(steps, i, k)]
        first_unresolved(steps, i, k) && e.step@ == steps[i].name@ && e.missing@ == wait_list(steps[i])[k]
}

/// `p` is the execution plan of `plan`: a task per step in order, with the step's
/// name, definition and expected dependencies; run and task ids of UUID length
/// (36 characters); the namespace, virtual users
/// (default 1), duration (60 s), mock strategy (default `auto`), default step
/// timeout and description of the plan.
pub open spec fn compiled_as(plan: TestPlan, p: ExecutionPlan) -> bool {
    &&& p.run_id@.len() == 36
    &&& p.tasks@.len() == plan.scenario@.len()
    &&& forall|i: int|
        0 <= i < p.tasks@.len() ==> {
            &&& (#[trigger] p.tasks@[i]).step_name@ == plan.scenario@[i].name@
            &&& p.tasks@[i].task_id@.len() == 36
            &&& p.tasks@[i].step_definition == plan.scenario@[i]
            &&& texts(p.tasks@[i].dependencies@) == expected_deps(plan.scenario@, task_ids(p.tasks@), i)
        }
    &&& p.namespace@ == replace_char(plan.test@, '.', "/"@)
    &&& p.config.virtual_users == match plan.config {
        Some(c) => match c.virtual_users {
            Some(n) => n,
            None => 1,
        },
        None => 1,
    }
    &&& p.config.duration_ms == 60000
    &&& p.config.mock_strategy@ == match plan.config {
        Some(c) => match c.mock_strategy {
            Some(m) => m@,
            None => "auto"@,
        },
        None => "auto"@,
    }
    &&& p.config.step_timeout == match plan.config {
        Some(c) => c.step_timeout,
        None => None,
    }
    &&& p.metadata.description == plan.description
}

/// Compiles test plans.
pub struct Compiler;

/// The latest step before position `before` named `d`.
fn find_dep(steps: &Vec<Step>, before: usize, d: &str) -> (r: Option<usize>)
    requires
        before <= steps@.len(),
    ensures
        match r {
            Some(j) => resolve_dep(step_names(steps@), before - 1, d@) == Some(j as int),
            None => resolve_dep(step_names(steps@), before - 1, d@) is None,
        },
{
    let ghost names = step_names(steps@);
    if before == 0 {
        return None;
    }
    let upto: usize = before - 1;
    let mut j: usize = upto;
    loop
        invariant
            j <= upto,
            upto == before - 1,
            upto < steps@.len(),
            names == step_names(steps@),
            resolve_dep(names, upto as int, d@) == resolve_dep(names, j as int, d@),
        decreases j,
    {
        if str_equal(steps[j].name.as_str(), d) {
            return Some(j);
        }
        if j == 0 {
            return None;
        }
        j = j - 1;
    }
}

impl Compiler {
    /// Compiles a plan into tasks, one per scenario step in order. A step with
    /// `wait_for` depends on the latest step of each listed name before it; any
    /// other step depends on the step before it, so the tasks come in dependency
    /// order. The namespace is the test name with `.` replaced by `/`; virtual
    /// users default to 1, the mock strategy to `auto`, the duration is 60 s, and
    /// the plan's `step_timeout` is kept as the default step timeout. Fails on the
    /// first `wait_for` entry (in document order) that names no step before its
    /// own, a step's own name included.
    pub fn compile(plan: TestPlan) -> (r: Result<ExecutionPlan, CompileError>)
        ensures
            match r {
                Err(e) => !compiles(plan.scenario@) && reports(plan.scenario@, e),
                Ok(p) => compiles(plan.scenario@) && compiled_as(plan, p),
            },
    {
        let TestPlan { test, description, config, scenario, .. } = plan;
        let ghost steps = scenario@;
        let ghost names = step_names(steps);
        let run_id = new_task_id();
        let namespace = replace_char_with(test.as_str(), '.', "/");
        let virtual_users = match &config {
            Some(c) => match c.virtual_users {
                Some(n) => n,
                None => 1,
            },
            None => 1,
        };
        let mock_strategy = match &config {
            Some(c) => match &c.mock_strategy {
                Some(m) => m.clone(),
                None => owned("auto"),
            },
            None => owned("auto"),
        };
        let step_timeout = match &config {
            Some(c) => c.step_timeout.clone(),
            None => None,
        };
        let n = scenario.len();
        let mut ids: Vec<String> = Vec::new();
        let mut deps_all: Vec<Vec<String>> = Vec::new();
        let mut i: usize = 0;
        while i < n
            invariant
                n == scenario@.len(),
                steps == scenario@,
                steps == plan.scenario@,
                names == step_names(steps),
                i <= n,
                ids@.len() == i,
                forall|j: int| 0 <= j < i ==> (#[trigger] ids@[j])@.len() == 36,
                deps_all@.len() == i,
                forall|i2: int, k2: int| 0 <= i2 < i ==> !#[trigger] unresolved(steps, i2, k2),
                forall|j: int|
                    0 <= j < i ==> texts((#[trigger] deps_all@[j])@) == expected_deps(
                        steps,
                        texts(ids@),
                        j,
                    ),
            decreases n - i,
        {
            let id = new_task_id();
            let ghost prev_ids = texts(ids@);
            ids.push(id);
            let ghost idt = texts(ids@);
            let mut deps: Vec<String> = Vec::new();
            match &scenario[i].wait_for {
                Some(w) => {
                    let m = w.len();
                    let mut k: usize = 0;
                    while k < m
                        invariant
                            n == scenario@.len(),
                            steps == scenario@,
                            steps == plan.scenario@,
                            names == step_names(steps),
                            i < n,
                            m == w@.len(),
                            scenario@[i as int].wait_for == Some(*w),
                            ids@.len() == i + 1,
                            idt == texts(ids@),
                            k <= m,
                            deps@.len() == k,
                            forall|k2: int| 0 <= k2 < k ==> !#[trigger] unresolved(steps, i as int, k2),
                            forall|i2: int, k2: int| 0 <= i2 < i ==> !#[trigger] unresolved(steps, i2, k2),
                            forall|k2: int|
                                0 <= k2 < k ==> (#[trigger] deps@[k2])@ == idt[resolve_dep(
                                    names,
                                    i - 1,
                                    wait_list(steps[i as int])[k2],
                                )->0],
                        decreases m - k,
                    {
                        assert(wait_list(steps[i as int])[k as int] == w@[k as int]@);
                        match find_dep(&scenario, i, w[k].as_str()) {
                            Some(j) => {
                                proof {
                                    lemma_resolve_bounds(names, i - 1, w@[k as int]@);
                                }
                                deps.push(ids[j].clone());
                            },
                            None => {
                                let e = CompileError { step: scenario[i].name.clone(), missing: w[k].clone() };
                                proof {
                                    assert(unresolved(steps, i as int, k as int));
                                    assert forall|i2: int, k2: int|
                                        (i2 < i || (i2 == i && k2 < k)) implies !#[trigger] unresolved(
                                        steps,
                                        i2,
                                        k2,
                                    ) by {
                                        if 0 <= i2 && i2 < i {
                                            assert(!unresolved(steps, i2, k2));
                                        }
                                    }
                                    assert(first_unresolved(steps, i as int, k as int));
                                }
                                return Err(e);
                            },
                        }
                        k = k + 1;
                    }
                    proof {
                        assert(texts(deps@) =~= expected_deps(steps, idt, i as int));
                        assert forall|k2: int| !#[trigger] unresolved(steps, i as int, k2) by {
                            if 0 <= k2 < m {
                            }
                        }
                    }
                },
                None => {
                    if i > 0 {
                        deps.push(ids[i - 1].clone());
                    }
                    proof {
                        assert(texts(deps@) =~= expected_deps(steps, idt, i as int));
                        assert forall|k2: int| !#[trigger] unresolved(steps, i as int, k2) by {}
                    }
                },
            }
            let ghost old_deps_all = deps_all@;
            deps_all.push(deps);
            proof {
                assert forall|j: int| 0 <= j < i + 1 implies texts((#[trigger] deps_all@[j])@)
                    == expected_deps(steps, texts(ids@), j) by {
                    if j < i {
                        assert(deps_all@[j] == old_deps_all[j]);
                        lemma_expected_deps_prefix(steps, texts(ids@), prev_ids, j);
                    }
                }
            }
            i = i + 1;
        }
        let ghost idt = texts(ids@);
        let mut scenario = scenario;
        let mut tasks: Vec<ExecutionTask> = Vec::new();
        let mut rest_deps = deps_all;
        let mut t: usize = 0;
        while t < n
            invariant
                n == steps.len(),
                names == step_names(steps),
                idt == texts(ids@),
                ids@.len() == n,
                forall|j: int| 0 <= j < n ==> (#[trigger] ids@[j])@.len() == 36,
                t <= n,
                tasks@.len() == t,
                scenario@ == steps.subrange(t as int, n as int),
                rest_deps@ == deps_all@.subrange(t as int, n as int),
                deps_all@.len() == n,
                forall|j: int|
                    0 <= j < n ==> texts((#[trigger] deps_all@[j])@) == expected_deps(steps, idt, j),
                forall|j: int|
                    0 <= j < t ==> {
                        &&& (#[trigger] tasks@[j]).step_name@ == names[j]
                        &&& tasks@[j].step_definition == steps[j]
                        &&& tasks@[j].task_id@ == idt[j]
                        &&& tasks@[j].dependencies == deps_all@[j]
                    },
            decreases n - t,
        {
            let step = scenario.remove(0);
            let deps = rest_deps.remove(0);
            let task_id = ids[t].clone();
            let step_name = step.name.clone();
            let ghost old_tasks = tasks@;
            tasks.push(ExecutionTask { task_id, step_name, dependencies: deps, step_definition: step });
            proof {
                assert forall|j: int| 0 <= j < t + 1 implies {
                    &&& (#[trigger] tasks@[j]).step_name@ == names[j]
                    &&& tasks@[j].step_definition == steps[j]
                    &&& tasks@[j].task_id@ == idt[j]
                    &&& tasks@[j].dependencies == deps_all@[j]
                } by {
                    if j < t {
                        assert(tasks@[j] == old_tasks[j]);
                    }
                }
                assert(scenario@ =~= steps.subrange(t + 1, n as int));
                assert(rest_deps@ =~= deps_all@.subrange(t + 1, n as int));
            }
            t = t + 1;
        }
        proof {
            assert(task_ids(tasks@) =~= idt);
            assert forall|i2: int, k2: int| !#[trigger] unresolved(steps, i2, k2) by {
                if 0 <= i2 < n {
                }
            }
        }
        let submitted_at = now_unix_ms();
        Ok(ExecutionPlan {
            run_id,
            namespace,
            config: ExecutionConfig { virtual_users, duration_ms: 60000, mock_strategy, step_timeout },
            tasks,
            metadata: PlanMetadata { submitted_at, description },
        })
    }
}

/// Every dependency of a compiled task is the id of a task strictly before it:
/// the tasks come in dependency order, and no task depends on itself.
pub proof fn lemma_dependencies_precede(plan: TestPlan, p: ExecutionPlan, i: int, d: int)
    requires
        compiles(plan.scenario@),
        compiled_as(plan, p),
        0 <= i < p.tasks@.len(),
        0 <= d < p.tasks@[i].dependencies@.len(),
    ensures
        exists|j: int| 0 <= j < i && #[trigger] p.tasks@[j].task_id@ == p.tasks@[i].dependencies@[d]@,
{
    let steps = plan.scenario@;
    let ids = task_ids(p.tasks@);
    let deps = p.tasks@[i].dependencies@;
    assert(texts(deps) == expected_deps(steps, ids, i));
    assert(texts(deps)[d] == deps[d]@);
    match steps[i].wait_for {
        Some(_) => {
            let w = wait_list(steps[i]);
            assert(expected_deps(steps, ids, i).len() == w.len());
            assert(!unresolved(steps, i, d));
            lemma_resolve_bounds(step_names(steps), i - 1, w[d]);
            let r = resolve_dep(step_names(steps), i - 1, w[d])->0;
            assert(deps[d]@ == ids[r]);
            assert(p.tasks@[r].task_id@ == ids[r]);
        },
        None => {
            assert(deps[d]@ == ids[i - 1]);
            assert(p.tasks@[i - 1].task_id@ == ids[i - 1]);
        },
    }
}

} // verus!
