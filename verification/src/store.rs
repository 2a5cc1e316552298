//! The layout of the embedded key-value store: the keys under which runs,
//! their states, plans and virtual-user entries are kept, and how stored values
//! are recognised.
use vstd::prelude::*;
use crate::text::{contains_str, contains_text, decimal_text, has_prefix, owned, push_decimal, strip_prefix};

verus! {

/// The key of a run's state: `run:{run_id}:state`.
pub fn run_state_key(run_id: &str) -> (k: String)
    ensures
        k@ == "run:"@ + run_id@ + ":state"@,
{
    let mut k = owned("run:");
    k.append(run_id);
    k.append(":state");
    k
}

/// The key of a virtual user's entry: `run:{run_id}:ctx:{vu_id}:{key}`.
pub fn vu_context_key(run_id: &str, vu_id: u32, key: &str) -> (k: String)
    ensures
        k@ == "run:"@ + run_id@ + ":ctx:"@ + decimal_text(vu_id as nat) + ":"@ + key@,
{
    let mut k = owned("run:");
    k.append(run_id);
    k.append(":ctx:");
    push_decimal(&mut k, vu_id as u64);
    k.append(":");
    k.append(key);
    k
}

/// The prefix of all virtual-user entries of a run: `run:{run_id}:ctx:`.
pub fn run_entries_prefix(run_id: &str) -> (k: String)
    ensures
        k@ == "run:"@ + run_id@ + ":ctx:"@,
{
    let mut k = owned("run:");
    k.append(run_id);
    k.append(":ctx:");
    k
}

/// The key of a stored plan: `plan:{run_id}`.
pub fn plan_key(run_id: &str) -> (k: String)
    ensures
        k@ == "plan:"@ + run_id@,
{
    let mut k = owned("plan:");
    k.append(run_id);
    k
}

/// The run id that a plan key names: the key without its `plan:` prefix.
pub fn run_id_of_plan_key(key: &str) -> (r: Option<String>)
    ensures
        match r {
            Some(id) => has_prefix(key@, "plan:"@) && id@ == key@.subrange(5, key@.len() as int),
            None => !has_prefix(key@, "plan:"@),
        },
{
    proof {
        reveal_strlit("plan:");
    }
    match strip_prefix(key, "plan:") {
        Some(rest) => Some(owned(rest)),
        None => None,
    }
}

/// The key under which one attempt at a task is recorded:
/// `run:{run_id}:vu:{vu_id}:task:{task_id}:attempt:{attempt}`.
pub fn attempt_key(run_id: &str, vu_id: u32, task_id: &str, attempt: u32) -> (k: String)
    ensures
        k@ == "run:"@ + run_id@ + ":vu:"@ + decimal_text(vu_id as nat) + ":task:"@ + task_id@ + ":attempt:"@
            + decimal_text(attempt as nat),
{
    let mut k = owned("run:");
    k.append(run_id);
    k.append(":vu:");
    push_decimal(&mut k, vu_id as u64);
    k.append(":task:");
    k.append(task_id);
    k.append(":attempt:");
    push_decimal(&mut k, attempt as u64);
    k
}

/// Whether a stored value is the record of a step result: its text has both the
/// quoted field names `"task_id"` and `"status"`.
pub fn is_step_result(value: &str) -> (r: bool)
    ensures
        r == (contains_text(value@, "\"task_id\""@) && contains_text(value@, "\"status\""@)),
{
    contains_str(value, "\"task_id\"") && contains_str(value, "\"status\"")
}

/// The run id of a stored plan is read back from its key.
pub proof fn lemma_plan_key_names_run(run_id: Seq<char>)
    ensures
        has_prefix("plan:"@ + run_id, "plan:"@),
        ("plan:"@ + run_id).subrange(5, ("plan:"@ + run_id).len() as int) == run_id,
{
    reveal_strlit("plan:");
    assert(("plan:"@ + run_id).subrange(0, 5) =~= "plan:"@);
    assert(("plan:"@ + run_id).subrange(5, ("plan:"@ + run_id).len() as int) =~= run_id);
}

/// Two runs with different ids keep their states under different keys.
pub proof fn lemma_state_keys_distinct(a: Seq<char>, b: Seq<char>)
    requires
        "run:"@ + a + ":state"@ == "run:"@ + b + ":state"@,
    ensures
        a == b,
{
    reveal_strlit("run:");
    reveal_strlit(":state");
    let ka = "run:"@ + a + ":state"@;
    let kb = "run:"@ + b + ":state"@;
    assert("run:"@.len() == 4);
    assert(":state"@.len() == 6);
    assert(ka.len() == a.len() + 10);
    assert(kb.len() == b.len() + 10);
    assert(a.len() == b.len());
    assert(a =~= ka.subrange(4, 4 + a.len() as int));
    assert(b =~= kb.subrange(4, 4 + b.len() as int));
}

} // verus!
