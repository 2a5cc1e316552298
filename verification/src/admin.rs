//! The admin server's state: the health summary of the engine and its stores,
//! the bounded history of system metrics, and the bookkeeping of runs.
use vstd::prelude::*;
use crate::text::{contains_str, contains_text, owned};

verus! {

/// The health of the engine and its services.
#[derive(Debug, Clone)]
pub struct SystemStatus {
    pub evento_core: String,
    pub sled_store: String,
    pub postgres_store: String,
    pub mcp_server: String,
    pub uptime_seconds: u64,
}

/// How the last Postgres health check went.
#[derive(Debug, Clone, Copy, PartialEq, Eq, Structural)]
pub enum PostgresHealth {
    /// No connection could be opened.
    Unreachable,
    /// A connection opened but `SELECT 1` failed.
    QueryFailed,
    /// `SELECT 1` succeeded.
    Healthy,
}

/// The label of a Postgres health check.
pub open spec fn postgres_label(h: PostgresHealth) -> Seq<char> {
    match h {
        PostgresHealth::Unreachable => "Offline"@,
        PostgresHealth::QueryFailed => "Error"@,
        PostgresHealth::Healthy => "Green"@,
    }
}

/// The label of the embedded store: `Green` when its directory exists.
pub open spec fn sled_label(present: bool) -> Seq<char> {
    if present {
        "Green"@
    } else {
        "Offline"@
    }
}

impl SystemStatus {
    /// The status at start-up: the core active, both stores loading, the MCP
    /// server green, no uptime.
    pub fn initial() -> (s: SystemStatus)
        ensures
            s.evento_core@ == "Active"@,
            s.sled_store@ == "Loading"@,
            s.postgres_store@ == "Loading"@,
            s.mcp_server@ == "Green"@,
            s.uptime_seconds == 0,
    {
        SystemStatus {
            evento_core: owned("Active"),
            sled_store: owned("Loading"),
            postgres_store: owned("Loading"),
            mcp_server: owned("Green"),
            uptime_seconds: 0,
        }
    }

    /// Records a health check: the uptime and the labels of both stores.
    pub fn record_check(&mut self, uptime_seconds: u64, sled_present: bool, postgres: PostgresHealth)
        ensures
            final(self).uptime_seconds == uptime_seconds,
            final(self).sled_store@ == sled_label(sled_present),
            final(self).postgres_store@ == postgres_label(postgres),
            final(self).evento_core == old(self).evento_core,
            final(self).mcp_server == old(self).mcp_server,
    {
        self.uptime_seconds = uptime_seconds;
        self.sled_store = if sled_present {
            owned("Green")
        } else {
            owned("Offline")
        };
        self.postgres_store = match postgres {
            PostgresHealth::Unreachable => owned("Offline"),
            PostgresHealth::QueryFailed => owned("Error"),
            PostgresHealth::Healthy => owned("Green"),
        };
    }
}

/// How many metric snapshots the history keeps (two hours at one every ten seconds).
pub const HISTORY_CAPACITY: usize = 720;

/// The history after recording `x`: the oldest entry leaves when it is full.
pub open spec fn next_history<T>(h: Seq<T>, x: T) -> Seq<T> {
    if h.len() >= HISTORY_CAPACITY {
        h.drop_first().push(x)
    } else {
        h.push(x)
    }
}

/// The last `HISTORY_CAPACITY` entries of what was recorded, oldest first.
pub open spec fn history_window<T>(recorded: Seq<T>) -> Seq<T> {
    if recorded.len() <= HISTORY_CAPACITY {
        recorded
    } else {
        recorded.subrange(recorded.len() - HISTORY_CAPACITY, recorded.len() as int)
    }
}

/// A bounded history of metric snapshots, oldest first.
#[derive(Debug)]
pub struct MetricsHistory<T> {
    items: Vec<T>,
}

impl<T> View for MetricsHistory<T> {
    type V = Seq<T>;

    open spec fn view(&self) -> Seq<T> {
        self.items()
    }
}

impl<T> MetricsHistory<T> {
    /// The snapshots, oldest first.
    pub closed spec fn items(&self) -> Seq<T> {
        self.items@
    }

    #[verifier::type_invariant]
    spec fn bounded(&self) -> bool {
        self.items@.len() <= HISTORY_CAPACITY
    }

    /// An empty history.
    pub fn new() -> (h: Self)
        ensures
            h@ == Seq::<T>::empty(),
    {
        MetricsHistory { items: Vec::new() }
    }

    /// Records a snapshot, dropping the oldest one when the history is full.
    pub fn record(&mut self, x: T)
        ensures
            final(self)@ == next_history(old(self)@, x),
            final(self)@.len() <= HISTORY_CAPACITY,
    {
        proof {
            use_type_invariant(&*self);
        }
        let mut items: Vec<T> = Vec::new();
        std::mem::swap(&mut items, &mut self.items);
        if items.len() >= HISTORY_CAPACITY {
            items.remove(0);
        }
        items.push(x);
        self.items = items;
    }

    /// The number of snapshots held.
    pub fn len(&self) -> (n: usize)
        ensures
            n == self@.len(),
            n <= HISTORY_CAPACITY,
    {
        proof {
            use_type_invariant(self);
        }
        self.items.len()
    }

    /// The snapshots, oldest first.
    pub fn snapshots(&self) -> (v: &Vec<T>)
        ensures
            v@ == self@,
    {
        &self.items
    }
}

/// Recording into a history that holds the window of what was recorded so far
/// gives the window of what was recorded with the new snapshot: the history is
/// always the last snapshots, oldest first, never more than its capacity.
pub proof fn lemma_history_window<T>(recorded: Seq<T>, x: T)
    ensures
        next_history(history_window(recorded), x) == history_window(recorded.push(x)),
        history_window(recorded).len() <= HISTORY_CAPACITY,
{
    let w = history_window(recorded);
    let r2 = recorded.push(x);
    if recorded.len() < HISTORY_CAPACITY {
        assert(next_history(w, x) =~= history_window(r2));
    } else if recorded.len() == HISTORY_CAPACITY {
        assert(next_history(w, x) =~= history_window(r2));
    } else {
        assert(next_history(w, x) =~= history_window(r2));
    }
}

/// Whether a stored run state counts as finished: it mentions `Completed` or `Failed`.
pub fn run_finished(state_json: &str) -> (r: bool)
    ensures
        r == (contains_text(state_json@, "Completed"@) || contains_text(state_json@, "Failed"@)),
{
    contains_str(state_json, "Completed") || contains_str(state_json, "Failed")
}

/// Whether a stored run state counts as finished.
pub open spec fn finished_state(state: Option<String>) -> bool {
    state matches Some(t) && (contains_text(t@, "Completed"@) || contains_text(t@, "Failed"@))
}

/// How many of the stored run states count as finished.
pub open spec fn finished_count(states: Seq<Option<String>>) -> nat
    decreases states.len(),
{
    if states.len() == 0 {
        0
    } else {
        finished_count(states.drop_last()) + if finished_state(states.last()) {
            1nat
        } else {
            0nat
        }
    }
}

proof fn lemma_finished_at_most(states: Seq<Option<String>>)
    ensures
        finished_count(states) <= states.len(),
    decreases states.len(),
{
    if states.len() > 0 {
        lemma_finished_at_most(states.drop_last());
    }
}

/// A run counts as finished exactly when its state was read and mentions
/// `Completed` or `Failed`: an empty list counts none, and one more state adds one
/// exactly when it is such a state (a `Cancelled` or `Running` state, or an
/// unread one, adds nothing).
pub proof fn lemma_finished_count_step(states: Seq<Option<String>>, x: Option<String>)
    ensures
        finished_count(Seq::<Option<String>>::empty()) == 0,
        finished_count(states.push(x)) == finished_count(states) + if x matches Some(t) && (contains_text(
            t@,
            "Completed"@,
        ) || contains_text(t@, "Failed"@)) {
            1nat
        } else {
            0nat
        },
{
    assert(states.push(x).drop_last() =~= states);
}

/// The finished runs are counted one for one: the count is the number of states
/// that were read and mention `Completed` or `Failed`.
pub proof fn lemma_finished_count_filters(states: Seq<Option<String>>)
    ensures
        finished_count(states) == states.filter(
            |x: Option<String>|
                x matches Some(t) && (contains_text(t@, "Completed"@) || contains_text(t@, "Failed"@)),
        ).len(),
    decreases states.len(),
{
    reveal_with_fuel(Seq::filter, 1);
    if states.len() > 0 {
        lemma_finished_count_filters(states.drop_last());
    }
}

/// The task counts of a metrics snapshot, from the states of the stored runs (one
/// entry per run, `None` where no state could be read): the runs created, and
/// those finished; never more finished than created.
pub fn task_counts(states: &Vec<Option<String>>) -> (r: (usize, usize))
    ensures
        r.0 == states@.len(),
        r.1 == finished_count(states@),
        r.1 == states@.filter(
            |x: Option<String>|
                x matches Some(t) && (contains_text(t@, "Completed"@) || contains_text(t@, "Failed"@)),
        ).len(),
        r.1 <= r.0,
{
    proof {
        lemma_finished_count_filters(states@);
    }
    let n = states.len();
    let mut done: usize = 0;
    let mut i: usize = 0;
    assert(states@.take(0) =~= Seq::<Option<String>>::empty());
    while i < n
        invariant
            n == states@.len(),
            i <= n,
            done == finished_count(states@.take(i as int)),
        decreases n - i,
    {
        proof {
            assert(states@.take(i + 1).drop_last() =~= states@.take(i as int));
            lemma_finished_at_most(states@.take(i as int));
        }
        let fin = match &states[i] {
            Some(t) => run_finished(t.as_str()),
            None => false,
        };
        if fin {
            done = done + 1;
        }
        i = i + 1;
    }
    assert(states@.take(n as int) =~= states@);
    proof {
        lemma_finished_at_most(states@);
    }
    (n, done)
}

/// Whether a run whose virtual users have all finished is to be marked
/// `Completed`: when no state is stored, or the stored state is neither cancelled
/// nor failed.
pub fn completion_due(state_json: Option<&str>) -> (r: bool)
    ensures
        r == match state_json {
            None => true,
            Some(s) => !contains_text(s@, "Cancelled"@) && !contains_text(s@, "Failed"@),
        },
{
    match state_json {
        None => true,
        Some(s) => !contains_str(s, "Cancelled") && !contains_str(s, "Failed"),
    }
}

/// The port of the target-service simulator: the one after the admin port.
pub fn simulator_port(admin_port: u16) -> (p: u16)
    requires
        admin_port < 65535,
    ensures
        p == admin_port + 1,
{
    admin_port + 1
}

} // verus!
