//! Budget accounting: the usage of a run and of the tree of runs that share
//! its budget root, and the decision whether either breaches its limits.

use std::collections::BTreeMap;

use vstd::prelude::*;

use crate::events::{EventPayload, EventRecord, StreamFrame};
use crate::run::{parent_run_id, spec_budget_parent, RunId, RunRecord, SessionId};

verus! {

broadcast use {
    vstd::std_specs::btree::group_btree_axioms,
    vstd::laws_cmp::group_laws_cmp,
    vstd::seq_lib::group_seq_properties,
};

/// Resources that a run (or a tree of runs) has used.
#[derive(Debug, Clone, Copy, PartialEq, Eq, Structural)]
pub struct BudgetUsage {
    pub total_tokens: u64,
    pub wall_clock_ms: u64,
    pub tool_calls: u64,
}

impl BudgetUsage {
    /// Nothing used.
    pub fn zero() -> (u: Self)
        ensures
            u == spec_zero_usage(),
    {
        BudgetUsage { total_tokens: 0, wall_clock_ms: 0, tool_calls: 0 }
    }
}

/// Nothing used.
pub open spec fn spec_zero_usage() -> BudgetUsage {
    BudgetUsage { total_tokens: 0, wall_clock_ms: 0, tool_calls: 0 }
}

/// Limits on each metric; `None` leaves a metric unbounded.
#[derive(Debug, Clone, Copy, PartialEq, Eq, Structural)]
pub struct BudgetLimits {
    pub max_tokens: Option<u64>,
    pub max_wall_clock_ms: Option<u64>,
    pub max_tool_calls: Option<u64>,
}

impl BudgetLimits {
    /// No limit on any metric.
    pub fn unbounded() -> (l: Self)
        ensures
            l.max_tokens is None && l.max_wall_clock_ms is None && l.max_tool_calls is None,
    {
        BudgetLimits { max_tokens: None, max_wall_clock_ms: None, max_tool_calls: None }
    }
}

/// Limits for a single run and for the tree of runs under its budget root.
#[derive(Debug, Clone, Copy, PartialEq, Eq, Structural)]
pub struct BudgetPolicy {
    pub per_run: BudgetLimits,
    pub parent_aggregate: BudgetLimits,
}

/// Which usage breached.
#[derive(Debug, Clone, Copy, PartialEq, Eq, Structural)]
pub enum BudgetScope {
    Run,
    ParentAggregate,
}

/// Which metric breached.
#[derive(Debug, Clone, Copy, PartialEq, Eq, Structural)]
pub enum BudgetMetric {
    Tokens,
    WallClockMs,
    ToolCalls,
}

/// A breach: `actual` went over `limit`.
#[derive(Debug, Clone, Copy, PartialEq, Eq, Structural)]
pub struct BudgetExceeded {
    pub scope: BudgetScope,
    pub metric: BudgetMetric,
    pub limit: u64,
    pub actual: u64,
}

/// Whether usage stays within limits.
#[derive(Debug, Clone, Copy, PartialEq, Eq, Structural)]
pub enum BudgetDecision {
    WithinBudget,
    Exceeded(BudgetExceeded),
}

/// The first metric, in the order tokens, wall clock, tool calls, whose
/// usage is strictly above its limit. Usage equal to a limit is within it.
pub open spec fn spec_decide(limits: BudgetLimits, usage: BudgetUsage, scope: BudgetScope) -> BudgetDecision {
    if limits.max_tokens is Some && usage.total_tokens > limits.max_tokens->0 {
        BudgetDecision::Exceeded(BudgetExceeded {
            scope,
            metric: BudgetMetric::Tokens,
            limit: limits.max_tokens->0,
            actual: usage.total_tokens,
        })
    } else if limits.max_wall_clock_ms is Some && usage.wall_clock_ms > limits.max_wall_clock_ms->0 {
        BudgetDecision::Exceeded(BudgetExceeded {
            scope,
            metric: BudgetMetric::WallClockMs,
            limit: limits.max_wall_clock_ms->0,
            actual: usage.wall_clock_ms,
        })
    } else if limits.max_tool_calls is Some && usage.tool_calls > limits.max_tool_calls->0 {
        BudgetDecision::Exceeded(BudgetExceeded {
            scope,
            metric: BudgetMetric::ToolCalls,
            limit: limits.max_tool_calls->0,
            actual: usage.tool_calls,
        })
    } else {
        BudgetDecision::WithinBudget
    }
}

fn decide(limits: BudgetLimits, usage: BudgetUsage, scope: BudgetScope) -> (d: BudgetDecision)
    ensures
        d == spec_decide(limits, usage, scope),
{
    if let Some(max) = limits.max_tokens {
        if usage.total_tokens > max {
            return BudgetDecision::Exceeded(BudgetExceeded {
                scope,
                metric: BudgetMetric::Tokens,
                limit: max,
                actual: usage.total_tokens,
            });
        }
    }
    if let Some(max) = limits.max_wall_clock_ms {
        if usage.wall_clock_ms > max {
            return BudgetDecision::Exceeded(BudgetExceeded {
                scope,
                metric: BudgetMetric::WallClockMs,
                limit: max,
                actual: usage.wall_clock_ms,
            });
        }
    }
    if let Some(max) = limits.max_tool_calls {
        if usage.tool_calls > max {
            return BudgetDecision::Exceeded(BudgetExceeded {
                scope,
                metric: BudgetMetric::ToolCalls,
                limit: max,
                actual: usage.tool_calls,
            });
        }
    }
    BudgetDecision::WithinBudget
}

impl BudgetPolicy {
    /// A policy from its two sets of limits.
    pub fn new(per_run: BudgetLimits, parent_aggregate: BudgetLimits) -> (p: Self)
        ensures
            p.per_run == per_run,
            p.parent_aggregate == parent_aggregate,
    {
        BudgetPolicy { per_run, parent_aggregate }
    }

    /// Judge a run's own usage against the per-run limits.
    pub fn decide_run(&self, usage: BudgetUsage) -> (d: BudgetDecision)
        ensures
            d == spec_decide(self.per_run, usage, BudgetScope::Run),
    {
        decide(self.per_run, usage, BudgetScope::Run)
    }

    /// Judge the usage of a budget tree against the aggregate limits.
    pub fn decide_parent_aggregate(&self, usage: BudgetUsage) -> (d: BudgetDecision)
        ensures
            d == spec_decide(self.parent_aggregate, usage, BudgetScope::ParentAggregate),
    {
        decide(self.parent_aggregate, usage, BudgetScope::ParentAggregate)
    }
}

/// Milliseconds between a run's start and its end (or `now_ms` while it is
/// still going); zero when it never started or the clock went backwards.
pub open spec fn spec_elapsed_ms(run: RunRecord, now_ms: u64) -> u64 {
    match run.started_at_ms {
        None => 0,
        Some(started) => {
            let end = match run.ended_at_ms {
                Some(e) => e,
                None => now_ms,
            };
            if end >= started {
                (end - started) as u64
            } else {
                0
            }
        },
    }
}

/// Elapsed wall-clock time of a run (see [`spec_elapsed_ms`]).
pub fn elapsed_ms(run: &RunRecord, now_ms: u64) -> (ms: u64)
    ensures
        ms == spec_elapsed_ms(*run, now_ms),
{
    let started = match run.started_at_ms {
        None => {
            return 0;
        },
        Some(s) => s,
    };
    let end = match run.ended_at_ms {
        Some(e) => e,
        None => now_ms,
    };
    end.saturating_sub(started)
}

/// `x + 1`, stopping at `u64::MAX`.
pub open spec fn spec_saturating_inc(x: u64) -> u64 {
    if x == u64::MAX {
        x
    } else {
        (x + 1) as u64
    }
}

/// Token and tool-call usage that a run's stream frames record: the last
/// reported token total, and the number of tool calls started (saturating).
pub open spec fn spec_event_usage(events: Seq<EventRecord>, run_id: RunId) -> BudgetUsage
    decreases events.len(),
{
    if events.len() == 0 {
        spec_zero_usage()
    } else {
        let prev = spec_event_usage(events.drop_last(), run_id);
        match events.last().payload {
            EventPayload::AgentStream { run_id: r, emission } => if r == run_id {
                match emission.frame {
                    StreamFrame::TokenUsageUpdated { total_tokens: Some(t) } => BudgetUsage {
                        total_tokens: t,
                        ..prev
                    },
                    StreamFrame::ToolCallStarted => BudgetUsage {
                        tool_calls: spec_saturating_inc(prev.tool_calls),
                        ..prev
                    },
                    _ => prev,
                }
            } else {
                prev
            },
            _ => prev,
        }
    }
}

/// The usage that a run's stream frames record (wall clock left at zero).
pub fn usage_from_events(events: &Vec<EventRecord>, run_id: RunId) -> (u: BudgetUsage)
    ensures
        u == spec_event_usage(events@, run_id),
{
    let mut usage = BudgetUsage::zero();
    let mut i: usize = 0;
    while i < events.len()
        invariant
            0 <= i <= events.len(),
            usage == spec_event_usage(events@.take(i as int), run_id),
        decreases events.len() - i,
    {
        assert(events@.take((i + 1) as int).drop_last() == events@.take(i as int));
        let record = events[i];
        match record.payload {
            EventPayload::AgentStream { run_id: r, emission } => {
                if r == run_id {
                    match emission.frame {
                        StreamFrame::TokenUsageUpdated { total_tokens: Some(t) } => {
                            usage.total_tokens = t;
                        },
                        StreamFrame::ToolCallStarted => {
                            usage.tool_calls = usage.tool_calls.saturating_add(1);
                        },
                        _ => {},
                    }
                }
            },
            _ => {},
        }
        i = i + 1;
    }
    assert(events@.take(events.len() as int) == events@);
    usage
}

/// A run's own usage: what its stream recorded, with its elapsed time.
pub open spec fn spec_usage_for_run(run: RunRecord, event_usage: Option<BudgetUsage>, now_ms: u64) -> BudgetUsage {
    let base = match event_usage {
        Some(u) => u,
        None => spec_zero_usage(),
    };
    BudgetUsage { wall_clock_ms: spec_elapsed_ms(run, now_ms), ..base }
}

/// A run's own usage (see [`spec_usage_for_run`]).
pub fn usage_for_run(run: &RunRecord, event_usage: Option<BudgetUsage>, now_ms: u64) -> (u: BudgetUsage)
    ensures
        u == spec_usage_for_run(*run, event_usage, now_ms),
{
    let mut usage = match event_usage {
        Some(u) => u,
        None => BudgetUsage::zero(),
    };
    usage.wall_clock_ms = elapsed_ms(run, now_ms);
    usage
}

/// The runs of one session keyed by id; when several records share an id
/// the last one stands.
#[derive(Debug)]
pub struct RunTable {
    by_id: BTreeMap<RunId, RunRecord>,
    ids: Vec<RunId>,
}

/// The table that the records of `session_id` in `runs` make, later records
/// replacing earlier ones with the same id.
pub open spec fn spec_run_table(session_id: SessionId, runs: Seq<RunRecord>) -> Map<RunId, RunRecord>
    decreases runs.len(),
{
    if runs.len() == 0 {
        Map::empty()
    } else {
        let m = spec_run_table(session_id, runs.drop_last());
        if runs.last().session_id == session_id {
            m.insert(runs.last().id, runs.last())
        } else {
            m
        }
    }
}

/// The ids of the records of `session_id` in `runs`, each once, in the
/// order in which they first appear.
pub open spec fn spec_table_ids(session_id: SessionId, runs: Seq<RunRecord>) -> Seq<RunId>
    decreases runs.len(),
{
    if runs.len() == 0 {
        Seq::empty()
    } else {
        let prev = spec_table_ids(session_id, runs.drop_last());
        if runs.last().session_id == session_id && !prev.contains(runs.last().id) {
            prev.push(runs.last().id)
        } else {
            prev
        }
    }
}

impl RunTable {
    /// The records, keyed by id. The table's other part, the order in which
    /// the ids first appeared, is [`Self::id_seq`].
    pub closed spec fn view(&self) -> Map<RunId, RunRecord> {
        self.by_id@
    }

    /// The invariant: the id list lists every key once.
    pub closed spec fn wf(&self) -> bool {
        &&& self.ids@.no_duplicates()
        &&& forall|id: RunId| self.ids@.contains(id) <==> self.by_id@.dom().contains(id)
    }

    /// The ids in the table, each once, in the order in which they first
    /// appeared (see [`spec_table_ids`]).
    pub closed spec fn id_seq(&self) -> Seq<RunId> {
        self.ids@
    }

    /// Build the table of one session's runs.
    pub fn from_session_runs(session_id: SessionId, runs: Vec<RunRecord>) -> (t: Self)
        ensures
            t.wf(),
            t@ == spec_run_table(session_id, runs@),
            t.id_seq() == spec_table_ids(session_id, runs@),
    {
        let ghost orig = runs@;
        let n0 = runs.len();
        assert(orig.len() == n0);
        let mut runs = runs;
        let mut by_id: BTreeMap<RunId, RunRecord> = BTreeMap::new();
        let mut ids: Vec<RunId> = Vec::new();
        let mut k: usize = 0;
        while runs.len() > 0
            invariant
                0 <= k <= orig.len(),
                orig.len() <= usize::MAX,
                runs.len() == orig.len() - k,
                runs@ == orig.skip(k as int),
                by_id@ == spec_run_table(session_id, orig.take(k as int)),
                ids@ == spec_table_ids(session_id, orig.take(k as int)),
                ids@.no_duplicates(),
                forall|id: RunId| ids@.contains(id) <==> by_id@.dom().contains(id),
            decreases runs.len(),
        {
            proof { crate::scheduler::lemma_u64_keys_ordered(); }
            assert(orig.take((k + 1) as int).drop_last() == orig.take(k as int));
            assert(orig.take((k + 1) as int).last() == orig[k as int]);
            let r = runs.remove(0);
            assert(runs@ == orig.skip((k + 1) as int));
            if r.session_id == session_id {
                let id = r.id;
                if !by_id.contains_key(&id) {
                    proof {
                        assert(!ids@.contains(id));
                    }
                    ids.push(id);
                }
                by_id.insert(id, r);
            }
            k = k + 1;
        }
        assert(orig.take(orig.len() as int) == orig);
        RunTable { by_id, ids }
    }

    /// The record with `id`.
    pub fn get(&self, id: RunId) -> (r: Option<&RunRecord>)
        ensures
            match r {
                Some(rec) => self@.contains_key(id) && *rec == self@[id],
                None => !self@.contains_key(id),
            },
    {
        proof { crate::scheduler::lemma_u64_keys_ordered(); }
        self.by_id.get(&id)
    }

    /// The id list is as long as the table.
    pub proof fn lemma_len_is_dom_len(&self)
        requires
            self.wf(),
        ensures
            self.id_seq().len() == self@.dom().len(),
    {
        self.ids@.unique_seq_to_set();
        assert(self.ids@.to_set() =~= self.by_id@.dom());
    }

    /// The number of ids in the table.
    pub fn len(&self) -> (n: usize)
        requires
            self.wf(),
        ensures
            n == self.id_seq().len(),
    {
        self.ids.len()
    }

    /// The id at position `i` of the id list.
    pub fn id_at(&self, i: usize) -> (id: RunId)
        requires
            i < self.id_seq().len(),
        ensures
            id == self.id_seq()[i as int],
    {
        self.ids[i]
    }
}

/// Follow budget parents from `cur_id` (whose own parent is `cur_parent`)
/// until a run without a parent, a parent missing from the table, or a run
/// already seen. `fuel` bounds the number of steps; a walk given one step
/// more than the table has runs is never cut short by it (see
/// [`law_root_walk_is_never_cut_short`]).
pub open spec fn spec_root_walk(
    table: Map<RunId, RunRecord>,
    cur_id: RunId,
    cur_parent: Option<RunId>,
    visited: Set<RunId>,
    fuel: nat,
) -> RunId
    decreases fuel,
{
    if visited.contains(cur_id) {
        cur_id
    } else {
        match cur_parent {
            None => cur_id,
            Some(p) => if !table.contains_key(p) {
                p
            } else if fuel == 0 {
                cur_id
            } else {
                spec_root_walk(
                    table,
                    p,
                    spec_budget_parent(table[p].source),
                    visited.insert(cur_id),
                    (fuel - 1) as nat,
                )
            },
        }
    }
}

/// The budget root of a run: the run reached by following budget parents
/// through the table (see [`spec_root_walk`]).
pub open spec fn spec_root_run_id(run: RunRecord, table: Map<RunId, RunRecord>) -> RunId {
    spec_root_of(run.id, spec_budget_parent(run.source), table)
}

/// The budget root reached from a run with `run_id` and budget parent `parent`.
pub open spec fn spec_root_of(run_id: RunId, parent: Option<RunId>, table: Map<RunId, RunRecord>) -> RunId {
    spec_root_walk(table, run_id, parent, Set::empty(), table.dom().len() + 1)
}

proof fn lemma_root_walk_fuel(
    table: Map<RunId, RunRecord>,
    origin: RunId,
    cur_id: RunId,
    cur_parent: Option<RunId>,
    visited: Set<RunId>,
    fuel: nat,
)
    requires
        table.dom().finite(),
        visited.finite(),
        visited.subset_of(table.dom().insert(origin)),
        table.dom().insert(origin).contains(cur_id),
        visited.len() + fuel >= table.dom().insert(origin).len(),
    ensures
        spec_root_walk(table, cur_id, cur_parent, visited, fuel) == spec_root_walk(
            table,
            cur_id,
            cur_parent,
            visited,
            fuel + 1,
        ),
    decreases fuel,
{
    let universe = table.dom().insert(origin);
    if !visited.contains(cur_id) {
        if let Some(p) = cur_parent {
            if table.contains_key(p) {
                let next = visited.insert(cur_id);
                vstd::set_lib::lemma_len_subset(next, universe);
                assert(fuel > 0);
                lemma_root_walk_fuel(table, origin, p, spec_budget_parent(table[p].source), next, (fuel - 1) as nat);
            }
        }
    }
}

/// A budget walk is never cut short by its bound: given one step more than
/// the table has runs, any larger bound reaches the same root, so the root
/// is the first run without a parent, the first parent missing from the
/// table, or the first run that the walk reaches twice.
pub proof fn law_root_walk_is_never_cut_short(
    run_id: RunId,
    parent: Option<RunId>,
    table: Map<RunId, RunRecord>,
    extra: nat,
)
    requires
        table.dom().finite(),
    ensures
        spec_root_of(run_id, parent, table) == spec_root_walk(
            table,
            run_id,
            parent,
            Set::empty(),
            table.dom().len() + 1 + extra,
        ),
    decreases extra,
{
    if extra > 0 {
        law_root_walk_is_never_cut_short(run_id, parent, table, (extra - 1) as nat);
        vstd::set_lib::lemma_len_subset(table.dom(), table.dom().insert(run_id));
        lemma_root_walk_fuel(
            table,
            run_id,
            run_id,
            parent,
            Set::empty(),
            (table.dom().len() + 1 + extra - 1) as nat,
        );
    }
}

/// The budget root of a run.
pub fn root_run_id(run: &RunRecord, table: &RunTable) -> (root: RunId)
    requires
        table.wf(),
    ensures
        root == spec_root_run_id(*run, table@),
{
    root_of(run.id, parent_run_id(run), table)
}

fn root_of(run_id: RunId, parent: Option<RunId>, table: &RunTable) -> (root: RunId)
    requires
        table.wf(),
    ensures
        root == spec_root_of(run_id, parent, table@),
{
    proof { table.lemma_len_is_dom_len(); }
    let mut cur_id = run_id;
    let mut cur_parent = parent;
    let mut visited: Vec<RunId> = Vec::new();
    let mut fuel: u128 = table.len() as u128 + 1;
    let ghost mut fuel_spec: nat = fuel as nat;
    assert(visited@.to_set() =~= Set::<RunId>::empty());
    loop
        invariant
            table.wf(),
            fuel_spec == fuel,
            spec_root_walk(table@, cur_id, cur_parent, visited@.to_set(), fuel_spec)
                == spec_root_of(run_id, parent, table@),
        decreases fuel_spec,
    {
        if vec_contains(&visited, cur_id) {
            return cur_id;
        }
        let parent_id = match cur_parent {
            None => {
                return cur_id;
            },
            Some(p) => p,
        };
        let parent = match table.get(parent_id) {
            None => {
                return parent_id;
            },
            Some(p) => p,
        };
        if fuel == 0 {
            return cur_id;
        }
        proof {
            assert(visited@.push(cur_id).to_set() == visited@.to_set().insert(cur_id));
        }
        visited.push(cur_id);
        cur_id = parent_id;
        cur_parent = parent_run_id(parent);
        fuel = fuel - 1;
        proof {
            fuel_spec = (fuel_spec - 1) as nat;
        }
    }
}

/// Whether `v` holds `x`.
pub fn vec_contains(v: &Vec<RunId>, x: RunId) -> (res: bool)
    ensures
        res == v@.contains(x),
        res == v@.to_set().contains(x),
{
    let mut i: usize = 0;
    while i < v.len()
        invariant
            0 <= i <= v.len(),
            forall|j: int| 0 <= j < i ==> v@[j] != x,
        decreases v.len() - i,
    {
        if v[i] == x {
            assert(v@[i as int] == x);
            return true;
        }
        i = i + 1;
    }
    false
}

/// A set of runs that contains `root` and every run of the table whose
/// budget parent it contains.
pub open spec fn spec_closed_under_children(s: Set<RunId>, root: RunId, table: Map<RunId, RunRecord>) -> bool {
    &&& s.contains(root)
    &&& forall|id: RunId|
        #![trigger table.contains_key(id), s.contains(id)]
        table.contains_key(id) && spec_budget_parent(table[id].source) is Some && s.contains(
            spec_budget_parent(table[id].source)->0,
        ) ==> s.contains(id)
}

/// The runs that share the budget tree under `root`: the least set closed
/// under children that contains `root`.
pub fn aggregate_run_ids(root: RunId, table: &RunTable) -> (ids: Vec<RunId>)
    requires
        table.wf(),
    ensures
        ids@.no_duplicates(),
        spec_closed_under_children(ids@.to_set(), root, table@),
        forall|s: Set<RunId>| spec_closed_under_children(s, root, table@) ==> ids@.to_set().subset_of(s),
{
    let mut ids: Vec<RunId> = Vec::new();
    ids.push(root);
    assert(ids@[0] == root);
    proof {
        assert forall|s: Set<RunId>| spec_closed_under_children(s, root, table@) implies ids@.to_set().subset_of(s) by {
            assert forall|x: RunId| ids@.to_set().contains(x) implies s.contains(x) by {
                assert(ids@.contains(x));
            }
        }
    }
    let n = table.len();
    loop
        invariant
            table.wf(),
            n == table.id_seq().len(),
            ids@.no_duplicates(),
            ids@.contains(root),
            forall|x: RunId| ids@.contains(x) ==> x == root || table@.contains_key(x),
            forall|s: Set<RunId>| spec_closed_under_children(s, root, table@) ==> ids@.to_set().subset_of(s),
        decreases n + 1 - ids.len(),
    {
        proof { lemma_id_count_bound(ids@, root, *table); }
        let before = ids.len();
        let mut i: usize = 0;
        while i < n
            invariant
                table.wf(),
                n == table.id_seq().len(),
                0 <= i <= n,
                before <= ids.len(),
                ids@.no_duplicates(),
                ids@.contains(root),
                forall|x: RunId| ids@.contains(x) ==> x == root || table@.contains_key(x),
                forall|s: Set<RunId>| spec_closed_under_children(s, root, table@) ==> ids@.to_set().subset_of(s),
                ids.len() == before ==> forall|j: int|
                    0 <= j < i ==> {
                        let id = #[trigger] table.id_seq()[j];
                        spec_budget_parent(table@[id].source) is Some && ids@.contains(
                            spec_budget_parent(table@[id].source)->0,
                        ) ==> ids@.contains(id)
                    },
            decreases n - i,
        {
            let id = table.id_at(i);
            assert(table.id_seq().contains(id));
            let rec = table.get(id).unwrap();
            match parent_run_id(rec) {
                Some(parent) => {
                    if vec_contains(&ids, parent) && !vec_contains(&ids, id) {
                        let ghost old_ids = ids@;
                        ids.push(id);
                        proof {
                            assert(ids@ == old_ids.push(id));
                            assert(ids@.contains(root)) by {
                                let w = choose|w: int| 0 <= w < old_ids.len() && old_ids[w] == root;
                                assert(ids@[w] == root);
                            }
                            assert(ids@.to_set() == old_ids.to_set().insert(id));
                            assert forall|s: Set<RunId>| spec_closed_under_children(s, root, table@) implies ids@.to_set().subset_of(s) by {
                                assert(old_ids.to_set().subset_of(s));
                                assert(s.contains(parent));
                                assert(table@.contains_key(id));
                                assert(s.contains(id));
                            }
                            assert forall|x: RunId| ids@.contains(x) implies x == root || table@.contains_key(x) by {
                                if x != id {
                                    assert(old_ids.contains(x));
                                }
                            }
                        }
                    }
                },
                None => {},
            }
            i = i + 1;
        }
        proof { lemma_id_count_bound(ids@, root, *table); }
        if ids.len() == before {
            proof {
                assert forall|id: RunId|
                    #![trigger table@.contains_key(id), ids@.to_set().contains(id)]
                    table@.contains_key(id) && spec_budget_parent(table@[id].source) is Some
                        && ids@.to_set().contains(spec_budget_parent(table@[id].source)->0)
                        implies ids@.to_set().contains(id) by {
                    assert(table.id_seq().contains(id));
                    let j = choose|j: int| 0 <= j < table.id_seq().len() && table.id_seq()[j] == id;
                    assert(table.id_seq()[j] == id);
                }
            }
            return ids;
        }
    }
}

/// The least set closed under children that contains `root`: the runs
/// that belong to every such set.
pub open spec fn spec_aggregate_set(root: RunId, table: Map<RunId, RunRecord>) -> Set<RunId> {
    Set::new(|x: RunId| forall|s: Set<RunId>| #[trigger] spec_closed_under_children(s, root, table) ==> s.contains(x))
}

/// `f` summed over `ids`.
pub open spec fn spec_sum_over(ids: Seq<RunId>, f: spec_fn(RunId) -> int) -> int
    decreases ids.len(),
{
    if ids.len() == 0 {
        0
    } else {
        spec_sum_over(ids.drop_last(), f) + f(ids.last())
    }
}

/// The token total that a run's stream records.
pub open spec fn spec_tokens_of(events: Seq<EventRecord>) -> spec_fn(RunId) -> int {
    |id: RunId| spec_event_usage(events, id).total_tokens as int
}

/// The tool-call count that a run's stream records.
pub open spec fn spec_tool_calls_of(events: Seq<EventRecord>) -> spec_fn(RunId) -> int {
    |id: RunId| spec_event_usage(events, id).tool_calls as int
}

/// Token totals summed over `ids` (without bound).
pub open spec fn spec_token_sum(ids: Seq<RunId>, events: Seq<EventRecord>) -> int {
    spec_sum_over(ids, spec_tokens_of(events))
}

/// Tool-call counts summed over `ids` (without bound).
pub open spec fn spec_tool_call_sum(ids: Seq<RunId>, events: Seq<EventRecord>) -> int {
    spec_sum_over(ids, spec_tool_calls_of(events))
}

/// `x` capped at `u64::MAX`.
pub open spec fn spec_cap(x: int) -> u64 {
    if x > u64::MAX {
        u64::MAX
    } else {
        x as u64
    }
}

/// The usage of a budget tree: tokens and tool calls summed over its runs
/// (capped at `u64::MAX`), and the elapsed time of its root when the root
/// is in the table.
pub open spec fn spec_aggregate_usage(
    root: RunId,
    ids: Seq<RunId>,
    table: Map<RunId, RunRecord>,
    events: Seq<EventRecord>,
    now_ms: u64,
) -> BudgetUsage {
    BudgetUsage {
        total_tokens: spec_cap(spec_token_sum(ids, events)),
        tool_calls: spec_cap(spec_tool_call_sum(ids, events)),
        wall_clock_ms: if table.contains_key(root) {
            spec_elapsed_ms(table[root], now_ms)
        } else {
            0
        },
    }
}

/// The usage of the budget tree listed by `ids` under `root`.
pub fn aggregate_usage(
    root: RunId,
    ids: &Vec<RunId>,
    table: &RunTable,
    events: &Vec<EventRecord>,
    now_ms: u64,
) -> (u: BudgetUsage)
    ensures
        u == spec_aggregate_usage(root, ids@, table@, events@, now_ms),
{
    let mut usage = BudgetUsage::zero();
    let mut i: usize = 0;
    while i < ids.len()
        invariant
            0 <= i <= ids.len(),
            usage.total_tokens == spec_cap(spec_token_sum(ids@.take(i as int), events@)),
            usage.tool_calls == spec_cap(spec_tool_call_sum(ids@.take(i as int), events@)),
            usage.wall_clock_ms == 0,
        decreases ids.len() - i,
    {
        assert(ids@.take((i + 1) as int).drop_last() == ids@.take(i as int));
        let run_usage = usage_from_events(events, ids[i]);
        proof {
            let t = ids@.take((i + 1) as int);
            assert(t.last() == ids@[i as int]);
            assert(spec_token_sum(t, events@) == spec_token_sum(ids@.take(i as int), events@)
                + run_usage.total_tokens);
            assert(spec_tool_call_sum(t, events@) == spec_tool_call_sum(ids@.take(i as int), events@)
                + run_usage.tool_calls);
            lemma_sum_nonneg(ids@.take(i as int), spec_tokens_of(events@));
            lemma_sum_nonneg(ids@.take(i as int), spec_tool_calls_of(events@));
        }
        usage.total_tokens = usage.total_tokens.saturating_add(run_usage.total_tokens);
        usage.tool_calls = usage.tool_calls.saturating_add(run_usage.tool_calls);
        i = i + 1;
    }
    assert(ids@.take(ids.len() as int) == ids@);
    usage.wall_clock_ms = match table.get(root) {
        Some(r) => elapsed_ms(r, now_ms),
        None => 0,
    };
    usage
}

/// A run's usage and the usage of its budget tree.
#[derive(Debug, Clone, Copy, PartialEq, Eq, Structural)]
pub struct BudgetProjection {
    pub run_id: RunId,
    pub parent_run_id: Option<RunId>,
    pub run_usage: BudgetUsage,
    pub aggregate_usage: BudgetUsage,
}

/// Why a budget projection could not be made.
#[derive(Debug, Clone, Copy, PartialEq, Eq, Structural)]
pub enum BudgetLookupError {
    RunNotFound(RunId),
    RunSessionMismatch(RunId),
}

/// The last index of a record with `id`.
pub open spec fn spec_last_index(runs: Seq<RunRecord>, id: RunId) -> Option<int>
    decreases runs.len(),
{
    if runs.len() == 0 {
        None
    } else if runs.last().id == id {
        Some(runs.len() - 1)
    } else {
        spec_last_index(runs.drop_last(), id)
    }
}

proof fn lemma_last_index_bounds(runs: Seq<RunRecord>, id: RunId)
    ensures
        spec_last_index(runs, id) is Some ==> {
            let i = spec_last_index(runs, id)->0;
            0 <= i < runs.len() && runs[i].id == id
        },
    decreases runs.len(),
{
    if runs.len() > 0 {
        lemma_last_index_bounds(runs.drop_last(), id);
    }
}

fn last_index(runs: &Vec<RunRecord>, id: RunId) -> (res: Option<usize>)
    ensures
        match res {
            Some(i) => spec_last_index(runs@, id) == Some(i as int),
            None => spec_last_index(runs@, id) is None,
        },
{
    let mut i: usize = runs.len();
    while i > 0
        invariant
            i <= runs.len(),
            spec_last_index(runs@, id) == spec_last_index(runs@.take(i as int), id),
        decreases i,
    {
        assert(runs@.take(i as int).drop_last() == runs@.take(i - 1));
        if runs[i - 1].id == id {
            return Some(i - 1);
        }
        i = i - 1;
    }
    None
}

/// The budget projection of a run that was found at index `i` of `runs`.
pub open spec fn spec_projection_at(
    session_id: SessionId,
    runs: Seq<RunRecord>,
    i: int,
    events: Seq<EventRecord>,
    now_ms: u64,
) -> BudgetProjection {
    let run = runs[i];
    let table = spec_run_table(session_id, runs);
    let root = spec_root_run_id(run, table);
    BudgetProjection {
        run_id: run.id,
        parent_run_id: spec_budget_parent(run.source),
        run_usage: spec_usage_for_run(run, Some(spec_event_usage(events, run.id)), now_ms),
        aggregate_usage: BudgetUsage {
            total_tokens: spec_cap(spec_set_token_sum(spec_aggregate_set(root, table), events)),
            tool_calls: spec_cap(spec_set_tool_call_sum(spec_aggregate_set(root, table), events)),
            wall_clock_ms: if table.contains_key(root) {
                spec_elapsed_ms(table[root], now_ms)
            } else {
                0
            },
        },
    }
}

/// Some duplicate-free listing of a finite set of runs.
pub open spec fn spec_enumeration(s: Set<RunId>) -> Seq<RunId> {
    choose|ids: Seq<RunId>| ids.no_duplicates() && ids.to_set() == s
}

/// Token totals summed over a finite set of runs (any listing gives the
/// same sum: see [`lemma_sum_permutation`]).
pub open spec fn spec_set_token_sum(s: Set<RunId>, events: Seq<EventRecord>) -> int {
    spec_token_sum(spec_enumeration(s), events)
}

/// Tool-call counts summed over a finite set of runs.
pub open spec fn spec_set_tool_call_sum(s: Set<RunId>, events: Seq<EventRecord>) -> int {
    spec_tool_call_sum(spec_enumeration(s), events)
}

/// The budget projection of a run: its own usage and the usage of the
/// budget tree under its root, over the runs and events of its session.
pub fn budget_projection(
    session_id: SessionId,
    run_id: RunId,
    runs: Vec<RunRecord>,
    events: &Vec<EventRecord>,
    now_ms: u64,
) -> (res: Result<BudgetProjection, BudgetLookupError>)
    ensures
        match spec_last_index(runs@, run_id) {
            None => res == Err::<BudgetProjection, BudgetLookupError>(BudgetLookupError::RunNotFound(run_id)),
            Some(i) => if runs@[i].session_id != session_id {
                res == Err::<BudgetProjection, BudgetLookupError>(BudgetLookupError::RunSessionMismatch(run_id))
            } else {
                res == Ok::<BudgetProjection, BudgetLookupError>(
                    spec_projection_at(session_id, runs@, i, events@, now_ms),
                )
            },
        },
{
    proof { lemma_last_index_bounds(runs@, run_id); }
    let idx = match last_index(&runs, run_id) {
        None => {
            return Err(BudgetLookupError::RunNotFound(run_id));
        },
        Some(i) => i,
    };
    if runs[idx].session_id != session_id {
        return Err(BudgetLookupError::RunSessionMismatch(run_id));
    }
    let ghost all = runs@;
    let parent = parent_run_id(&runs[idx]);
    let event_usage = usage_from_events(events, run_id);
    let run_usage = usage_for_run(&runs[idx], Some(event_usage), now_ms);
    let table = RunTable::from_session_runs(session_id, runs);
    let root = root_of(run_id, parent, &table);
    let ids = aggregate_run_ids(root, &table);
    let aggregate = aggregate_usage(root, &ids, &table, events, now_ms);
    proof {
        assert(run_id == all[idx as int].id);
        assert(table@ == spec_run_table(session_id, all));
        assert(root == spec_root_run_id(all[idx as int], table@));
        assert(run_usage == spec_usage_for_run(all[idx as int], Some(spec_event_usage(events@, run_id)), now_ms));
        lemma_aggregate_ids_enumerate(ids@, root, table@);
    }
    proof {
        let agg = spec_aggregate_set(root, table@);
        assert(ids@.no_duplicates() && ids@.to_set() == agg);
        let e = spec_enumeration(agg);
        assert(e.no_duplicates() && e.to_set() == agg);
        lemma_sums_independent_of_order(ids@, e, events@);
        assert(spec_set_token_sum(agg, events@) == spec_token_sum(ids@, events@));
        assert(spec_set_tool_call_sum(agg, events@) == spec_tool_call_sum(ids@, events@));
        assert(aggregate == spec_projection_at(session_id, all, idx as int, events@, now_ms).aggregate_usage);
        assert(parent == spec_budget_parent(all[idx as int].source));
    }
    Ok(BudgetProjection { run_id, parent_run_id: parent, run_usage, aggregate_usage: aggregate })
}

/// The decision for a projection: the run's own limits first, then the
/// limits of its budget tree.
pub open spec fn spec_budget_decision(policy: BudgetPolicy, projection: BudgetProjection) -> BudgetDecision {
    match spec_decide(policy.per_run, projection.run_usage, BudgetScope::Run) {
        BudgetDecision::WithinBudget => spec_decide(
            policy.parent_aggregate,
            projection.aggregate_usage,
            BudgetScope::ParentAggregate,
        ),
        exceeded => exceeded,
    }
}

/// Judge a projection against a policy (see [`spec_budget_decision`]).
pub fn budget_decision(policy: &BudgetPolicy, projection: &BudgetProjection) -> (d: BudgetDecision)
    ensures
        d == spec_budget_decision(*policy, *projection),
{
    match policy.decide_run(projection.run_usage) {
        BudgetDecision::WithinBudget => policy.decide_parent_aggregate(projection.aggregate_usage),
        exceeded => exceeded,
    }
}

/// The usage behind a breach: the run's own, or its tree's.
#[derive(Debug, Clone, Copy, PartialEq, Eq, Structural)]
pub struct BudgetSnapshot {
    pub run_id: RunId,
    pub parent_run_id: Option<RunId>,
    pub scope: BudgetScope,
    pub total_tokens: u64,
    pub wall_clock_ms: u64,
    pub tool_calls: u64,
}

/// The event recorded when a run breaches its budget.
#[derive(Debug, Clone, Copy, PartialEq, Eq, Structural)]
pub struct BudgetExceededEvent {
    pub run_id: RunId,
    pub parent_run_id: Option<RunId>,
    pub breach: BudgetExceeded,
    pub snapshot: BudgetSnapshot,
}

/// The breach event of a projection.
pub open spec fn spec_budget_exceeded_event(projection: BudgetProjection, exceeded: BudgetExceeded) -> BudgetExceededEvent {
    let usage = match exceeded.scope {
        BudgetScope::Run => projection.run_usage,
        BudgetScope::ParentAggregate => projection.aggregate_usage,
    };
    BudgetExceededEvent {
        run_id: projection.run_id,
        parent_run_id: projection.parent_run_id,
        breach: exceeded,
        snapshot: BudgetSnapshot {
            run_id: projection.run_id,
            parent_run_id: projection.parent_run_id,
            scope: exceeded.scope,
            total_tokens: usage.total_tokens,
            wall_clock_ms: usage.wall_clock_ms,
            tool_calls: usage.tool_calls,
        },
    }
}

/// The breach event of a projection (see [`spec_budget_exceeded_event`]).
pub fn budget_exceeded_event(projection: &BudgetProjection, exceeded: BudgetExceeded) -> (e: BudgetExceededEvent)
    ensures
        e == spec_budget_exceeded_event(*projection, exceeded),
{
    let usage = match exceeded.scope {
        BudgetScope::Run => projection.run_usage,
        BudgetScope::ParentAggregate => projection.aggregate_usage,
    };
    BudgetExceededEvent {
        run_id: projection.run_id,
        parent_run_id: projection.parent_run_id,
        breach: exceeded,
        snapshot: BudgetSnapshot {
            run_id: projection.run_id,
            parent_run_id: projection.parent_run_id,
            scope: exceeded.scope,
            total_tokens: usage.total_tokens,
            wall_clock_ms: usage.wall_clock_ms,
            tool_calls: usage.tool_calls,
        },
    }
}

/// A decision is a breach exactly when some limited metric is strictly over
/// its limit; usage equal to a limit never breaches, and a breach reports
/// the configured limit and the usage that went over it.
pub proof fn law_breach_iff_over_limit(limits: BudgetLimits, usage: BudgetUsage, scope: BudgetScope)
    ensures
        (spec_decide(limits, usage, scope) is WithinBudget) <==> {
            &&& (limits.max_tokens is Some ==> usage.total_tokens <= limits.max_tokens->0)
            &&& (limits.max_wall_clock_ms is Some ==> usage.wall_clock_ms <= limits.max_wall_clock_ms->0)
            &&& (limits.max_tool_calls is Some ==> usage.tool_calls <= limits.max_tool_calls->0)
        },
        spec_decide(limits, usage, scope) matches BudgetDecision::Exceeded(e) ==> {
            &&& e.scope == scope
            &&& e.actual > e.limit
            &&& match e.metric {
                BudgetMetric::Tokens => limits.max_tokens == Some(e.limit) && usage.total_tokens == e.actual,
                BudgetMetric::WallClockMs => limits.max_wall_clock_ms == Some(e.limit)
                    && usage.wall_clock_ms == e.actual,
                BudgetMetric::ToolCalls => limits.max_tool_calls == Some(e.limit) && usage.tool_calls
                    == e.actual,
            }
        },
{
}

/// Unbounded limits never breach.
pub proof fn law_unbounded_never_breaches(usage: BudgetUsage, scope: BudgetScope)
    ensures
        spec_decide(
            BudgetLimits { max_tokens: None, max_wall_clock_ms: None, max_tool_calls: None },
            usage,
            scope,
        ) is WithinBudget,
{
}

/// A run's own breach is reported before any breach of its budget tree,
/// and a tree breach is only reported for a run within its own limits.
pub proof fn law_run_limits_checked_first(policy: BudgetPolicy, projection: BudgetProjection)
    ensures
        spec_decide(policy.per_run, projection.run_usage, BudgetScope::Run) is Exceeded ==> spec_budget_decision(policy, projection)
            == spec_decide(policy.per_run, projection.run_usage, BudgetScope::Run),
        spec_budget_decision(policy, projection) matches BudgetDecision::Exceeded(e) && e.scope
            == BudgetScope::ParentAggregate ==> spec_decide(policy.per_run, projection.run_usage, BudgetScope::Run) is WithinBudget,
{
}

/// A run without a budget parent is its own budget root: user runs,
/// scheduled work and fresh spawns each own a budget tree.
pub proof fn law_parentless_run_is_root(run: RunRecord, table: Map<RunId, RunRecord>)
    requires
        spec_budget_parent(run.source) is None,
    ensures
        spec_root_run_id(run, table) == run.id,
{
}

/// A run whose budget parent is absent from the table reports that parent
/// as its root.
pub proof fn law_missing_parent_is_root(run: RunRecord, table: Map<RunId, RunRecord>)
    requires
        spec_budget_parent(run.source) is Some,
        !table.contains_key(spec_budget_parent(run.source)->0),
    ensures
        spec_root_run_id(run, table) == spec_budget_parent(run.source)->0,
{
}

/// The budget tree holds its root, and every run of the table whose budget
/// parent is in the tree.
pub proof fn law_aggregate_holds_root_and_children(root: RunId, table: Map<RunId, RunRecord>, child: RunId)
    requires
        table.contains_key(child),
        spec_budget_parent(table[child].source) is Some,
        spec_aggregate_set(root, table).contains(spec_budget_parent(table[child].source)->0),
    ensures
        spec_aggregate_set(root, table).contains(root),
        spec_aggregate_set(root, table).contains(child),
{
    assert forall|s: Set<RunId>| #[trigger] spec_closed_under_children(s, root, table) implies s.contains(child) by {
        assert(s.contains(spec_budget_parent(table[child].source)->0));
        assert(table.contains_key(child) && s.contains(child));
    }
}

proof fn lemma_aggregate_ids_enumerate(ids: Seq<RunId>, root: RunId, table: Map<RunId, RunRecord>)
    requires
        ids.no_duplicates(),
        spec_closed_under_children(ids.to_set(), root, table),
        forall|s: Set<RunId>| spec_closed_under_children(s, root, table) ==> ids.to_set().subset_of(s),
    ensures
        ids.to_set() == spec_aggregate_set(root, table),
        exists|e: Seq<RunId>| e.no_duplicates() && e.to_set() == spec_aggregate_set(root, table),
{
    assert(ids.to_set() =~= spec_aggregate_set(root, table));
}

proof fn lemma_sums_independent_of_order(a: Seq<RunId>, b: Seq<RunId>, events: Seq<EventRecord>)
    requires
        a.no_duplicates(),
        b.no_duplicates(),
        a.to_set() == b.to_set(),
    ensures
        spec_token_sum(a, events) == spec_token_sum(b, events),
        spec_tool_call_sum(a, events) == spec_tool_call_sum(b, events),
{
    lemma_sum_permutation(a, b, spec_tokens_of(events));
    lemma_sum_permutation(a, b, spec_tool_calls_of(events));
}

proof fn lemma_sum_nonneg(ids: Seq<RunId>, f: spec_fn(RunId) -> int)
    requires
        forall|x: RunId| #[trigger] f(x) >= 0,
    ensures
        spec_sum_over(ids, f) >= 0,
    decreases ids.len(),
{
    if ids.len() > 0 {
        lemma_sum_nonneg(ids.drop_last(), f);
    }
}

proof fn lemma_sum_remove(b: Seq<RunId>, k: int, f: spec_fn(RunId) -> int)
    requires
        0 <= k < b.len(),
    ensures
        spec_sum_over(b, f) == spec_sum_over(b.remove(k), f) + f(b[k]),
    decreases b.len(),
{
    if k == b.len() - 1 {
        assert(b.remove(k) =~= b.drop_last());
    } else {
        lemma_sum_remove(b.drop_last(), k, f);
        assert(b.remove(k).drop_last() =~= b.drop_last().remove(k));
        assert(b.remove(k).last() == b.last());
    }
}

/// Sums over two duplicate-free enumerations of one set agree.
pub proof fn lemma_sum_permutation(a: Seq<RunId>, b: Seq<RunId>, f: spec_fn(RunId) -> int)
    requires
        a.no_duplicates(),
        b.no_duplicates(),
        a.to_set() == b.to_set(),
    ensures
        spec_sum_over(a, f) == spec_sum_over(b, f),
    decreases a.len(),
{
    if a.len() == 0 {
        if b.len() > 0 {
            assert(b.to_set().contains(b[0]));
        }
    } else {
        let x = a.last();
        assert(a.to_set().contains(x));
        assert(b.to_set().contains(x));
        let k = choose|k: int| 0 <= k < b.len() && b[k] == x;
        lemma_sum_remove(b, k, f);
        let a2 = a.drop_last();
        let b2 = b.remove(k);
        assert forall|y: RunId| a2.to_set().contains(y) <==> b2.to_set().contains(y) by {
            if a2.to_set().contains(y) {
                let i = choose|i: int| 0 <= i < a2.len() && a2[i] == y;
                assert(a[i] == y);
                assert(y != x);
                assert(a.to_set().contains(y));
                let j = choose|j: int| 0 <= j < b.len() && b[j] == y;
                assert(j != k);
                if j < k {
                    assert(b2[j] == y);
                } else {
                    assert(b2[j - 1] == y);
                }
            }
            if b2.to_set().contains(y) {
                let j = choose|j: int| 0 <= j < b2.len() && b2[j] == y;
                if j < k {
                    assert(b[j] == y);
                    assert(j != k);
                } else {
                    assert(b[j + 1] == y);
                }
                assert(y != x);
                assert(b.to_set().contains(y));
                let i = choose|i: int| 0 <= i < a.len() && a[i] == y;
                assert(i != a.len() - 1);
                assert(a2[i] == y);
            }
        }
        assert(a2.to_set() =~= b2.to_set());
        lemma_sum_permutation(a2, b2, f);
    }
}

proof fn lemma_id_count_bound(ids: Seq<RunId>, root: RunId, table: RunTable)
    requires
        table.wf(),
        ids.no_duplicates(),
        forall|x: RunId| ids.contains(x) ==> x == root || table@.contains_key(x),
    ensures
        ids.len() <= table.id_seq().len() + 1,
{
    let universe = table.id_seq().to_set().insert(root);
    ids.unique_seq_to_set();
    table.id_seq().lemma_cardinality_of_set();
    assert forall|x: RunId| ids.to_set().contains(x) implies universe.contains(x) by {
        if x != root {
            assert(table.id_seq().contains(x));
        }
    }
    vstd::set_lib::lemma_len_subset(ids.to_set(), universe);
}

} // verus!
