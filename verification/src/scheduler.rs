//! Per-session admission of runs: a run starts at once when its session is
//! idle (or when it may run beside the active ones), otherwise it waits in a
//! bounded first-in-first-out queue.

use std::collections::BTreeMap;
use std::collections::BTreeSet;
use std::collections::VecDeque;

use vstd::prelude::*;

use crate::events::{EventPayload, EventRecord};
use crate::run::{RunId, RunRecord, RunSource, RunStatus, SessionId, WorkspaceMode};

verus! {

broadcast use {
    vstd::std_specs::btree::group_btree_axioms,
    vstd::std_specs::vecdeque::group_vec_dequeue_axioms,
    vstd::laws_cmp::group_laws_cmp,
};

/// Whether the ordered-collection specifications hold for `u64` keys.
pub open spec fn spec_u64_keys_ordered() -> bool {
    vstd::laws_cmp::obeys_cmp::<u64>()
}

/// Ordered-collection specifications hold for `u64` keys.
pub proof fn lemma_u64_keys_ordered()
    ensures
        spec_u64_keys_ordered(),
{
}

/// The number of runs that may wait in one session's queue.
pub const MAX_QUEUED_RUNS_PER_SESSION: usize = 32;

/// What happened to a run that asked to start.
#[derive(Debug, Clone, Copy, PartialEq, Eq, Structural)]
pub enum RunScheduleDisposition {
    StartNow,
    /// The run waits; `position` is its one-based place in the queue.
    Queued { position: usize },
}

/// Whether a run may start beside runs that are already active.
#[derive(Debug, Clone, Copy, PartialEq, Eq, Structural)]
pub enum RunSchedulingPolicy {
    QueueIfBusy,
    ParallelIfBusy,
}

/// Refusal to admit a run.
#[derive(Debug, Clone, Copy, PartialEq, Eq, Structural)]
pub enum RunSchedulerError {
    /// The session's queue already holds the maximum number of runs.
    QueueFull(SessionId),
}

/// A run waiting for its session to become free.
#[derive(Debug, Clone, Copy, PartialEq, Eq, Structural)]
pub struct QueuedRun {
    pub run_id: RunId,
    pub policy: RunSchedulingPolicy,
}

/// The active set and the waiting queue of one session.
#[derive(Debug)]
pub struct SessionRunSchedule {
    active_run_ids: BTreeSet<RunId>,
    queued_run_ids: VecDeque<QueuedRun>,
}

/// Whether a run with `policy` may start now, given a session's active set
/// and queue: only when nothing waits, and either nothing runs or the run may
/// run in parallel.
pub open spec fn spec_can_start_now(
    active: Set<RunId>,
    queued: Seq<QueuedRun>,
    policy: RunSchedulingPolicy,
) -> bool {
    queued.len() == 0 && (active.is_empty() || policy == RunSchedulingPolicy::ParallelIfBusy)
}

impl SessionRunSchedule {
    /// The runs that hold a slot.
    pub closed spec fn active(&self) -> Set<RunId> {
        self.active_run_ids@
    }

    /// The waiting runs, first in line first.
    pub closed spec fn queued(&self) -> Seq<QueuedRun> {
        self.queued_run_ids@
    }

    fn empty() -> (s: Self)
        ensures
            s.active() == Set::<RunId>::empty(),
            s.queued() == Seq::<QueuedRun>::empty(),
    {
        SessionRunSchedule { active_run_ids: BTreeSet::new(), queued_run_ids: VecDeque::new() }
    }

    /// Whether a run with `policy` may start now.
    pub fn can_start_now(&self, policy: RunSchedulingPolicy) -> (res: bool)
        ensures
            res == spec_can_start_now(self.active(), self.queued(), policy),
    {
        self.queued_run_ids.len() == 0 && (self.active_run_ids.is_empty() || matches!(
            policy,
            RunSchedulingPolicy::ParallelIfBusy
        ))
    }
}

spec fn spec_sessions_active(m: Map<SessionId, SessionRunSchedule>, session_id: SessionId) -> Set<RunId> {
    if m.contains_key(session_id) {
        m[session_id].active()
    } else {
        Set::empty()
    }
}

spec fn spec_sessions_queued(m: Map<SessionId, SessionRunSchedule>, session_id: SessionId) -> Seq<QueuedRun> {
    if m.contains_key(session_id) {
        m[session_id].queued()
    } else {
        Seq::empty()
    }
}

/// The admission state of every session.
#[derive(Debug)]
pub struct RunScheduler {
    sessions: BTreeMap<SessionId, SessionRunSchedule>,
    max_queued_runs_per_session: usize,
}

impl RunScheduler {
    /// The active runs of a session (empty for a session never seen).
    pub closed spec fn active(&self, session_id: SessionId) -> Set<RunId> {
        spec_sessions_active(self.sessions@, session_id)
    }

    /// The queue of a session (empty for a session never seen).
    pub closed spec fn queued(&self, session_id: SessionId) -> Seq<QueuedRun> {
        spec_sessions_queued(self.sessions@, session_id)
    }

    /// The queue bound of every session.
    pub closed spec fn max_queued(&self) -> nat {
        self.max_queued_runs_per_session as nat
    }

    /// Every session idle, with the default queue bound.
    pub fn new() -> (s: Self)
        ensures
            s.max_queued() == MAX_QUEUED_RUNS_PER_SESSION,
            forall|sid: SessionId| s.active(sid).is_empty() && s.queued(sid).len() == 0,
    {
        RunScheduler { sessions: BTreeMap::new(), max_queued_runs_per_session: MAX_QUEUED_RUNS_PER_SESSION }
    }

    fn take_session(&mut self, session_id: SessionId) -> (s: SessionRunSchedule)
        ensures
            s.active() == old(self).active(session_id),
            s.queued() == old(self).queued(session_id),
            !final(self).sessions@.contains_key(session_id),
            final(self).max_queued() == old(self).max_queued(),
            forall|sid: SessionId| sid != session_id ==> {
                &&& #[trigger] final(self).active(sid) == old(self).active(sid)
                &&& final(self).queued(sid) == old(self).queued(sid)
            },
    {
        match self.sessions.remove(&session_id) {
            Some(s) => s,
            None => SessionRunSchedule::empty(),
        }
    }

    fn put_session(&mut self, session_id: SessionId, s: SessionRunSchedule)
        ensures
            final(self).active(session_id) == s.active(),
            final(self).queued(session_id) == s.queued(),
            final(self).max_queued() == old(self).max_queued(),
            forall|sid: SessionId| sid != session_id ==> {
                &&& #[trigger] final(self).active(sid) == old(self).active(sid)
                &&& final(self).queued(sid) == old(self).queued(sid)
            },
    {
        self.sessions.insert(session_id, s);
    }

    /// Ask for a slot with the default policy, which queues behind busy sessions.
    pub fn schedule_start(&mut self, session_id: SessionId, run_id: RunId) -> (res: Result<
        RunScheduleDisposition,
        RunSchedulerError,
    >)
        ensures
            spec_schedule_result(*old(self), *final(self), session_id, run_id, RunSchedulingPolicy::QueueIfBusy, res),
    {
        self.schedule_start_with_policy(session_id, run_id, RunSchedulingPolicy::QueueIfBusy)
    }

    /// Ask for a slot: start now when the session allows it, queue when the
    /// queue has room, refuse otherwise.
    pub fn schedule_start_with_policy(
        &mut self,
        session_id: SessionId,
        run_id: RunId,
        policy: RunSchedulingPolicy,
    ) -> (res: Result<RunScheduleDisposition, RunSchedulerError>)
        ensures
            spec_schedule_result(*old(self), *final(self), session_id, run_id, policy, res),
    {
        let mut schedule = self.take_session(session_id);
        if schedule.can_start_now(policy) {
            proof { lemma_u64_keys_ordered(); }
            schedule.active_run_ids.insert(run_id);
            assert(schedule.active() == old(self).active(session_id).insert(run_id));
            self.put_session(session_id, schedule);
            assert(self.active(session_id) == old(self).active(session_id).insert(run_id));
            assert(self.queued(session_id) == old(self).queued(session_id));
            assert(spec_others_unchanged(*old(self), *self, session_id));
            assert(spec_can_start_now(old(self).active(session_id), old(self).queued(session_id), policy));
            return Ok(RunScheduleDisposition::StartNow);
        }
        if schedule.queued_run_ids.len() >= self.max_queued_runs_per_session {
            self.put_session(session_id, schedule);
            return Err(RunSchedulerError::QueueFull(session_id));
        }
        schedule.queued_run_ids.push_back(QueuedRun { run_id, policy });
        let position = schedule.queued_run_ids.len();
        self.put_session(session_id, schedule);
        Ok(RunScheduleDisposition::Queued { position })
    }

    /// Give up a run's slot or queue place. When the last active run of the
    /// session leaves and a run waits, the first waiting run takes the slot
    /// and is returned.
    pub fn finish_run(&mut self, session_id: SessionId, run_id: RunId) -> (res: Option<RunId>)
        ensures
            spec_finish_result(*old(self), *final(self), session_id, run_id, res),
    {
        if !self.sessions.contains_key(&session_id) {
            return None;
        }
        let mut schedule = self.take_session(session_id);
        let res = schedule.finish(run_id);
        self.put_session(session_id, schedule);
        res
    }
}

impl SessionRunSchedule {
    fn finish(&mut self, run_id: RunId) -> (res: Option<RunId>)
        ensures
            spec_session_finish(old(self).active(), old(self).queued(), run_id, final(self).active(), final(self).queued(), res),
    {
        proof { lemma_u64_keys_ordered(); }
        let ghost active = self.active();
        let ghost queued = self.queued();
        if self.active_run_ids.remove(&run_id) {
            assert(self.active() == active.remove(run_id));
            if self.active_run_ids.is_empty() && self.queued_run_ids.len() > 0 {
                let next = self.queued_run_ids.pop_front().unwrap();
                self.active_run_ids.insert(next.run_id);
                assert(self.active() == Set::<RunId>::empty().insert(queued[0].run_id));
                return Some(next.run_id);
            }
            return None;
        }
        assert(self.active() =~= active);
        let len = self.queued_run_ids.len();
        let mut i: usize = 0;
        while i < len
            invariant
                len == self.queued().len(),
                self.queued() == queued,
                self.active() == active,
                active == old(self).active(),
                queued == old(self).queued(),
                !active.contains(run_id),
                0 <= i <= len,
                forall|j: int| 0 <= j < i ==> (#[trigger] queued[j]).run_id != run_id,
            decreases len - i,
        {
            if self.queued_run_ids[i].run_id == run_id {
                proof {
                    assert(queued[i as int].run_id == run_id);
                    let c = choose|j: int|
                        0 <= j < queued.len() && queued[j].run_id == run_id && forall|k: int|
                            0 <= k < j ==> queued[k].run_id != run_id;
                    assert(0 <= c < queued.len() && queued[c].run_id == run_id && forall|k: int|
                            0 <= k < c ==> queued[k].run_id != run_id);
                    assert(c == i);
                    assert(spec_first_queued_index(queued, run_id) == Some(i as int));
                }
                let removed = self.queued_run_ids.remove(i);
                assert(removed is Some);
                assert(self.queued() == queued.remove(i as int));
                return None;
            }
            i = i + 1;
        }
        assert(spec_first_queued_index(queued, run_id) is None);
        None
    }
}

/// Giving up a slot or queue place within one session.
pub open spec fn spec_session_finish(
    active: Set<RunId>,
    queued: Seq<QueuedRun>,
    run_id: RunId,
    post_active: Set<RunId>,
    post_queued: Seq<QueuedRun>,
    res: Option<RunId>,
) -> bool {
    if active.contains(run_id) {
        if active.remove(run_id).is_empty() && queued.len() > 0 {
            &&& res == Some(queued[0].run_id)
            &&& post_active == Set::<RunId>::empty().insert(queued[0].run_id)
            &&& post_queued == queued.drop_first()
        } else {
            &&& res is None
            &&& post_active == active.remove(run_id)
            &&& post_queued == queued
        }
    } else {
        &&& res is None
        &&& post_active == active
        &&& post_queued == match spec_first_queued_index(queued, run_id) {
            Some(j) => queued.remove(j),
            None => queued,
        }
    }
}

/// The index of the first queued entry for `run_id`, if any.
pub open spec fn spec_first_queued_index(queued: Seq<QueuedRun>, run_id: RunId) -> Option<int> {
    if exists|j: int| 0 <= j < queued.len() && queued[j].run_id == run_id {
        Some(
            choose|j: int|
                0 <= j < queued.len() && queued[j].run_id == run_id && forall|k: int|
                    0 <= k < j ==> queued[k].run_id != run_id,
        )
    } else {
        None
    }
}

/// Every session other than `session_id` is left as it was.
pub open spec fn spec_others_unchanged(pre: RunScheduler, post: RunScheduler, session_id: SessionId) -> bool {
    &&& post.max_queued() == pre.max_queued()
    &&& forall|sid: SessionId| sid != session_id ==> {
        &&& #[trigger] post.active(sid) == pre.active(sid)
        &&& post.queued(sid) == pre.queued(sid)
    }
}

/// The outcome of asking for a slot.
pub open spec fn spec_schedule_result(
    pre: RunScheduler,
    post: RunScheduler,
    session_id: SessionId,
    run_id: RunId,
    policy: RunSchedulingPolicy,
    res: Result<RunScheduleDisposition, RunSchedulerError>,
) -> bool {
    let active = pre.active(session_id);
    let queued = pre.queued(session_id);
    &&& spec_others_unchanged(pre, post, session_id)
    &&& if spec_can_start_now(active, queued, policy) {
        &&& res == Ok::<RunScheduleDisposition, RunSchedulerError>(RunScheduleDisposition::StartNow)
        &&& post.active(session_id) == active.insert(run_id)
        &&& post.queued(session_id) == queued
    } else if queued.len() >= pre.max_queued() {
        &&& res == Err::<RunScheduleDisposition, RunSchedulerError>(RunSchedulerError::QueueFull(session_id))
        &&& post.active(session_id) == active
        &&& post.queued(session_id) == queued
    } else {
        &&& res == Ok::<RunScheduleDisposition, RunSchedulerError>(
            RunScheduleDisposition::Queued { position: (queued.len() + 1) as usize },
        )
        &&& post.active(session_id) == active
        &&& post.queued(session_id) == queued.push(QueuedRun { run_id, policy })
    }
}

/// The scheduler's answer to a start request, as [`spec_schedule_result`]
/// fixes it from the state before the request.
pub open spec fn spec_schedule_outcome(
    pre: RunScheduler,
    session_id: SessionId,
    policy: RunSchedulingPolicy,
) -> Result<RunScheduleDisposition, RunSchedulerError> {
    let active = pre.active(session_id);
    let queued = pre.queued(session_id);
    if spec_can_start_now(active, queued, policy) {
        Ok(RunScheduleDisposition::StartNow)
    } else if queued.len() >= pre.max_queued() {
        Err(RunSchedulerError::QueueFull(session_id))
    } else {
        Ok(RunScheduleDisposition::Queued { position: (queued.len() + 1) as usize })
    }
}

/// What becomes of a published scheduled occurrence's queued run once the
/// scheduler has answered.
#[derive(Debug)]
pub enum PublishedWorkAction {
    /// The queue had no room: cancel the run with this detail.
    Cancel { detail: String },
    /// The session is free: promote the run.
    Promote,
    /// The run waits in the queue.
    Wait,
}

/// The action taken for each scheduler answer.
pub open spec fn spec_published_work_action(
    outcome: Result<RunScheduleDisposition, RunSchedulerError>,
    action: PublishedWorkAction,
) -> bool {
    match outcome {
        Err(_) => action matches PublishedWorkAction::Cancel { detail } && detail@
            == "Scheduled work queue is full"@,
        Ok(RunScheduleDisposition::StartNow) => action is Promote,
        Ok(RunScheduleDisposition::Queued { .. }) => action is Wait,
    }
}

impl RunScheduler {
    /// Enter a published scheduled run into its session's scheduler with the
    /// default policy, and say what to do with it: cancel it when the queue
    /// is full, promote it when it may start now, leave it queued otherwise.
    pub fn schedule_published_work(&mut self, session_id: SessionId, run_id: RunId) -> (action:
        PublishedWorkAction)
        ensures
            spec_schedule_result(
                *old(self),
                *final(self),
                session_id,
                run_id,
                RunSchedulingPolicy::QueueIfBusy,
                spec_schedule_outcome(*old(self), session_id, RunSchedulingPolicy::QueueIfBusy),
            ),
            spec_published_work_action(
                spec_schedule_outcome(*old(self), session_id, RunSchedulingPolicy::QueueIfBusy),
                action,
            ),
    {
        match self.schedule_start(session_id, run_id) {
            Err(_) => PublishedWorkAction::Cancel { detail: String::from_str("Scheduled work queue is full") },
            Ok(RunScheduleDisposition::StartNow) => PublishedWorkAction::Promote,
            Ok(RunScheduleDisposition::Queued { .. }) => PublishedWorkAction::Wait,
        }
    }
}

/// The outcome of giving up a slot or a queue place.
pub open spec fn spec_finish_result(
    pre: RunScheduler,
    post: RunScheduler,
    session_id: SessionId,
    run_id: RunId,
    res: Option<RunId>,
) -> bool {
    &&& spec_others_unchanged(pre, post, session_id)
    &&& spec_session_finish(
        pre.active(session_id),
        pre.queued(session_id),
        run_id,
        post.active(session_id),
        post.queued(session_id),
        res,
    )
}

/// The first queued index, when there is one, is in bounds and names the run.
pub proof fn lemma_first_queued_index_bounds(queued: Seq<QueuedRun>, run_id: RunId)
    ensures
        spec_first_queued_index(queued, run_id) matches Some(j) ==> 0 <= j < queued.len()
            && queued[j].run_id == run_id,
{
    if exists|j: int| 0 <= j < queued.len() && queued[j].run_id == run_id {
        let w = choose|j: int| 0 <= j < queued.len() && queued[j].run_id == run_id;
        lemma_first_exists(queued, run_id, w);
    }
}

proof fn lemma_first_exists(queued: Seq<QueuedRun>, run_id: RunId, w: int)
    requires
        0 <= w < queued.len() && queued[w].run_id == run_id,
    ensures
        exists|j: int|
            0 <= j < queued.len() && queued[j].run_id == run_id && forall|k: int|
                0 <= k < j ==> queued[k].run_id != run_id,
    decreases w,
{
    if exists|k: int| 0 <= k < w && queued[k].run_id == run_id {
        let k = choose|k: int| 0 <= k < w && queued[k].run_id == run_id;
        lemma_first_exists(queued, run_id, k);
    } else {
        assert(forall|k: int| 0 <= k < w ==> queued[k].run_id != run_id);
    }
}

/// Every session's queue within the bound.
pub open spec fn spec_queues_bounded(s: RunScheduler) -> bool {
    forall|sid: SessionId| #[trigger] s.queued(sid).len() <= s.max_queued()
}

/// Admission never lets a queue grow past its bound.
pub proof fn law_schedule_keeps_queues_bounded(
    pre: RunScheduler,
    post: RunScheduler,
    session_id: SessionId,
    run_id: RunId,
    policy: RunSchedulingPolicy,
    res: Result<RunScheduleDisposition, RunSchedulerError>,
)
    requires
        spec_queues_bounded(pre),
        spec_schedule_result(pre, post, session_id, run_id, policy, res),
    ensures
        spec_queues_bounded(post),
{
    assert forall|sid: SessionId| #[trigger] post.queued(sid).len() <= post.max_queued() by {
        if sid != session_id {
            assert(post.active(sid) == pre.active(sid));
            assert(post.queued(sid) == pre.queued(sid));
        }
    }
}

/// Giving up a slot never lets a queue grow.
pub proof fn law_finish_keeps_queues_bounded(
    pre: RunScheduler,
    post: RunScheduler,
    session_id: SessionId,
    run_id: RunId,
    res: Option<RunId>,
)
    requires
        spec_queues_bounded(pre),
        spec_finish_result(pre, post, session_id, run_id, res),
    ensures
        spec_queues_bounded(post),
{
    assert forall|sid: SessionId| #[trigger] post.queued(sid).len() <= post.max_queued() by {
        if sid != session_id {
            assert(post.active(sid) == pre.active(sid));
            assert(post.queued(sid) == pre.queued(sid));
        } else {
            lemma_first_queued_index_bounds(pre.queued(session_id), run_id);
        }
    }
}

/// A run that queues behind busy sessions starts at once only in a session
/// with no active and no waiting run; otherwise it waits at the end of the
/// queue, or is refused when the queue is full.
pub proof fn law_queue_if_busy_starts_only_when_idle(
    pre: RunScheduler,
    post: RunScheduler,
    session_id: SessionId,
    run_id: RunId,
    res: Result<RunScheduleDisposition, RunSchedulerError>,
)
    requires
        spec_schedule_result(pre, post, session_id, run_id, RunSchedulingPolicy::QueueIfBusy, res),
    ensures
        res == Ok::<RunScheduleDisposition, RunSchedulerError>(RunScheduleDisposition::StartNow) <==> (
        pre.active(session_id).is_empty() && pre.queued(session_id).len() == 0),
        res matches Ok(RunScheduleDisposition::Queued { position }) ==> post.queued(session_id)[position - 1]
            == (QueuedRun { run_id, policy: RunSchedulingPolicy::QueueIfBusy }),
{
}

/// Waiting runs are served first in, first out: when a slot frees up, the
/// run at the head of the queue is the one promoted, it becomes the only
/// active run, and the rest of the queue keeps its order.
pub proof fn law_finish_promotes_head_of_queue(
    pre: RunScheduler,
    post: RunScheduler,
    session_id: SessionId,
    run_id: RunId,
    promoted: RunId,
)
    requires
        spec_finish_result(pre, post, session_id, run_id, Some(promoted)),
    ensures
        pre.queued(session_id).len() > 0,
        promoted == pre.queued(session_id)[0].run_id,
        post.active(session_id) == Set::<RunId>::empty().insert(promoted),
        post.queued(session_id) == pre.queued(session_id).drop_first(),
{
}

/// Starting a run in an idle session and then finishing it leaves the
/// session idle again.
pub proof fn law_start_then_finish_restores_idle(
    s0: RunScheduler,
    s1: RunScheduler,
    s2: RunScheduler,
    session_id: SessionId,
    run_id: RunId,
    policy: RunSchedulingPolicy,
    r1: Result<RunScheduleDisposition, RunSchedulerError>,
    r2: Option<RunId>,
)
    requires
        s0.active(session_id).is_empty(),
        s0.queued(session_id).len() == 0,
        spec_schedule_result(s0, s1, session_id, run_id, policy, r1),
        spec_finish_result(s1, s2, session_id, run_id, r2),
    ensures
        r1 == Ok::<RunScheduleDisposition, RunSchedulerError>(RunScheduleDisposition::StartNow),
        r2 is None,
        s2.active(session_id).is_empty(),
        s2.queued(session_id).len() == 0,
{
    assert(s1.active(session_id) =~= Set::<RunId>::empty().insert(run_id));
    assert(s1.active(session_id).remove(run_id) =~= Set::<RunId>::empty());
}


/// The policy under which a stored run competes for its session's slot:
/// scheduled work waits behind busy sessions, fresh spawns and native
/// subagents that write in their own worktree run beside others, and every
/// other run waits.
pub open spec fn spec_scheduling_policy(source: RunSource) -> RunSchedulingPolicy {
    match source {
        RunSource::ScheduledWork { .. } => RunSchedulingPolicy::QueueIfBusy,
        RunSource::FreshSpawn { .. } => RunSchedulingPolicy::ParallelIfBusy,
        RunSource::NativeSubagent { workspace_scope, .. } => if workspace_scope == WorkspaceMode::WorktreeWrite {
            RunSchedulingPolicy::ParallelIfBusy
        } else {
            RunSchedulingPolicy::QueueIfBusy
        },
        _ => RunSchedulingPolicy::QueueIfBusy,
    }
}

/// The policy under which a stored run competes for its session's slot.
pub fn scheduling_policy_for_run(run: &RunRecord) -> (p: RunSchedulingPolicy)
    ensures
        p == spec_scheduling_policy(run.source),
{
    match &run.source {
        RunSource::ScheduledWork { .. } => RunSchedulingPolicy::QueueIfBusy,
        RunSource::FreshSpawn { .. } => RunSchedulingPolicy::ParallelIfBusy,
        RunSource::NativeSubagent { workspace_scope, .. } => match workspace_scope {
            WorkspaceMode::WorktreeWrite => RunSchedulingPolicy::ParallelIfBusy,
            _ => RunSchedulingPolicy::QueueIfBusy,
        },
        _ => RunSchedulingPolicy::QueueIfBusy,
    }
}

/// For each run with a status event in the log, the sequence number of its
/// first status event.
pub open spec fn spec_first_run_sequences(events: Seq<EventRecord>) -> Map<RunId, u64>
    decreases events.len(),
{
    if events.len() == 0 {
        Map::empty()
    } else {
        let m = spec_first_run_sequences(events.drop_last());
        match events.last().payload {
            EventPayload::Run { run_id, .. } => if m.contains_key(run_id) {
                m
            } else {
                m.insert(run_id, events.last().sequence)
            },
            _ => m,
        }
    }
}

/// The sequence number of each run's first status event.
pub fn first_run_event_sequence(events: &Vec<EventRecord>) -> (m: BTreeMap<RunId, u64>)
    ensures
        m@ == spec_first_run_sequences(events@),
{
    proof { lemma_u64_keys_ordered(); }
    let mut m: BTreeMap<RunId, u64> = BTreeMap::new();
    let mut i: usize = 0;
    while i < events.len()
        invariant
            0 <= i <= events.len(),
            spec_u64_keys_ordered(),
            m@ == spec_first_run_sequences(events@.take(i as int)),
        decreases events.len() - i,
    {
        assert(events@.take((i + 1) as int).drop_last() == events@.take(i as int));
        let record = events[i];
        match record.payload {
            EventPayload::Run { run_id, .. } => {
                if !m.contains_key(&run_id) {
                    m.insert(run_id, record.sequence);
                }
            },
            _ => {},
        }
        i = i + 1;
    }
    assert(events@.take(events.len() as int) == events@);
    m
}

/// An open stored run as boot-time rehydration orders and admits it.
#[derive(Debug, Clone, Copy, PartialEq, Eq, Structural)]
pub struct RehydrateEntry {
    pub run_id: RunId,
    /// The run was waiting in the queue (rather than running or waiting for
    /// an approval).
    pub queued: bool,
    pub policy: RunSchedulingPolicy,
    /// The sequence of the run's first status event, or `u64::MAX` when the
    /// log has none.
    pub first_seq: u64,
}

/// The entry of a stored run.
pub open spec fn spec_entry(first: Map<RunId, u64>, run: RunRecord) -> RehydrateEntry {
    RehydrateEntry {
        run_id: run.id,
        queued: run.status == RunStatus::Queued,
        policy: spec_scheduling_policy(run.source),
        first_seq: if first.contains_key(run.id) {
            first[run.id]
        } else {
            u64::MAX
        },
    }
}

/// The entries of a session's open runs, in stored order.
pub open spec fn spec_session_entries(
    runs: Seq<RunRecord>,
    first: Map<RunId, u64>,
    session_id: SessionId,
) -> Seq<RehydrateEntry>
    decreases runs.len(),
{
    if runs.len() == 0 {
        Seq::empty()
    } else {
        let prev = spec_session_entries(runs.drop_last(), first, session_id);
        if runs.last().status.spec_is_open() && runs.last().session_id == session_id {
            prev.push(spec_entry(first, runs.last()))
        } else {
            prev
        }
    }
}

/// The sessions that have an open run.
pub open spec fn spec_open_sessions(runs: Seq<RunRecord>) -> Set<SessionId>
    decreases runs.len(),
{
    if runs.len() == 0 {
        Set::empty()
    } else {
        let prev = spec_open_sessions(runs.drop_last());
        if runs.last().status.spec_is_open() {
            prev.insert(runs.last().session_id)
        } else {
            prev
        }
    }
}

/// The order of rehydration: by first status event, then by run id.
pub open spec fn spec_key_le(a: RehydrateEntry, b: RehydrateEntry) -> bool {
    a.first_seq < b.first_seq || (a.first_seq == b.first_seq && a.run_id <= b.run_id)
}

/// Insert an entry into an ordered list after every entry that does not
/// come after it.
pub open spec fn spec_insert_entry(s: Seq<RehydrateEntry>, e: RehydrateEntry) -> Seq<RehydrateEntry>
    decreases s.len(),
{
    if s.len() == 0 {
        seq![e]
    } else if spec_key_le(s.last(), e) {
        s.push(e)
    } else {
        spec_insert_entry(s.drop_last(), e).push(s.last())
    }
}

/// The stable sort of entries by [`spec_key_le`].
pub open spec fn spec_sort_entries(s: Seq<RehydrateEntry>) -> Seq<RehydrateEntry>
    decreases s.len(),
{
    if s.len() == 0 {
        Seq::empty()
    } else {
        spec_insert_entry(spec_sort_entries(s.drop_last()), s.last())
    }
}

/// Admit ordered entries one by one into an empty session: queued runs
/// queue; running and waiting runs keep their slot when the session admits
/// them, and are demoted to the queue otherwise. The result is the active
/// set, the queue and the demoted runs.
pub open spec fn spec_rehydrate_fold(s: Seq<RehydrateEntry>) -> (Set<RunId>, Seq<QueuedRun>, Seq<RunId>)
    decreases s.len(),
{
    if s.len() == 0 {
        (Set::empty(), Seq::empty(), Seq::empty())
    } else {
        let (a, q, d) = spec_rehydrate_fold(s.drop_last());
        let e = s.last();
        if e.queued {
            (a, q.push(QueuedRun { run_id: e.run_id, policy: e.policy }), d)
        } else if spec_can_start_now(a, q, e.policy) {
            (a.insert(e.run_id), q, d)
        } else {
            (a, q.push(QueuedRun { run_id: e.run_id, policy: e.policy }), d.push(e.run_id))
        }
    }
}

/// A session's rehydration: the fold of its ordered entries, after which a
/// session with nothing active promotes the head of its queue. The result
/// is the active set, the queue, the demoted runs and the promoted run.
pub open spec fn spec_session_rehydrate(s: Seq<RehydrateEntry>) -> (Set<RunId>, Seq<QueuedRun>, Seq<RunId>, Option<RunId>) {
    let (a, q, d) = spec_rehydrate_fold(s);
    if a.is_empty() && q.len() > 0 {
        (Set::empty().insert(q[0].run_id), q.drop_first(), d, Some(q[0].run_id))
    } else {
        (a, q, d, None)
    }
}

/// The rehydration of one session from the stored runs and the event log.
pub open spec fn spec_session_plan(
    runs: Seq<RunRecord>,
    events: Seq<EventRecord>,
    session_id: SessionId,
) -> (Set<RunId>, Seq<QueuedRun>, Seq<RunId>, Option<RunId>) {
    spec_session_rehydrate(
        spec_sort_entries(spec_session_entries(runs, spec_first_run_sequences(events), session_id)),
    )
}

/// Runs paired with their session.
pub open spec fn spec_pairs(session_id: SessionId, ids: Seq<RunId>) -> Seq<(SessionId, RunId)> {
    ids.map_values(|r: RunId| (session_id, r))
}

/// The demotions of the sessions in `sids`, session by session.
pub open spec fn spec_all_demotes(
    runs: Seq<RunRecord>,
    events: Seq<EventRecord>,
    sids: Seq<SessionId>,
) -> Seq<(SessionId, RunId)>
    decreases sids.len(),
{
    if sids.len() == 0 {
        Seq::empty()
    } else {
        spec_all_demotes(runs, events, sids.drop_last()) + spec_pairs(
            sids.last(),
            spec_session_plan(runs, events, sids.last()).2,
        )
    }
}

/// The promotions of the sessions in `sids`, session by session.
pub open spec fn spec_all_promotes(
    runs: Seq<RunRecord>,
    events: Seq<EventRecord>,
    sids: Seq<SessionId>,
) -> Seq<(SessionId, RunId)>
    decreases sids.len(),
{
    if sids.len() == 0 {
        Seq::empty()
    } else {
        let prev = spec_all_promotes(runs, events, sids.drop_last());
        match spec_session_plan(runs, events, sids.last()).3 {
            Some(r) => prev.push((sids.last(), r)),
            None => prev,
        }
    }
}

/// Whether `s` is strictly ascending.
pub open spec fn spec_strictly_ascending(s: Seq<SessionId>) -> bool {
    forall|i: int, j: int| 0 <= i < j < s.len() ==> s[i] < s[j]
}

/// What boot-time rehydration changed: the running or waiting runs that
/// lost their slot, and the queued runs that took a free one.
#[derive(Debug)]
pub struct SchedulerRehydratePlan {
    pub demote_to_queued: Vec<(SessionId, RunId)>,
    pub promote_from_queue: Vec<(SessionId, RunId)>,
}

proof fn lemma_insert_entry_at(s: Seq<RehydrateEntry>, e: RehydrateEntry, j: int)
    requires
        0 <= j <= s.len(),
        forall|k: int| j <= k < s.len() ==> !spec_key_le(#[trigger] s[k], e),
        j == 0 || spec_key_le(s[j - 1], e),
    ensures
        spec_insert_entry(s, e) == s.take(j).push(e) + s.skip(j),
    decreases s.len(),
{
    if s.len() == 0 {
        assert(s.take(j).push(e) + s.skip(j) =~= seq![e]);
    } else if spec_key_le(s.last(), e) {
        if j < s.len() {
            assert(!spec_key_le(s[s.len() - 1], e));
        }
        assert(s.take(j).push(e) + s.skip(j) =~= s.push(e));
    } else {
        let dl = s.drop_last();
        assert(!spec_key_le(s[s.len() - 1], e));
        lemma_insert_entry_at(dl, e, j);
        assert((dl.take(j).push(e) + dl.skip(j)).push(s.last()) =~= s.take(j).push(e) + s.skip(j));
    }
}

fn key_le(a: RehydrateEntry, b: RehydrateEntry) -> (r: bool)
    ensures
        r == spec_key_le(a, b),
{
    a.first_seq < b.first_seq || (a.first_seq == b.first_seq && a.run_id <= b.run_id)
}

fn insert_entry(v: &mut Vec<RehydrateEntry>, e: RehydrateEntry)
    ensures
        final(v)@ == spec_insert_entry(old(v)@, e),
{
    let mut j: usize = v.len();
    while j > 0 && !key_le(v[j - 1], e)
        invariant
            0 <= j <= v.len(),
            v@ == old(v)@,
            forall|k: int| j <= k < v.len() ==> !spec_key_le(#[trigger] v@[k], e),
        decreases j,
    {
        j = j - 1;
    }
    proof { lemma_insert_entry_at(v@, e, j as int); }
    let ghost before = v@;
    v.insert(j, e);
    assert(v@ =~= before.take(j as int).push(e) + before.skip(j as int));
}

fn sort_entries(entries: &Vec<RehydrateEntry>) -> (sorted: Vec<RehydrateEntry>)
    ensures
        sorted@ == spec_sort_entries(entries@),
{
    let mut sorted: Vec<RehydrateEntry> = Vec::new();
    let mut i: usize = 0;
    while i < entries.len()
        invariant
            0 <= i <= entries.len(),
            sorted@ == spec_sort_entries(entries@.take(i as int)),
        decreases entries.len() - i,
    {
        assert(entries@.take((i + 1) as int).drop_last() == entries@.take(i as int));
        insert_entry(&mut sorted, entries[i]);
        i = i + 1;
    }
    assert(entries@.take(entries.len() as int) == entries@);
    sorted
}

fn session_entries(runs: &Vec<RunRecord>, first: &BTreeMap<RunId, u64>, session_id: SessionId) -> (entries: Vec<
    RehydrateEntry,
>)
    requires
        spec_u64_keys_ordered(),
    ensures
        entries@ == spec_session_entries(runs@, first@, session_id),
{
    let mut entries: Vec<RehydrateEntry> = Vec::new();
    let mut i: usize = 0;
    while i < runs.len()
        invariant
            0 <= i <= runs.len(),
            spec_u64_keys_ordered(),
            entries@ == spec_session_entries(runs@.take(i as int), first@, session_id),
        decreases runs.len() - i,
    {
        assert(runs@.take((i + 1) as int).drop_last() == runs@.take(i as int));
        let run = &runs[i];
        if run.status.is_open() && run.session_id == session_id {
            let first_seq = match first.get(&run.id) {
                Some(s) => *s,
                None => u64::MAX,
            };
            let e = RehydrateEntry {
                run_id: run.id,
                queued: run.status == RunStatus::Queued,
                policy: scheduling_policy_for_run(run),
                first_seq,
            };
            entries.push(e);
        }
        i = i + 1;
    }
    assert(runs@.take(runs.len() as int) == runs@);
    entries
}

fn rehydrate_session(sorted: &Vec<RehydrateEntry>) -> (res: (SessionRunSchedule, Vec<RunId>, Option<RunId>))
    ensures
        res.0.active() == spec_session_rehydrate(sorted@).0,
        res.0.queued() == spec_session_rehydrate(sorted@).1,
        res.1@ == spec_session_rehydrate(sorted@).2,
        res.2 == spec_session_rehydrate(sorted@).3,
{
    proof { lemma_u64_keys_ordered(); }
    let mut schedule = SessionRunSchedule::empty();
    let mut demoted: Vec<RunId> = Vec::new();
    let mut i: usize = 0;
    while i < sorted.len()
        invariant
            0 <= i <= sorted.len(),
            spec_u64_keys_ordered(),
            schedule.active() == spec_rehydrate_fold(sorted@.take(i as int)).0,
            schedule.queued() == spec_rehydrate_fold(sorted@.take(i as int)).1,
            demoted@ == spec_rehydrate_fold(sorted@.take(i as int)).2,
        decreases sorted.len() - i,
    {
        assert(sorted@.take((i + 1) as int).drop_last() == sorted@.take(i as int));
        let e = sorted[i];
        if e.queued {
            schedule.queued_run_ids.push_back(QueuedRun { run_id: e.run_id, policy: e.policy });
        } else if schedule.can_start_now(e.policy) {
            schedule.active_run_ids.insert(e.run_id);
        } else {
            schedule.queued_run_ids.push_back(QueuedRun { run_id: e.run_id, policy: e.policy });
            demoted.push(e.run_id);
        }
        i = i + 1;
    }
    assert(sorted@.take(sorted.len() as int) == sorted@);
    if schedule.active_run_ids.is_empty() && schedule.queued_run_ids.len() > 0 {
        let ghost q = schedule.queued();
        let next = schedule.queued_run_ids.pop_front().unwrap();
        schedule.active_run_ids.insert(next.run_id);
        assert(schedule.active() =~= Set::<RunId>::empty().insert(q[0].run_id));
        return (schedule, demoted, Some(next.run_id));
    }
    (schedule, demoted, None)
}

fn insert_session_sorted(v: &mut Vec<SessionId>, x: SessionId)
    requires
        spec_strictly_ascending(old(v)@),
    ensures
        spec_strictly_ascending(final(v)@),
        final(v)@.to_set() == old(v)@.to_set().insert(x),
{
    let mut i: usize = 0;
    while i < v.len() && v[i] < x
        invariant
            0 <= i <= v.len(),
            v@ == old(v)@,
            spec_strictly_ascending(v@),
            forall|k: int| 0 <= k < i ==> v@[k] < x,
        decreases v.len() - i,
    {
        i = i + 1;
    }
    if i < v.len() && v[i] == x {
        assert(v@.to_set().insert(x) =~= v@.to_set()) by {
            assert(v@.contains(x)) by { assert(v@[i as int] == x); }
        }
        return;
    }
    let ghost before = v@;
    v.insert(i, x);
    proof {
        assert(v@ == before.insert(i as int, x));
        before.insert_ensures(i as int, x);
        assert forall|a: int, b: int| 0 <= a < b < v@.len() implies v@[a] < v@[b] by {
            if b < i {
            } else if a < i && b == i {
            } else if a < i {
                assert(before[a] < before[b - 1]);
            } else if a == i {
                assert(before[b - 1] >= before[i as int] || b - 1 == i);
                if b - 1 > i {
                    assert(before[i as int] < before[b - 1]);
                }
                assert(before[i as int] > x || i == before.len());
            } else {
                assert(before[a - 1] < before[b - 1]);
            }
        }
        assert forall|y: SessionId| v@.to_set().contains(y) <==> before.to_set().insert(x).contains(y) by {
            if v@.contains(y) {
                let k = choose|k: int| 0 <= k < v@.len() && v@[k] == y;
                if k < i {
                    assert(before[k] == y);
                } else if k > i {
                    assert(before[k - 1] == y);
                }
            }
            if before.contains(y) {
                let k = choose|k: int| 0 <= k < before.len() && before[k] == y;
                if k < i {
                    assert(v@[k] == y);
                } else {
                    assert(v@[k + 1] == y);
                }
            }
            if y == x {
                assert(v@[i as int] == x);
            }
        }
        assert(v@.to_set() =~= before.to_set().insert(x));
    }
}

fn open_sessions(runs: &Vec<RunRecord>) -> (sids: Vec<SessionId>)
    ensures
        spec_strictly_ascending(sids@),
        sids@.to_set() == spec_open_sessions(runs@),
{
    let mut sids: Vec<SessionId> = Vec::new();
    let mut i: usize = 0;
    while i < runs.len()
        invariant
            0 <= i <= runs.len(),
            spec_strictly_ascending(sids@),
            sids@.to_set() == spec_open_sessions(runs@.take(i as int)),
        decreases runs.len() - i,
    {
        assert(runs@.take((i + 1) as int).drop_last() == runs@.take(i as int));
        if runs[i].status.is_open() {
            insert_session_sorted(&mut sids, runs[i].session_id);
        }
        i = i + 1;
    }
    assert(runs@.take(runs.len() as int) == runs@);
    proof {
        if sids@.len() == 0 {
            assert(sids@.to_set() =~= Set::<SessionId>::empty());
        }
    }
    sids
}

proof fn lemma_closed_session_has_no_entries(runs: Seq<RunRecord>, first: Map<RunId, u64>, session_id: SessionId)
    requires
        !spec_open_sessions(runs).contains(session_id),
    ensures
        spec_session_entries(runs, first, session_id).len() == 0,
    decreases runs.len(),
{
    if runs.len() > 0 {
        lemma_closed_session_has_no_entries(runs.drop_last(), first, session_id);
    }
}

fn append_pairs(out: &mut Vec<(SessionId, RunId)>, session_id: SessionId, ids: &Vec<RunId>)
    ensures
        final(out)@ == old(out)@ + spec_pairs(session_id, ids@),
{
    let mut i: usize = 0;
    while i < ids.len()
        invariant
            0 <= i <= ids.len(),
            out@ == old(out)@ + spec_pairs(session_id, ids@.take(i as int)),
        decreases ids.len() - i,
    {
        out.push((session_id, ids[i]));
        i = i + 1;
        assert(old(out)@ + spec_pairs(session_id, ids@.take(i as int)) =~= (old(out)@ + spec_pairs(
            session_id,
            ids@.take(i - 1 as int),
        )).push((session_id, ids@[i - 1 as int])));
    }
    assert(ids@.take(ids.len() as int) == ids@);
}

impl RunScheduler {
    /// Rebuild every session's slots and queues from the stored runs and the
    /// event log after a restart. Each session's open runs are ordered by
    /// their first status event (runs without one last), then by id, and
    /// admitted one by one; a session left with nothing active promotes the
    /// head of its queue. The plan lists, session by session in ascending
    /// order, the runs that lost their slot and the runs that took one.
    #[verifier::spinoff_prover]
    #[verifier::rlimit(30)]
    pub fn rehydrate_from_store(&mut self, runs: &Vec<RunRecord>, events: &Vec<EventRecord>) -> (plan:
        SchedulerRehydratePlan)
        ensures
            final(self).max_queued() == old(self).max_queued(),
            forall|sid: SessionId|
                #![trigger final(self).active(sid)]
                #![trigger final(self).queued(sid)]
                {
                    &&& final(self).active(sid) == spec_session_plan(runs@, events@, sid).0
                    &&& final(self).queued(sid) == spec_session_plan(runs@, events@, sid).1
                },
            exists|sids: Seq<SessionId>|
                {
                    &&& spec_strictly_ascending(sids)
                    &&& sids.to_set() == spec_open_sessions(runs@)
                    &&& plan.demote_to_queued@ == spec_all_demotes(runs@, events@, sids)
                    &&& plan.promote_from_queue@ == spec_all_promotes(runs@, events@, sids)
                },
    {
        proof { lemma_u64_keys_ordered(); }
        let first = first_run_event_sequence(events);
        let sids = open_sessions(runs);
        let mut next_state: BTreeMap<SessionId, SessionRunSchedule> = BTreeMap::new();
        let mut demote_to_queued: Vec<(SessionId, RunId)> = Vec::new();
        let mut promote_from_queue: Vec<(SessionId, RunId)> = Vec::new();
        let mut k: usize = 0;
        while k < sids.len()
            invariant
                0 <= k <= sids.len(),
                spec_u64_keys_ordered(),
                first@ == spec_first_run_sequences(events@),
                spec_strictly_ascending(sids@),
                forall|sid: SessionId| #[trigger]
                    next_state@.contains_key(sid) ==> sids@.take(k as int).contains(sid),
                forall|sid: SessionId|
                    #![trigger spec_sessions_active(next_state@, sid)]
                    #![trigger spec_sessions_queued(next_state@, sid)]
                    {
                        &&& spec_sessions_active(next_state@, sid) == (if sids@.take(k as int).contains(sid) {
                            spec_session_plan(runs@, events@, sid).0
                        } else {
                            Set::empty()
                        })
                        &&& spec_sessions_queued(next_state@, sid) == (if sids@.take(k as int).contains(sid) {
                            spec_session_plan(runs@, events@, sid).1
                        } else {
                            Seq::empty()
                        })
                    },
                demote_to_queued@ == spec_all_demotes(runs@, events@, sids@.take(k as int)),
                promote_from_queue@ == spec_all_promotes(runs@, events@, sids@.take(k as int)),
            decreases sids.len() - k,
        {
            let sid = sids[k];
            let ghost taken = sids@.take(k as int);
            let ghost next = sids@.take((k + 1) as int);
            assert(next == taken.push(sid));
            assert(next.drop_last() == taken);
            assert(!taken.contains(sid)) by {
                if taken.contains(sid) {
                    let j = choose|j: int| 0 <= j < taken.len() && taken[j] == sid;
                    assert(sids@[j] < sids@[k as int]);
                }
            }
            let entries = session_entries(runs, &first, sid);
            let sorted = sort_entries(&entries);
            let (schedule, demoted, promoted) = rehydrate_session(&sorted);
            append_pairs(&mut demote_to_queued, sid, &demoted);
            match promoted {
                Some(r) => {
                    promote_from_queue.push((sid, r));
                },
                None => {},
            }
            let ghost pre_state = next_state@;
            if !schedule.active_run_ids.is_empty() || schedule.queued_run_ids.len() > 0 {
                next_state.insert(sid, schedule);
            } else {
                assert(schedule.active() =~= Set::<RunId>::empty());
                assert(schedule.queued() =~= Seq::<QueuedRun>::empty());
            }
            proof {
                assert forall|s2: SessionId| #[trigger] next_state@.contains_key(s2) implies next.contains(s2) by {
                    if s2 != sid {
                        assert(pre_state.contains_key(s2));
                        assert(taken.contains(s2));
                        let j = choose|j: int| 0 <= j < taken.len() && taken[j] == s2;
                        assert(next[j] == s2);
                    } else {
                        assert(next[k as int] == sid);
                    }
                }
                assert forall|s2: SessionId|
                    #![trigger spec_sessions_active(next_state@, s2)]
                    #![trigger spec_sessions_queued(next_state@, s2)]
                    next.contains(s2) <==> (taken.contains(s2) || s2 == sid) by {
                    if next.contains(s2) {
                        let j = choose|j: int| 0 <= j < next.len() && next[j] == s2;
                        if j < k {
                            assert(taken[j] == s2);
                        }
                    }
                    if taken.contains(s2) {
                        let j = choose|j: int| 0 <= j < taken.len() && taken[j] == s2;
                        assert(next[j] == s2);
                    }
                    if s2 == sid {
                        assert(next[k as int] == sid);
                    }
                }
                assert(spec_sessions_active(next_state@, sid) == spec_session_plan(runs@, events@, sid).0);
                assert(spec_sessions_queued(next_state@, sid) == spec_session_plan(runs@, events@, sid).1);
                assert forall|s2: SessionId| s2 != sid implies {
                    &&& #[trigger] spec_sessions_active(next_state@, s2) == spec_sessions_active(pre_state, s2)
                    &&& spec_sessions_queued(next_state@, s2) == spec_sessions_queued(pre_state, s2)
                } by {
                    if next_state@.contains_key(s2) {
                        assert(pre_state.contains_key(s2));
                    }
                    if pre_state.contains_key(s2) {
                        assert(next_state@.contains_key(s2));
                    }
                }
                assert forall|s2: SessionId|
                    #![trigger spec_sessions_active(next_state@, s2)]
                    #![trigger spec_sessions_queued(next_state@, s2)]
                    {
                        &&& spec_sessions_active(next_state@, s2) == (if next.contains(s2) {
                            spec_session_plan(runs@, events@, s2).0
                        } else {
                            Set::empty()
                        })
                        &&& spec_sessions_queued(next_state@, s2) == (if next.contains(s2) {
                            spec_session_plan(runs@, events@, s2).1
                        } else {
                            Seq::empty()
                        })
                    } by {
                    if s2 != sid {
                        assert(spec_sessions_active(next_state@, s2) == spec_sessions_active(pre_state, s2));
                        assert(spec_sessions_queued(next_state@, s2) == spec_sessions_queued(pre_state, s2));
                        assert(next.contains(s2) == taken.contains(s2));
                    } else {
                        assert(next.contains(sid));
                    }
                }
            }
            k = k + 1;
        }
        assert(sids@.take(sids.len() as int) == sids@);
        proof {
            assert forall|sid: SessionId| !sids@.contains(sid) implies spec_session_plan(runs@, events@, sid).0
                == Set::<RunId>::empty() && spec_session_plan(runs@, events@, sid).1 == Seq::<QueuedRun>::empty() by {
                assert(!sids@.to_set().contains(sid));
                lemma_closed_session_has_no_entries(runs@, first@, sid);
                let e = spec_session_entries(runs@, first@, sid);
                assert(e =~= Seq::<RehydrateEntry>::empty());
                assert(spec_sort_entries(e) =~= Seq::<RehydrateEntry>::empty());
            }
        }
        self.sessions = next_state;
        SchedulerRehydratePlan { demote_to_queued, promote_from_queue }
    }
}


/// After rehydration no session sits idle while runs wait in its queue.
pub proof fn law_rehydrate_leaves_no_idle_queue(runs: Seq<RunRecord>, events: Seq<EventRecord>, session_id: SessionId)
    ensures
        spec_session_plan(runs, events, session_id).1.len() > 0 ==> !spec_session_plan(
            runs,
            events,
            session_id,
        ).0.is_empty(),
{
    let (a, q, d) = spec_rehydrate_fold(
        spec_sort_entries(spec_session_entries(runs, spec_first_run_sequences(events), session_id)),
    );
    if a.is_empty() && q.len() > 0 {
        assert(Set::<RunId>::empty().insert(q[0].run_id).contains(q[0].run_id));
    }
}


/// The runs that a queue holds.
pub open spec fn spec_queue_ids(q: Seq<QueuedRun>) -> Set<RunId> {
    q.map_values(|x: QueuedRun| x.run_id).to_set()
}

/// The runs that a list of entries names.
pub open spec fn spec_entry_ids(es: Seq<RehydrateEntry>) -> Set<RunId> {
    es.map_values(|e: RehydrateEntry| e.run_id).to_set()
}

/// The open runs of a session.
pub open spec fn spec_open_run_ids(runs: Seq<RunRecord>, session_id: SessionId) -> Set<RunId>
    decreases runs.len(),
{
    if runs.len() == 0 {
        Set::empty()
    } else {
        let prev = spec_open_run_ids(runs.drop_last(), session_id);
        if runs.last().status.spec_is_open() && runs.last().session_id == session_id {
            prev.insert(runs.last().id)
        } else {
            prev
        }
    }
}

proof fn lemma_entry_ids_push(s: Seq<RehydrateEntry>, e: RehydrateEntry)
    ensures
        spec_entry_ids(s.push(e)) == spec_entry_ids(s).insert(e.run_id),
{
    assert(s.push(e).map_values(|x: RehydrateEntry| x.run_id) =~= s.map_values(|x: RehydrateEntry| x.run_id).push(e.run_id));
    s.map_values(|x: RehydrateEntry| x.run_id).lemma_push_to_set_commute(e.run_id);
}

proof fn lemma_queue_ids_push(q: Seq<QueuedRun>, x: QueuedRun)
    ensures
        spec_queue_ids(q.push(x)) == spec_queue_ids(q).insert(x.run_id),
{
    assert(q.push(x).map_values(|y: QueuedRun| y.run_id) =~= q.map_values(|y: QueuedRun| y.run_id).push(x.run_id));
    q.map_values(|y: QueuedRun| y.run_id).lemma_push_to_set_commute(x.run_id);
}

proof fn lemma_queue_ids_drop_first(q: Seq<QueuedRun>)
    requires
        q.len() > 0,
    ensures
        spec_queue_ids(q) == spec_queue_ids(q.drop_first()).insert(q[0].run_id),
{
    let m = q.map_values(|y: QueuedRun| y.run_id);
    let d = q.drop_first().map_values(|y: QueuedRun| y.run_id);
    assert forall|id: RunId| m.to_set().contains(id) <==> d.to_set().insert(q[0].run_id).contains(id) by {
        if m.contains(id) {
            let k = choose|k: int| 0 <= k < m.len() && m[k] == id;
            if k > 0 {
                assert(d[k - 1] == id);
            }
        }
        if d.contains(id) {
            let k = choose|k: int| 0 <= k < d.len() && d[k] == id;
            assert(m[k + 1] == id);
        }
        if id == q[0].run_id {
            assert(m[0] == id);
        }
    }
    assert(m.to_set() =~= d.to_set().insert(q[0].run_id));
}

proof fn lemma_insert_entry_ids(s: Seq<RehydrateEntry>, e: RehydrateEntry)
    ensures
        spec_entry_ids(spec_insert_entry(s, e)) == spec_entry_ids(s).insert(e.run_id),
    decreases s.len(),
{
    if s.len() == 0 {
        lemma_entry_ids_push(s, e);
        assert(s.push(e) =~= seq![e]);
    } else if spec_key_le(s.last(), e) {
        lemma_entry_ids_push(s, e);
    } else {
        let dl = s.drop_last();
        lemma_insert_entry_ids(dl, e);
        lemma_entry_ids_push(spec_insert_entry(dl, e), s.last());
        lemma_entry_ids_push(dl, s.last());
        assert(dl.push(s.last()) =~= s);
        assert(spec_entry_ids(spec_insert_entry(s, e)) =~= spec_entry_ids(s).insert(e.run_id));
    }
}

proof fn lemma_sort_entry_ids(s: Seq<RehydrateEntry>)
    ensures
        spec_entry_ids(spec_sort_entries(s)) == spec_entry_ids(s),
    decreases s.len(),
{
    if s.len() == 0 {
        assert(spec_entry_ids(s) =~= Set::<RunId>::empty());
        assert(spec_entry_ids(spec_sort_entries(s)) =~= Set::<RunId>::empty());
    } else {
        lemma_sort_entry_ids(s.drop_last());
        lemma_insert_entry_ids(spec_sort_entries(s.drop_last()), s.last());
        lemma_entry_ids_push(s.drop_last(), s.last());
        assert(s.drop_last().push(s.last()) =~= s);
    }
}

proof fn lemma_fold_ids(s: Seq<RehydrateEntry>)
    ensures
        spec_rehydrate_fold(s).0 + spec_queue_ids(spec_rehydrate_fold(s).1) == spec_entry_ids(s),
    decreases s.len(),
{
    if s.len() == 0 {
        assert(spec_queue_ids(Seq::<QueuedRun>::empty()) =~= Set::<RunId>::empty());
        assert(spec_entry_ids(s) =~= Set::<RunId>::empty());
        assert(Set::<RunId>::empty() + Set::<RunId>::empty() =~= Set::<RunId>::empty());
    } else {
        let dl = s.drop_last();
        lemma_fold_ids(dl);
        let (a, q, d) = spec_rehydrate_fold(dl);
        let e = s.last();
        lemma_entry_ids_push(dl, e);
        assert(dl.push(e) =~= s);
        let qr = QueuedRun { run_id: e.run_id, policy: e.policy };
        lemma_queue_ids_push(q, qr);
        assert(spec_rehydrate_fold(s).0 + spec_queue_ids(spec_rehydrate_fold(s).1) =~= spec_entry_ids(s));
    }
}

proof fn lemma_session_entry_ids(runs: Seq<RunRecord>, first: Map<RunId, u64>, session_id: SessionId)
    ensures
        spec_entry_ids(spec_session_entries(runs, first, session_id)) == spec_open_run_ids(runs, session_id),
    decreases runs.len(),
{
    if runs.len() == 0 {
        assert(spec_entry_ids(Seq::<RehydrateEntry>::empty()) =~= Set::<RunId>::empty());
    } else {
        lemma_session_entry_ids(runs.drop_last(), first, session_id);
        let prev = spec_session_entries(runs.drop_last(), first, session_id);
        lemma_entry_ids_push(prev, spec_entry(first, runs.last()));
    }
}

/// Rehydration loses no run and invents none: after it, a session's active
/// runs and queued runs together are exactly its stored open runs.
pub proof fn law_rehydrate_keeps_every_open_run(runs: Seq<RunRecord>, events: Seq<EventRecord>, session_id: SessionId)
    ensures
        spec_session_plan(runs, events, session_id).0 + spec_queue_ids(spec_session_plan(runs, events, session_id).1)
            == spec_open_run_ids(runs, session_id),
{
    let first = spec_first_run_sequences(events);
    let entries = spec_session_entries(runs, first, session_id);
    let sorted = spec_sort_entries(entries);
    lemma_session_entry_ids(runs, first, session_id);
    lemma_sort_entry_ids(entries);
    lemma_fold_ids(sorted);
    let (a, q, d) = spec_rehydrate_fold(sorted);
    if a.is_empty() && q.len() > 0 {
        lemma_queue_ids_drop_first(q);
        assert(Set::<RunId>::empty().insert(q[0].run_id) + spec_queue_ids(q.drop_first()) =~= a + spec_queue_ids(q));
    }
}

} // verus!
