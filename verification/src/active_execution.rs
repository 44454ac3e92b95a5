//! Ownership of live executions. Each claimed run holds an execution slot
//! stamped with a generation; callbacks act on a run only while they hold the
//! generation that is current, so a replaced or retired execution can no
//! longer change durable state.

use std::collections::BTreeMap;

use vstd::prelude::*;
use vstd::std_specs::iter::IteratorSpec;

use crate::run::{RunId, SessionId};

verus! {

broadcast use {vstd::std_specs::btree::group_btree_axioms, vstd::laws_cmp::group_laws_cmp};

/// Identifier under which the caller keeps a provider execution handle.
pub type ExecutionHandleId = u64;

/// The live execution of one run.
#[derive(Debug, Clone, Copy, PartialEq, Eq, Structural)]
pub struct ActiveExecution {
    pub session_id: SessionId,
    pub generation: u64,
    pub handle: Option<ExecutionHandleId>,
    pub voice: Option<ExecutionHandleId>,
    pub cancel_requested: bool,
    pub cancel_delivered: bool,
}

/// What attaching a handle asks the caller to do next.
#[derive(Debug, Clone, Copy, PartialEq, Eq, Structural)]
pub enum AttachHandleDisposition {
    /// The handle is attached and nothing more is owed.
    Attached,
    /// A cancellation was requested before the handle arrived: the caller
    /// must cancel the handle it just attached.
    CancelRequested,
}

/// The operation during which an ownership check failed.
#[derive(Debug, Clone, Copy, PartialEq, Eq, Structural)]
pub enum LeaseStage {
    Replacing,
    Leasing,
    LeasingTerminal,
    AttachingHandle,
    AttachingVoice,
    ResolvingApproval,
}

/// Refusals of the ownership checks.
#[derive(Debug, Clone, Copy, PartialEq, Eq, Structural)]
pub enum ActiveExecutionError {
    /// No execution slot exists for the run.
    Missing { run_id: RunId, stage: LeaseStage },
    /// The run's slot belongs to another session.
    NotOwnedBySession { run_id: RunId, session_id: SessionId },
    /// The caller's generation (or session) is not the current one.
    StaleGeneration { run_id: RunId, stage: LeaseStage },
    /// The slot has no provider handle yet.
    HandleMissing { run_id: RunId },
}

/// The live executions, keyed by run.
#[derive(Debug)]
pub struct ActiveExecutionOwner {
    entries: BTreeMap<RunId, ActiveExecution>,
    next_generation: u64,
}

/// The slot that a fresh claim creates.
pub open spec fn spec_fresh_execution(session_id: SessionId, generation: u64) -> ActiveExecution {
    ActiveExecution {
        session_id,
        generation,
        handle: None,
        voice: None,
        cancel_requested: false,
        cancel_delivered: false,
    }
}

impl ActiveExecutionOwner {
    /// The live executions.
    pub closed spec fn entries(&self) -> Map<RunId, ActiveExecution> {
        self.entries@
    }

    /// The last generation handed out (zero before the first).
    pub closed spec fn last_generation(&self) -> u64 {
        self.next_generation
    }

    /// The invariant: every live generation has been handed out.
    pub open spec fn wf(&self) -> bool {
        forall|r: RunId| #[trigger] self.entries().contains_key(r) ==> self.entries()[r].generation
            <= self.last_generation()
    }

    /// No live executions.
    pub fn new() -> (s: Self)
        ensures
            s.entries() == Map::<RunId, ActiveExecution>::empty(),
            s.last_generation() == 0,
            s.wf(),
    {
        ActiveExecutionOwner { entries: BTreeMap::new(), next_generation: 0 }
    }

    /// Whether another generation can still be handed out.
    pub fn can_allocate_generation(&self) -> (res: bool)
        ensures
            res == (self.last_generation() < u64::MAX),
    {
        self.next_generation < u64::MAX
    }

    fn allocate_generation(&mut self) -> (g: u64)
        requires
            old(self).last_generation() < u64::MAX,
        ensures
            g == old(self).last_generation() + 1,
            final(self).last_generation() == g,
            final(self).entries() == old(self).entries(),
    {
        self.next_generation = self.next_generation + 1;
        self.next_generation
    }

    /// Claim a fresh slot for a run, replacing any slot it had, under a new
    /// generation.
    pub fn claim_run(&mut self, run_id: RunId, session_id: SessionId) -> (generation: u64)
        requires
            old(self).last_generation() < u64::MAX,
        ensures
            generation == old(self).last_generation() + 1,
            final(self).last_generation() == generation,
            final(self).entries() == old(self).entries().insert(
                run_id,
                spec_fresh_execution(session_id, generation),
            ),
            old(self).wf() ==> final(self).wf(),
    {
        let generation = self.allocate_generation();
        self.entries.insert(
            run_id,
            ActiveExecution {
                session_id,
                generation,
                handle: None,
                voice: None,
                cancel_requested: false,
                cancel_delivered: false,
            },
        );
        generation
    }

    /// Allocate a replacement generation and run `action` with it while the
    /// run stays owned. Only when the action succeeds does the replacement
    /// become current: the cancellation flags are cleared and the old handle
    /// is handed back for the caller to cancel. When it fails the old
    /// generation and handle stay current.
    pub fn replace_run_with_generation_lease<T, E>(
        &mut self,
        run_id: RunId,
        session_id: SessionId,
        action: impl FnOnce(u64) -> Result<T, E>,
    ) -> (res: Result<(Result<T, E>, u64, Option<ExecutionHandleId>), ActiveExecutionError>)
        requires
            old(self).last_generation() < u64::MAX,
            forall|g: u64| action.requires((g,)),
        ensures
            final(self).last_generation() == old(self).last_generation() + 1,
            old(self).wf() ==> final(self).wf(),
            !old(self).entries().contains_key(run_id) ==> {
                &&& res == Err::<(Result<T, E>, u64, Option<ExecutionHandleId>), ActiveExecutionError>(
                    ActiveExecutionError::Missing { run_id, stage: LeaseStage::Replacing },
                )
                &&& final(self).entries() == old(self).entries()
            },
            old(self).entries().contains_key(run_id) && old(self).entries()[run_id].session_id
                != session_id ==> {
                &&& res == Err::<(Result<T, E>, u64, Option<ExecutionHandleId>), ActiveExecutionError>(
                    ActiveExecutionError::NotOwnedBySession { run_id, session_id },
                )
                &&& final(self).entries() == old(self).entries()
            },
            old(self).entries().contains_key(run_id) && old(self).entries()[run_id].session_id
                == session_id ==> {
                let old_exec = old(self).entries()[run_id];
                &&& res is Ok
                &&& res->Ok_0.1 == final(self).last_generation()
                &&& action.ensures((res->Ok_0.1,), res->Ok_0.0)
                &&& if res->Ok_0.0 is Ok {
                    &&& res->Ok_0.2 == old_exec.handle
                    &&& final(self).entries() == old(self).entries().insert(
                        run_id,
                        ActiveExecution {
                            generation: res->Ok_0.1,
                            handle: None,
                            cancel_requested: false,
                            cancel_delivered: false,
                            ..old_exec
                        },
                    )
                } else {
                    &&& res->Ok_0.2 is None
                    &&& final(self).entries() == old(self).entries()
                }
            },
    {
        let generation = self.allocate_generation();
        let existing = match self.entries.get(&run_id) {
            Some(e) => *e,
            None => {
                return Err(ActiveExecutionError::Missing { run_id, stage: LeaseStage::Replacing });
            },
        };
        if existing.session_id != session_id {
            return Err(ActiveExecutionError::NotOwnedBySession { run_id, session_id });
        }
        let result = action(generation);
        let old_handle = if result.is_ok() {
            self.entries.insert(
                run_id,
                ActiveExecution {
                    generation,
                    handle: None,
                    cancel_requested: false,
                    cancel_delivered: false,
                    ..existing
                },
            );
            existing.handle
        } else {
            None
        };
        Ok((result, generation, old_handle))
    }

    /// Run `action` while the exact generation of the run is current and
    /// owned by the session; the slot is left as it is.
    pub fn with_generation_lease<T, E>(
        &self,
        run_id: RunId,
        session_id: SessionId,
        generation: u64,
        action: impl FnOnce() -> Result<T, E>,
    ) -> (res: Result<Result<T, E>, ActiveExecutionError>)
        requires
            action.requires(()),
        ensures
            !self.entries().contains_key(run_id) ==> res == Err::<Result<T, E>, ActiveExecutionError>(
                ActiveExecutionError::Missing { run_id, stage: LeaseStage::Leasing },
            ),
            self.entries().contains_key(run_id) ==> if self.entries()[run_id].session_id
                == session_id && self.entries()[run_id].generation == generation {
                &&& res is Ok
                &&& action.ensures((), res->Ok_0)
            } else {
                res == Err::<Result<T, E>, ActiveExecutionError>(
                    ActiveExecutionError::StaleGeneration { run_id, stage: LeaseStage::Leasing },
                )
            },
    {
        let execution = match self.entries.get(&run_id) {
            Some(e) => *e,
            None => {
                return Err(ActiveExecutionError::Missing { run_id, stage: LeaseStage::Leasing });
            },
        };
        if execution.session_id != session_id || execution.generation != generation {
            return Err(ActiveExecutionError::StaleGeneration { run_id, stage: LeaseStage::Leasing });
        }
        Ok(action())
    }

    /// Terminal lease on whatever generation is current: run `action` with
    /// it; when the action succeeds the slot is retired and its handle is
    /// handed to the caller.
    pub fn with_current_terminal_generation_lease_and_take_handle<T, E>(
        &mut self,
        run_id: RunId,
        session_id: SessionId,
        action: impl FnOnce(u64) -> Result<T, E>,
    ) -> (res: Result<(Result<T, E>, Option<ExecutionHandleId>), ActiveExecutionError>)
        requires
            forall|g: u64| action.requires((g,)),
        ensures
            final(self).last_generation() == old(self).last_generation(),
            old(self).wf() ==> final(self).wf(),
            spec_terminal_lease(
                *old(self),
                *final(self),
                run_id,
                session_id,
                None,
                match res {
                    Ok(p) => Ok::<(bool, Option<ExecutionHandleId>), ActiveExecutionError>((p.0 is Ok, p.1)),
                    Err(e) => Err(e),
                },
            ),
            res is Ok ==> action.ensures((old(self).entries()[run_id].generation,), res->Ok_0.0),
    {
        self.terminal_lease(run_id, session_id, None, action)
    }

    /// Terminal lease on an exact generation: run `action` only while that
    /// generation is current; when it succeeds the slot is retired and its
    /// handle is handed to the caller.
    pub fn with_terminal_generation_lease_and_take_handle<T, E>(
        &mut self,
        run_id: RunId,
        session_id: SessionId,
        generation: u64,
        action: impl FnOnce() -> Result<T, E>,
    ) -> (res: Result<(Result<T, E>, Option<ExecutionHandleId>), ActiveExecutionError>)
        requires
            action.requires(()),
        ensures
            final(self).last_generation() == old(self).last_generation(),
            old(self).wf() ==> final(self).wf(),
            spec_terminal_lease(
                *old(self),
                *final(self),
                run_id,
                session_id,
                Some(generation),
                match res {
                    Ok(p) => Ok::<(bool, Option<ExecutionHandleId>), ActiveExecutionError>((p.0 is Ok, p.1)),
                    Err(e) => Err(e),
                },
            ),
            res is Ok ==> action.ensures((), res->Ok_0.0),
    {
        let execution = match self.entries.get(&run_id) {
            Some(e) => *e,
            None => {
                return Err(
                    ActiveExecutionError::Missing { run_id, stage: LeaseStage::LeasingTerminal },
                );
            },
        };
        if execution.session_id != session_id || execution.generation != generation {
            return Err(
                ActiveExecutionError::StaleGeneration { run_id, stage: LeaseStage::LeasingTerminal },
            );
        }
        let result = action();
        let handle = if result.is_ok() {
            self.entries.remove(&run_id);
            execution.handle
        } else {
            None
        };
        Ok((result, handle))
    }

    fn terminal_lease<T, E>(
        &mut self,
        run_id: RunId,
        session_id: SessionId,
        target: Option<u64>,
        action: impl FnOnce(u64) -> Result<T, E>,
    ) -> (res: Result<(Result<T, E>, Option<ExecutionHandleId>), ActiveExecutionError>)
        requires
            forall|g: u64| action.requires((g,)),
        ensures
            final(self).last_generation() == old(self).last_generation(),
            old(self).wf() ==> final(self).wf(),
            spec_terminal_lease(
                *old(self),
                *final(self),
                run_id,
                session_id,
                target,
                match res {
                    Ok(p) => Ok::<(bool, Option<ExecutionHandleId>), ActiveExecutionError>((p.0 is Ok, p.1)),
                    Err(e) => Err(e),
                },
            ),
            res is Ok ==> action.ensures((old(self).entries()[run_id].generation,), res->Ok_0.0),
    {
        let execution = match self.entries.get(&run_id) {
            Some(e) => *e,
            None => {
                return Err(
                    ActiveExecutionError::Missing { run_id, stage: LeaseStage::LeasingTerminal },
                );
            },
        };
        let generation = execution.generation;
        let stale = match target {
            Some(expected) => generation != expected,
            None => false,
        };
        if execution.session_id != session_id || stale {
            return Err(
                ActiveExecutionError::StaleGeneration { run_id, stage: LeaseStage::LeasingTerminal },
            );
        }
        let result = action(generation);
        let handle = if result.is_ok() {
            self.entries.remove(&run_id);
            execution.handle
        } else {
            None
        };
        Ok((result, handle))
    }

    /// Attach a provider handle to the exact generation. A cancellation that
    /// was requested before and not yet delivered is marked delivered, and
    /// the caller is told to cancel the handle.
    pub fn attach_handle(&mut self, run_id: RunId, generation: u64, handle: ExecutionHandleId) -> (res:
        Result<AttachHandleDisposition, ActiveExecutionError>)
        ensures
            final(self).last_generation() == old(self).last_generation(),
            old(self).wf() ==> final(self).wf(),
            !old(self).entries().contains_key(run_id) ==> {
                &&& res == Err::<AttachHandleDisposition, ActiveExecutionError>(
                    ActiveExecutionError::Missing { run_id, stage: LeaseStage::AttachingHandle },
                )
                &&& final(self).entries() == old(self).entries()
            },
            old(self).entries().contains_key(run_id) ==> {
                let e = old(self).entries()[run_id];
                let pending = e.cancel_requested && !e.cancel_delivered;
                if e.generation != generation {
                    &&& res == Err::<AttachHandleDisposition, ActiveExecutionError>(
                        ActiveExecutionError::StaleGeneration { run_id, stage: LeaseStage::AttachingHandle },
                    )
                    &&& final(self).entries() == old(self).entries()
                } else {
                    &&& res == Ok::<AttachHandleDisposition, ActiveExecutionError>(
                        if pending {
                            AttachHandleDisposition::CancelRequested
                        } else {
                            AttachHandleDisposition::Attached
                        },
                    )
                    &&& final(self).entries() == old(self).entries().insert(
                        run_id,
                        ActiveExecution {
                            handle: Some(handle),
                            cancel_delivered: e.cancel_delivered || pending,
                            ..e
                        },
                    )
                }
            },
    {
        let execution = match self.entries.get(&run_id) {
            Some(e) => *e,
            None => {
                return Err(
                    ActiveExecutionError::Missing { run_id, stage: LeaseStage::AttachingHandle },
                );
            },
        };
        if execution.generation != generation {
            return Err(
                ActiveExecutionError::StaleGeneration { run_id, stage: LeaseStage::AttachingHandle },
            );
        }
        let pending_cancel = execution.cancel_requested && !execution.cancel_delivered;
        self.entries.insert(
            run_id,
            ActiveExecution {
                handle: Some(handle),
                cancel_delivered: execution.cancel_delivered || pending_cancel,
                ..execution
            },
        );
        if pending_cancel {
            Ok(AttachHandleDisposition::CancelRequested)
        } else {
            Ok(AttachHandleDisposition::Attached)
        }
    }

    /// Attach a provider handle and a voice exchange to the exact generation.
    pub fn attach_voice_handle(
        &mut self,
        run_id: RunId,
        generation: u64,
        handle: ExecutionHandleId,
        voice: ExecutionHandleId,
    ) -> (res: Result<AttachHandleDisposition, ActiveExecutionError>)
        ensures
            final(self).last_generation() == old(self).last_generation(),
            old(self).wf() ==> final(self).wf(),
            !old(self).entries().contains_key(run_id) || old(self).entries()[run_id].generation
                != generation ==> final(self).entries() == old(self).entries() && res is Err,
            old(self).entries().contains_key(run_id) && old(self).entries()[run_id].generation
                == generation ==> {
                let e = old(self).entries()[run_id];
                let pending = e.cancel_requested && !e.cancel_delivered;
                &&& res == Ok::<AttachHandleDisposition, ActiveExecutionError>(
                    if pending {
                        AttachHandleDisposition::CancelRequested
                    } else {
                        AttachHandleDisposition::Attached
                    },
                )
                &&& final(self).entries() == old(self).entries().insert(
                    run_id,
                    ActiveExecution {
                        handle: Some(handle),
                        voice: Some(voice),
                        cancel_delivered: e.cancel_delivered || pending,
                        ..e
                    },
                )
            },
    {
        let disposition = self.attach_handle(run_id, generation, handle)?;
        let execution = match self.entries.get(&run_id) {
            Some(e) => *e,
            None => {
                return Err(
                    ActiveExecutionError::Missing { run_id, stage: LeaseStage::AttachingVoice },
                );
            },
        };
        self.entries.insert(run_id, ActiveExecution { voice: Some(voice), ..execution });
        Ok(disposition)
    }

    /// Whether the run's live execution exchanges voice frames.
    pub fn is_voice_run(&self, run_id: RunId) -> (res: bool)
        ensures
            res == (self.entries().contains_key(run_id) && self.entries()[run_id].voice is Some),
    {
        match self.entries.get(&run_id) {
            Some(e) => e.voice.is_some(),
            None => false,
        }
    }

    /// The voice exchange of the run's live execution.
    pub fn voice_for(&self, run_id: RunId) -> (res: Option<ExecutionHandleId>)
        ensures
            res == (if self.entries().contains_key(run_id) {
                self.entries()[run_id].voice
            } else {
                None
            }),
    {
        match self.entries.get(&run_id) {
            Some(e) => e.voice,
            None => None,
        }
    }

    /// Whether the run has a live execution owned by the session.
    pub fn is_running_owned_by(&self, run_id: RunId, session_id: SessionId) -> (res: bool)
        ensures
            res == (self.entries().contains_key(run_id) && self.entries()[run_id].session_id
                == session_id),
    {
        match self.entries.get(&run_id) {
            Some(e) => e.session_id == session_id,
            None => false,
        }
    }

    /// The number of live executions.
    pub fn active_count(&self) -> (n: usize)
        ensures
            n == self.entries().len(),
    {
        self.entries.len()
    }

    /// The current generation of the run when the session owns it.
    pub fn current_generation(&self, run_id: RunId, session_id: SessionId) -> (res: Option<u64>)
        ensures
            res == (if self.entries().contains_key(run_id) && self.entries()[run_id].session_id
                == session_id {
                Some(self.entries()[run_id].generation)
            } else {
                None
            }),
    {
        match self.entries.get(&run_id) {
            Some(e) => if e.session_id == session_id {
                Some(e.generation)
            } else {
                None
            },
            None => None,
        }
    }

    /// Whether `generation` is the run's current generation under the session.
    pub fn is_current_generation(&self, run_id: RunId, session_id: SessionId, generation: u64) -> (res: bool)
        ensures
            res == (self.entries().contains_key(run_id) && self.entries()[run_id].session_id
                == session_id && self.entries()[run_id].generation == generation),
    {
        match self.current_generation(run_id, session_id) {
            Some(g) => g == generation,
            None => false,
        }
    }

    /// The live execution of the run.
    pub fn execution_for(&self, run_id: RunId) -> (res: Option<ActiveExecution>)
        ensures
            res == (if self.entries().contains_key(run_id) {
                Some(self.entries()[run_id])
            } else {
                None
            }),
    {
        match self.entries.get(&run_id) {
            Some(e) => Some(*e),
            None => None,
        }
    }

    /// The attached handle of the run when the session owns it.
    pub fn handle_for(&self, run_id: RunId, session_id: SessionId) -> (res: Option<ExecutionHandleId>)
        ensures
            res == (if self.entries().contains_key(run_id) && self.entries()[run_id].session_id
                == session_id {
                self.entries()[run_id].handle
            } else {
                None
            }),
    {
        match self.entries.get(&run_id) {
            Some(e) => if e.session_id == session_id {
                e.handle
            } else {
                None
            },
            None => None,
        }
    }

    /// The handle through which an approval of the run is resolved: the run
    /// must be live, owned by the session, and have a handle.
    pub fn approval_handle(&self, run_id: RunId, session_id: SessionId) -> (res: Result<
        ExecutionHandleId,
        ActiveExecutionError,
    >)
        ensures
            !self.entries().contains_key(run_id) ==> res == Err::<ExecutionHandleId, ActiveExecutionError>(
                ActiveExecutionError::Missing { run_id, stage: LeaseStage::ResolvingApproval },
            ),
            self.entries().contains_key(run_id) ==> {
                let e = self.entries()[run_id];
                if e.session_id != session_id {
                    res == Err::<ExecutionHandleId, ActiveExecutionError>(
                        ActiveExecutionError::NotOwnedBySession { run_id, session_id },
                    )
                } else {
                    match e.handle {
                        Some(h) => res == Ok::<ExecutionHandleId, ActiveExecutionError>(h),
                        None => res == Err::<ExecutionHandleId, ActiveExecutionError>(
                            ActiveExecutionError::HandleMissing { run_id },
                        ),
                    }
                }
            },
    {
        let e = match self.entries.get(&run_id) {
            Some(e) => *e,
            None => {
                return Err(
                    ActiveExecutionError::Missing { run_id, stage: LeaseStage::ResolvingApproval },
                );
            },
        };
        if e.session_id != session_id {
            return Err(ActiveExecutionError::NotOwnedBySession { run_id, session_id });
        }
        match e.handle {
            Some(h) => Ok(h),
            None => Err(ActiveExecutionError::HandleMissing { run_id }),
        }
    }

    /// The provider handles of every live execution, each run's handle once,
    /// in ascending run order (see [`spec_handles_along`]): what must be
    /// cancelled when the owner goes away.
    pub fn live_handles(&self) -> (hs: Vec<ExecutionHandleId>)
        ensures
            exists|keys: Seq<RunId>|
                #[trigger] spec_ascending_keys_of(keys, self.entries()) && hs@ == spec_handles_along(
                    keys,
                    self.entries(),
                ),
            hs@.len() == self.entries().dom().filter(|r: RunId| spec_has_handle(self.entries(), r)).len(),
    {
        proof { crate::scheduler::lemma_u64_keys_ordered(); }
        let mut hs: Vec<ExecutionHandleId> = Vec::new();
        let ghost m = self.entries();
        let ghost v = vstd::std_specs::btree::spec_btree_map_iter(&self.entries).remaining();
        let ghost keys = v.map_values(|kv: (&RunId, &ActiveExecution)| *kv.0);
        let ghost mut n: int = 0;
        let entries_iter = self.entries.iter();
        proof {
            assert(entries_iter.remaining().map_values(|kv: (&RunId, &ActiveExecution)| *kv.0) =~= keys);
            assert(vstd::std_specs::btree::increasing_seq(keys));
            lemma_increasing_run_ids(keys);
        }
        for kv in it: entries_iter
            invariant
                m == self.entries(),
                v == vstd::std_specs::btree::spec_btree_map_iter(&self.entries).remaining(),
                keys == v.map_values(|kv: (&RunId, &ActiveExecution)| *kv.0),
                it.seq() == v,
                n == it.index(),
                0 <= n <= v.len(),
                hs@ == spec_handles_along(keys.take(n), m),
                forall|a: int, b: int| 0 <= a < b < keys.len() ==> keys[a] < keys[b],
        {
            let (k, e) = kv;
            proof {
                assert(kv == v[n]);
                assert(keys[n] == *k);
                assert(m.contains_key(*v[n].0));
                assert(m[*k] == *e);
                assert(keys.take(n + 1).drop_last() =~= keys.take(n));
                assert(keys.take(n + 1).last() == *k);
            }
            match e.handle {
                Some(h) => {
                    hs.push(h);
                },
                None => {},
            }
            proof {
                n = n + 1;
            }
        }
        proof {
            assert(keys.take(n) =~= keys);
            assert forall|r: RunId| keys.to_set().contains(r) <==> m.dom().contains(r) by {
                if m.dom().contains(r) {
                    assert(v.contains((&r, &m[r])));
                    let j = choose|j: int| 0 <= j < v.len() && v[j] == (&r, &m[r]);
                    assert(keys[j] == r);
                }
                if keys.to_set().contains(r) {
                    let j = choose|j: int| 0 <= j < keys.len() && keys[j] == r;
                    assert(m.contains_key(*v[j].0));
                }
            }
            assert(keys.to_set() =~= m.dom());
            assert(spec_ascending_keys_of(keys, m));
            law_live_handles_one_per_attached_run(keys, m);
        }
        hs
    }

    /// Retire the run's slot, whatever its generation; whether one existed.
    pub fn release_run(&mut self, run_id: RunId) -> (res: bool)
        ensures
            res == old(self).entries().contains_key(run_id),
            final(self).entries() == old(self).entries().remove(run_id),
            final(self).last_generation() == old(self).last_generation(),
            old(self).wf() ==> final(self).wf(),
    {
        self.entries.remove(&run_id).is_some()
    }
}

proof fn lemma_increasing_run_ids(s: Seq<RunId>)
    requires
        vstd::std_specs::btree::increasing_seq(s),
    ensures
        forall|a: int, b: int| 0 <= a < b < s.len() ==> s[a] < s[b],
{
    crate::scheduler::lemma_u64_keys_ordered();
    assert forall|a: int, b: int| 0 <= a < b < s.len() implies s[a] < s[b] by {
        assert(vstd::std_specs::cmp::OrdSpec::cmp_spec(&s[a], &s[b]) is Less);
    }
}

/// Whether `keys` lists the runs of `m` in strictly ascending order (so each
/// run exactly once).
pub open spec fn spec_ascending_keys_of(keys: Seq<RunId>, m: Map<RunId, ActiveExecution>) -> bool {
    &&& forall|a: int, b: int| 0 <= a < b < keys.len() ==> keys[a] < keys[b]
    &&& keys.to_set() == m.dom()
}

/// The handles of the runs in `keys`, in that order, one for each run that
/// has a handle.
pub open spec fn spec_handles_along(keys: Seq<RunId>, m: Map<RunId, ActiveExecution>) -> Seq<ExecutionHandleId>
    decreases keys.len(),
{
    if keys.len() == 0 {
        Seq::empty()
    } else {
        let prev = spec_handles_along(keys.drop_last(), m);
        match m[keys.last()].handle {
            Some(h) => prev.push(h),
            None => prev,
        }
    }
}

/// Whether a run's slot has a provider handle attached.
pub open spec fn spec_has_handle(m: Map<RunId, ActiveExecution>, r: RunId) -> bool {
    m[r].handle is Some
}

/// The handles to cancel when the owner goes away are the handles of the
/// runs that have one, each exactly once, in ascending run order: one
/// element for each such run, and as many elements as there are such runs.
pub proof fn law_live_handles_one_per_attached_run(keys: Seq<RunId>, m: Map<RunId, ActiveExecution>)
    requires
        spec_ascending_keys_of(keys, m),
    ensures
        spec_handles_along(keys, m) == keys.filter(|r: RunId| spec_has_handle(m, r)).map_values(
            |r: RunId| m[r].handle->0,
        ),
        spec_handles_along(keys, m).len() == m.dom().filter(|r: RunId| spec_has_handle(m, r)).len(),
{
    lemma_handles_along(keys, m);
}

proof fn lemma_handles_along(keys: Seq<RunId>, m: Map<RunId, ActiveExecution>)
    requires
        forall|a: int, b: int| 0 <= a < b < keys.len() ==> keys[a] < keys[b],
    ensures
        spec_handles_along(keys, m) == keys.filter(|r: RunId| spec_has_handle(m, r)).map_values(
            |r: RunId| m[r].handle->0,
        ),
        keys.to_set().finite(),
        spec_handles_along(keys, m).len() == keys.to_set().filter(|r: RunId| spec_has_handle(m, r)).len(),
    decreases keys.len(),
{
    let p = |r: RunId| spec_has_handle(m, r);
    let f = |r: RunId| m[r].handle->0;
    if keys.len() == 0 {
        assert(keys.to_set() =~= Set::<RunId>::empty());
        assert(keys.to_set().filter(p) =~= Set::<RunId>::empty());
        assert(keys.filter(p) =~= Seq::<RunId>::empty());
        assert(keys.filter(p).map_values(f) =~= Seq::<ExecutionHandleId>::empty());
    } else {
        let dl = keys.drop_last();
        let x = keys.last();
        lemma_handles_along(dl, m);
        assert(keys =~= dl.push(x));
        assert(keys.to_set() =~= dl.to_set().insert(x));
        assert(!dl.to_set().contains(x)) by {
            if dl.to_set().contains(x) {
                let i = choose|i: int| 0 <= i < dl.len() && dl[i] == x;
                assert(keys[i] < keys[keys.len() - 1]);
            }
        }
        assert(keys.drop_last() == dl);
        reveal(Seq::filter);
        if p(x) {
            assert(keys.filter(p) == dl.filter(p).push(x));
            assert(keys.to_set().filter(p) =~= dl.to_set().filter(p).insert(x));
            assert(keys.filter(p).map_values(f) =~= dl.filter(p).map_values(f).push(f(x)));
        } else {
            assert(keys.filter(p) == dl.filter(p));
            assert(keys.to_set().filter(p) =~= dl.to_set().filter(p));
        }
    }
}

/// The outcome of a terminal lease: refused when the slot is missing, owned
/// by another session, or not at the target generation; otherwise the
/// action ran, and the slot was retired with its handle returned exactly
/// when the action succeeded.
pub open spec fn spec_terminal_lease(
    pre: ActiveExecutionOwner,
    post: ActiveExecutionOwner,
    run_id: RunId,
    session_id: SessionId,
    target: Option<u64>,
    res: Result<(bool, Option<ExecutionHandleId>), ActiveExecutionError>,
) -> bool {
    if !pre.entries().contains_key(run_id) {
        &&& res == Err::<(bool, Option<ExecutionHandleId>), ActiveExecutionError>(
            ActiveExecutionError::Missing { run_id, stage: LeaseStage::LeasingTerminal },
        )
        &&& post.entries() == pre.entries()
    } else {
        let e = pre.entries()[run_id];
        if e.session_id != session_id || (target is Some && target->0 != e.generation) {
            &&& res == Err::<(bool, Option<ExecutionHandleId>), ActiveExecutionError>(
                ActiveExecutionError::StaleGeneration { run_id, stage: LeaseStage::LeasingTerminal },
            )
            &&& post.entries() == pre.entries()
        } else {
            &&& res is Ok
            &&& if res->Ok_0.0 {
                &&& res->Ok_0.1 == e.handle
                &&& post.entries() == pre.entries().remove(run_id)
            } else {
                &&& res->Ok_0.1 is None
                &&& post.entries() == pre.entries()
            }
        }
    }
}

/// Whether a callback holding `generation` may act for the run under the session.
pub open spec fn spec_lease_allowed(
    owner: ActiveExecutionOwner,
    run_id: RunId,
    session_id: SessionId,
    generation: u64,
) -> bool {
    &&& owner.entries().contains_key(run_id)
    &&& owner.entries()[run_id].session_id == session_id
    &&& owner.entries()[run_id].generation == generation
}

/// A newly allocated generation is greater than every live generation.
pub proof fn law_new_generation_exceeds_live(owner: ActiveExecutionOwner, run_id: RunId)
    requires
        owner.wf(),
        owner.entries().contains_key(run_id),
    ensures
        owner.entries()[run_id].generation < owner.last_generation() + 1,
{
}

/// Once a replacement succeeds, no callback holding any generation that was
/// current before can act for the run again; the replacement generation can.
pub proof fn law_replacement_retires_old_generations(
    pre: ActiveExecutionOwner,
    post: ActiveExecutionOwner,
    run_id: RunId,
    session_id: SessionId,
    old_generation: u64,
)
    requires
        pre.wf(),
        spec_lease_allowed(pre, run_id, session_id, old_generation),
        post.last_generation() == pre.last_generation() + 1,
        post.entries() == pre.entries().insert(
            run_id,
            ActiveExecution {
                generation: post.last_generation(),
                handle: None,
                cancel_requested: false,
                cancel_delivered: false,
                ..pre.entries()[run_id]
            },
        ),
    ensures
        !spec_lease_allowed(post, run_id, session_id, old_generation),
        spec_lease_allowed(post, run_id, session_id, post.last_generation()),
{
}

/// A terminal lease aimed at a generation that is not current changes
/// nothing and is refused.
pub proof fn law_terminal_lease_only_retires_exact_generation(
    pre: ActiveExecutionOwner,
    post: ActiveExecutionOwner,
    run_id: RunId,
    session_id: SessionId,
    generation: u64,
    res: Result<(bool, Option<ExecutionHandleId>), ActiveExecutionError>,
)
    requires
        spec_terminal_lease(pre, post, run_id, session_id, Some(generation), res),
        !spec_lease_allowed(pre, run_id, session_id, generation),
    ensures
        res is Err,
        post.entries() == pre.entries(),
{
}

/// A successful terminal lease retires the slot: no generation can lease
/// the run afterwards.
pub proof fn law_terminal_lease_retires_slot(
    pre: ActiveExecutionOwner,
    post: ActiveExecutionOwner,
    run_id: RunId,
    session_id: SessionId,
    target: Option<u64>,
    res: Result<(bool, Option<ExecutionHandleId>), ActiveExecutionError>,
    generation: u64,
)
    requires
        spec_terminal_lease(pre, post, run_id, session_id, target, res),
        res matches Ok((true, _)),
    ensures
        !spec_lease_allowed(post, run_id, session_id, generation),
        res->Ok_0.1 == pre.entries()[run_id].handle,
{
}

} // verus!
