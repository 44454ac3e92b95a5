# ta_orchestrator

The decision logic of an agent-run orchestrator, written in Verus and proved
against its contracts: per-session scheduling, live-execution ownership with
generation leases, budgets, execution-policy compilation, fork boundaries and
replay, approvals, the transitive cancellation cascade over native
subagents, delegation recipes, completions and their receipts, generated
images, workspace file claims and voice streams.

The library decides; it does not hold the service around those decisions.
There is no run-execution or runtime service here: no store, no event
publication, no provider calls. Each check or plan takes what the service
would have read (run records, the event log, the recipe list, whether a live
execution owns a run) as plain values and returns what the service is to do
or the refusal it is to answer with.

- `src/` is the verified library. Each module states its model with spec
  functions, and its public proof functions (`law_*`) state the properties
  that hold across calls.
- `tests/` runs the library on concrete values.
- `app/` is the unverified shell around it: file I/O, the clock-driven and
  drop-driven parts of live-execution ownership, and error types with
  `thiserror` derives that convert to and from the library's own.

The outside crates `base64`, `sha2` and `serde_json` are called from `src/`
through small trusted wrappers whose contracts state or name what they
return.
