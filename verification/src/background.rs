//! The cycle of the background task: wait, sync where there is a session, and
//! wait again.
use crate::state::{self, note_sync_error, sync_due, AppState, SYNC_INTERVAL_SECS};
use crate::sync::SyncReport;
use crate::text;
use vstd::prelude::*;

verus! {

/// What the background task does next. There is always something.
#[derive(Debug, Clone, Copy)]
pub enum CycleStep {
    /// Wait so many seconds.
    Wait { secs: u64 },
    /// Run a sync.
    Sync,
}

/// The wait at the start of every cycle.
pub open spec fn cycle_wait() -> CycleStep {
    CycleStep::Wait { secs: SYNC_INTERVAL_SECS }
}

/// What follows a step: after a wait a sync, where there is a session at that
/// moment, and else another wait; after a sync a wait, whatever it came to.
pub open spec fn cycle_next(step: CycleStep, session: bool) -> CycleStep {
    if step is Wait && session {
        CycleStep::Sync
    } else {
        cycle_wait()
    }
}

/// The first step.
pub fn cycle_start() -> (step: CycleStep)
    ensures
        step == cycle_wait(),
{
    CycleStep::Wait { secs: SYNC_INTERVAL_SECS }
}

/// What follows a wait.
pub fn waited(s: &AppState) -> (step: CycleStep)
    ensures
        step == cycle_next(cycle_wait(), s.token is Some),
{
    if sync_due(s) {
        CycleStep::Sync
    } else {
        CycleStep::Wait { secs: SYNC_INTERVAL_SECS }
    }
}

/// Takes what a sync of the background task came to: an error is noted, unless
/// it is a missing session. Says what follows.
pub fn synced(s: &mut AppState, outcome: Result<SyncReport, String>) -> (step: CycleStep)
    ensures
        step == cycle_next(CycleStep::Sync, old(s).token is Some),
        *final(s) == match outcome {
            Err(msg) if !text::contains_part(msg@, state::NOT_LOGGED_IN@) => AppState {
                last_error: Some(msg),
                ..*old(s)
            },
            _ => *old(s),
        },
{
    if let Err(msg) = outcome {
        note_sync_error(s, msg);
    }
    CycleStep::Wait { secs: SYNC_INTERVAL_SECS }
}

/// Whether `steps` is a run of the background task from its start, `sessions`
/// telling after each step whether there is a session.
pub open spec fn is_cycle(steps: Seq<CycleStep>, sessions: Seq<bool>) -> bool {
    &&& steps.len() == sessions.len() + 1
    &&& steps[0] == cycle_wait()
    &&& forall|k: int|
        0 <= k < sessions.len() ==> #[trigger] steps[k + 1] == cycle_next(steps[k], sessions[k])
}

/// Every cycle begins with a wait of the same length; a sync follows it where
/// there is a session at its end, and only there; and after a sync comes the
/// next wait, so that a cycle syncs once at most.
pub proof fn law_cycle_syncs_once_with_a_session(
    steps: Seq<CycleStep>,
    sessions: Seq<bool>,
    k: int,
)
    requires
        is_cycle(steps, sessions),
        0 <= k < steps.len(),
    ensures
        steps[k] == CycleStep::Sync || steps[k] == cycle_wait(),
        steps[k] is Sync ==> k > 0 && steps[k - 1] == cycle_wait() && sessions[k - 1],
        k < sessions.len() && steps[k] is Wait ==> (steps[k + 1] is Sync <==> sessions[k]),
        k < sessions.len() && steps[k] is Sync ==> steps[k + 1] == cycle_wait(),
    decreases k,
{
    if k > 0 {
        law_cycle_syncs_once_with_a_session(steps, sessions, k - 1);
        assert(steps[(k - 1) + 1] == cycle_next(steps[k - 1], sessions[k - 1]));
    }
    if k < sessions.len() {
        assert(steps[k + 1] == cycle_next(steps[k], sessions[k]));
    }
}

} // verus!
