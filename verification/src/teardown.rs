//! Decisions of the process-group teardown protocol.
//!
//! Tearing a child down means: send SIGTERM to its process group, grant the
//! group the configured grace period while listening to signals alone, then
//! reap non-blockingly, and escalate to SIGKILL only when something in the
//! group is still alive.  Teardown is best-effort: it never propagates an
//! error, it only decides how far to go.

use vstd::prelude::*;

verus! {

/// How sending SIGTERM to the child's process group went.
#[derive(Clone, Copy, Debug, PartialEq, Eq, Structural)]
pub enum TermSendResult {
    /// The signal was delivered to at least one process.
    Delivered,
    /// No process was left in the group: teardown is already complete.
    GroupGone,
    /// The send failed with some other error; teardown gives up, it must
    /// not propagate errors.
    Failed,
}

/// Whether the grace period and the reaping phase still follow the SIGTERM
/// send: only when the signal reached a live group.  An empty group needs
/// no grace, and after a failed send teardown stops.
pub fn teardown_should_wait(r: &TermSendResult) -> (b: bool)
    ensures
        b == (r is Delivered),
{
    match r {
        TermSendResult::Delivered => true,
        _ => false,
    }
}

/// What one non-blocking wait on the child's process group found.
#[derive(Clone, Copy, Debug, PartialEq, Eq, Structural)]
pub enum ReapOutcome {
    /// A member of the group is still running.
    StillAlive,
    /// One member was reaped; there may be more.
    Reaped,
    /// The wait failed: nothing of the group is left to this process, or
    /// it was reaped elsewhere.  Both are race-inherent, not failures.
    NoneLeft,
}

/// The next move of the reaping loop after one non-blocking wait.
#[derive(Clone, Copy, Debug, PartialEq, Eq, Structural)]
pub enum ReapStep {
    /// A survivor was seen: stop reaping and SIGKILL the whole group.  Do
    /// not block on reaping afterwards; the sub-reaper role and later
    /// SIGCHLD deliveries mop up.
    Escalate,
    /// One member was collected: keep reaping, the group may hold more.
    KeepReaping,
    /// The group is empty: teardown is complete, no escalation.
    Done,
}

/// The move each wait outcome selects.
pub open spec fn reap_step_spec(o: ReapOutcome) -> ReapStep {
    match o {
        ReapOutcome::StillAlive => ReapStep::Escalate,
        ReapOutcome::Reaped => ReapStep::KeepReaping,
        ReapOutcome::NoneLeft => ReapStep::Done,
    }
}

/// One decision of the reaping loop: escalate to SIGKILL exactly when a
/// member of the group is still alive after the grace period.
pub fn reap_step(o: &ReapOutcome) -> (r: ReapStep)
    ensures
        r == reap_step_spec(*o),
{
    match o {
        ReapOutcome::StillAlive => ReapStep::Escalate,
        ReapOutcome::Reaped => ReapStep::KeepReaping,
        ReapOutcome::NoneLeft => ReapStep::Done,
    }
}

/// Whether a sequence of reap outcomes, observed in order until the loop
/// stopped, calls for SIGKILL: a survivor was seen before the group came
/// up empty.
pub open spec fn escalation_needed(outcomes: Seq<ReapOutcome>) -> bool
    decreases outcomes.len(),
{
    if outcomes.len() == 0 {
        false
    } else {
        match outcomes[0] {
            ReapOutcome::StillAlive => true,
            ReapOutcome::Reaped => escalation_needed(outcomes.drop_first()),
            ReapOutcome::NoneLeft => false,
        }
    }
}

/// The reaping loop in one piece: walk outcomes in order, stop at the
/// first that is not a successful reap, and say whether SIGKILL follows.
/// The escalation decision depends only on what stands before the first
/// `NoneLeft`.
pub fn escalate_after_reaps(outcomes: &Vec<ReapOutcome>) -> (r: bool)
    ensures
        r == escalation_needed(outcomes@),
{
    let mut i: usize = 0;
    assert(outcomes@.skip(0) =~= outcomes@);
    while i < outcomes.len()
        invariant
            i <= outcomes@.len(),
            escalation_needed(outcomes@) == escalation_needed(outcomes@.skip(i as int)),
        decreases outcomes@.len() - i,
    {
        match outcomes[i] {
            ReapOutcome::StillAlive => {
                assert(outcomes@.skip(i as int)[0] == outcomes@[i as int]);
                return true;
            },
            ReapOutcome::Reaped => {
                assert(outcomes@.skip(i as int)[0] == outcomes@[i as int]);
                assert(outcomes@.skip(i as int).drop_first() =~= outcomes@.skip(i + 1));
                i = i + 1;
            },
            ReapOutcome::NoneLeft => {
                assert(outcomes@.skip(i as int)[0] == outcomes@[i as int]);
                return false;
            },
        }
    }
    assert(outcomes@.skip(i as int) =~= Seq::<ReapOutcome>::empty());
    false
}

} // verus!
