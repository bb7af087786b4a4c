//! The prioritized event domain of the supervisor.
//!
//! One blocking wait on the kernel may find several descriptors ready at
//! once; the supervisor acts on the single highest-priority event of the
//! batch.  Termination preempts file changes, and file changes preempt a
//! merely exited child, so that a restart is never computed against stale
//! state.

use vstd::prelude::*;

verus! {

/// SIGHUP's number: one of the signals the supervisor blocks and receives
/// through its signal descriptor.
pub const SIGHUP_NO: i32 = 1;

/// SIGINT's number: blocked and received like SIGHUP.
pub const SIGINT_NO: i32 = 2;

/// SIGTERM's number: blocked and received like SIGHUP.
pub const SIGTERM_NO: i32 = 15;

/// SIGCHLD's number: blocked and received like SIGHUP; it reports child
/// exits.
pub const SIGCHLD_NO: i32 = 17;

/// One event, as seen by the supervisor's main loop.
#[derive(Clone, Copy, Debug, PartialEq, Eq, Structural)]
pub enum Event {
    /// An external terminating signal, or anything unexpected treated
    /// defensively as terminating.
    Terminate,
    /// At least one watched path changed.
    FilesChanged,
    /// SIGCHLD arrived; the payload is the pid the kernel reported.  The
    /// pid is advisory: the supervisor still reaps by the pid it knows.
    ChildExit(i32),
    /// The wait timed out with nothing ready.
    Nothing,
}

/// The priority of an event: lower wins when several sources are ready in
/// one wake-up.
pub open spec fn priority(e: Event) -> int {
    match e {
        Event::Terminate => 0,
        Event::FilesChanged => 1,
        Event::ChildExit(_) => 2,
        Event::Nothing => 3,
    }
}

/// Tie-break among equal priorities: only `ChildExit` carries data, so the
/// pid decides.  With it the order below is total.
pub open spec fn tiebreak(e: Event) -> int {
    match e {
        Event::ChildExit(pid) => pid as int,
        _ => 0,
    }
}

/// Total order on events: by priority, then by tie-break.  Two events that
/// compare equal under it are the same value.
pub open spec fn event_le(a: Event, b: Event) -> bool {
    priority(a) < priority(b) || (priority(a) == priority(b) && tiebreak(a) <= tiebreak(b))
}

/// The smaller of two events under the total order: the one the main loop
/// prefers when both are on offer.
pub fn min_event(a: Event, b: Event) -> (r: Event)
    ensures
        event_le(r, a),
        event_le(r, b),
        r == a || r == b,
{
    let pa = priority_of(a);
    let pb = priority_of(b);
    if pa < pb {
        a
    } else if pb < pa {
        b
    } else {
        match (a, b) {
            (Event::ChildExit(x), Event::ChildExit(y)) => {
                if x <= y {
                    a
                } else {
                    b
                }
            },
            _ => a,
        }
    }
}

/// Executable twin of [`priority`].
pub fn priority_of(e: Event) -> (r: u8)
    ensures
        r as int == priority(e),
{
    match e {
        Event::Terminate => 0,
        Event::FilesChanged => 1,
        Event::ChildExit(_) => 2,
        Event::Nothing => 3,
    }
}

/// The event one queued signal stands for.  The three terminating signals
/// map to `Terminate`; SIGCHLD maps to `ChildExit` of the sender pid the
/// kernel reported; anything else is unexpected and treated defensively as
/// terminating.
pub open spec fn event_of_signal(signo: i32, sender_pid: i32) -> Event {
    if signo == SIGCHLD_NO {
        Event::ChildExit(sender_pid)
    } else {
        Event::Terminate
    }
}

/// Whether a signal number belongs to the set the supervisor blocks and
/// expects on its signal descriptor.
pub open spec fn expected_signal(signo: i32) -> bool {
    signo == SIGHUP_NO || signo == SIGINT_NO || signo == SIGTERM_NO || signo == SIGCHLD_NO
}

/// What one non-blocking read of the signal descriptor found.
#[derive(Clone, Copy, Debug, PartialEq, Eq, Structural)]
pub enum SignalRead {
    /// One queued signal, with the sender pid from its signal info.
    Info { signo: i32, sender_pid: i32 },
    /// No signal was queued: a spurious wake.
    Empty,
    /// The read itself failed.
    Failed,
}

/// The event a read of the signal descriptor contributes: the signal's
/// event for a queued signal, `Nothing` for a spurious wake, and
/// `Terminate`, defensively, for a failed read.
pub open spec fn signal_event_spec(read: SignalRead) -> Event {
    match read {
        SignalRead::Info { signo, sender_pid } => event_of_signal(signo, sender_pid),
        SignalRead::Empty => Event::Nothing,
        SignalRead::Failed => Event::Terminate,
    }
}

/// Executable twin of [`signal_event_spec`].
pub fn signal_event(read: &SignalRead) -> (e: Event)
    ensures
        e == signal_event_spec(*read),
{
    match read {
        SignalRead::Info { signo, sender_pid } => {
            if *signo == SIGCHLD_NO {
                Event::ChildExit(*sender_pid)
            } else {
                Event::Terminate
            }
        },
        SignalRead::Empty => Event::Nothing,
        SignalRead::Failed => Event::Terminate,
    }
}

/// Whether a read signal is worth a diagnostic line: it carried a signal
/// number outside the blocked set.
pub fn signal_unexpected(read: &SignalRead) -> (r: bool)
    ensures
        r == (*read matches SignalRead::Info { signo, .. } && !expected_signal(signo)),
{
    match read {
        SignalRead::Info { signo, .. } => {
            !(*signo == SIGHUP_NO || *signo == SIGINT_NO || *signo == SIGTERM_NO || *signo
                == SIGCHLD_NO)
        },
        _ => false,
    }
}

/// One ready descriptor of a wake-up, already consumed: either the signal
/// descriptor with what its read found, the watcher descriptor (its
/// backlog drained), or a descriptor the multiplexer was never given.
#[derive(Clone, Copy, Debug, PartialEq, Eq, Structural)]
pub enum Readiness {
    /// The signal descriptor was readable and was read once.
    Signal(SignalRead),
    /// The watcher's descriptor was readable: at least one watched path
    /// changed.
    Watched,
    /// Readiness carried unknown data: treated defensively as
    /// terminating.
    Unknown,
}

/// The event one ready descriptor contributes to the wake-up's batch.
pub open spec fn readiness_event_spec(r: Readiness) -> Event {
    match r {
        Readiness::Signal(read) => signal_event_spec(read),
        Readiness::Watched => Event::FilesChanged,
        Readiness::Unknown => Event::Terminate,
    }
}

/// Executable twin of [`readiness_event_spec`].
pub fn readiness_event(r: &Readiness) -> (e: Event)
    ensures
        e == readiness_event_spec(*r),
{
    match r {
        Readiness::Signal(read) => signal_event(read),
        Readiness::Watched => Event::FilesChanged,
        Readiness::Unknown => Event::Terminate,
    }
}

/// The signal numbers the supervisor blocks from startup to exit, and the
/// set its signal descriptor is created over: SIGHUP, SIGINT, SIGTERM,
/// SIGCHLD.
pub fn signal_mask() -> (r: Vec<i32>)
    ensures
        r@ =~= seq![SIGHUP_NO, SIGINT_NO, SIGTERM_NO, SIGCHLD_NO],
{
    let mut v: Vec<i32> = Vec::new();
    v.push(SIGHUP_NO);
    v.push(SIGINT_NO);
    v.push(SIGTERM_NO);
    v.push(SIGCHLD_NO);
    v
}

/// What draining the watcher's descriptor found.
#[derive(Clone, Copy, Debug, PartialEq, Eq, Structural)]
pub enum DrainStatus {
    /// Pending notifications were read and discarded.
    Drained,
    /// Nothing was pending: not an error, drains race with delivery.
    Empty,
    /// The read failed with a real error.
    Failed,
}

/// Whether a drain outcome is acceptable: only a real read error is
/// surfaced; an empty backlog is the normal case of the race.
pub fn drain_acceptable(s: &DrainStatus) -> (r: bool)
    ensures
        r == !(s is Failed),
{
    match s {
        DrainStatus::Failed => false,
        _ => true,
    }
}

/// The event a wake-up yields: the minimum of every ready source's
/// contribution, or `Nothing` when no source contributed.
pub fn combine_events(events: &Vec<Event>) -> (r: Event)
    ensures
        forall|i: int| 0 <= i < events@.len() ==> event_le(r, events@[i]),
        r == Event::Nothing || exists|i: int| 0 <= i < events@.len() && events@[i] == r,
{
    let mut r = Event::Nothing;
    let mut i: usize = 0;
    while i < events.len()
        invariant
            i <= events@.len(),
            forall|j: int| 0 <= j < i ==> event_le(r, events@[j]),
            r == Event::Nothing || exists|j: int| 0 <= j < i && events@[j] == r,
        decreases events@.len() - i,
    {
        r = min_event(r, events[i]);
        i = i + 1;
    }
    r
}

} // verus!
