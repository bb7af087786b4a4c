//! The child-lifecycle state machine.
//!
//! The supervisor owns at most one direct child at a time.  Each iteration
//! of its main loop waits for one prioritized [`Event`] and dispatches on
//! the pair of event and state; the dispatch is a pure function from old
//! state to new state plus a directive telling the surrounding binary which
//! syscalls to perform.  A child exit is resolved in a second step, once
//! the kernel has reported how the child ended, and the restart policy is
//! applied to the resulting status byte.

use vstd::prelude::*;

use crate::event::Event;
use crate::options::Options;

verus! {

/// How long a restart is debounced: while restarting, the loop waits on
/// signals alone for this many milliseconds and then discards the inotify
/// backlog, so that a burst of writes yields a single restart.
pub const DEBOUNCE_MS: u16 = 100;

/// The supervisor's view of its child.
#[derive(Clone, Copy, Debug, PartialEq, Eq, Structural)]
pub enum ChildState {
    /// A spawned child is running under direct supervision.
    Alive,
    /// No child runs; only an external trigger advances the loop.
    Dormant,
    /// The previous child is torn down; a debounce window separates it
    /// from the next spawn.
    Restarting,
}

/// What the main loop must do next, besides updating its state.
///
/// `pid` is always the pid the supervisor holds; teardown targets the
/// child's process group through its negation.
#[derive(Clone, Copy, Debug, PartialEq, Eq, Structural)]
pub enum Directive {
    /// Tear the child's group down, then leave the loop.
    QuitAfterTeardown { pid: i32 },
    /// Leave the loop; there is no child left to tear down.
    Quit,
    /// Tear the child's group down; a restart follows after the debounce.
    TeardownForRestart { pid: i32 },
    /// Nothing to do this iteration.
    Idle,
    /// The supervised child exited: collect its status with a
    /// non-blocking wait, then resolve it (see [`Supervisor::resolve_exit`]).
    ResolveChildExit { pid: i32 },
    /// Some other descendant died and was re-parented here: reap it with a
    /// non-blocking wait and carry on.
    Reap { pid: i32 },
    /// The torn-down child's exit arrived during the debounce: reap it,
    /// then spawn the next child and record its pid.
    ReapThenSpawn { pid: i32 },
    /// The debounce window ended: spawn the next child and record its pid.
    Spawn,
}

/// How the kernel reported a collected child.
#[derive(Clone, Copy, Debug, PartialEq, Eq, Structural)]
pub enum ExitKind {
    /// Normal exit with the given code.
    Exited { code: i32 },
    /// Terminated by the given signal.
    Signaled { signal: i32 },
    /// Any other wait status; the exit is not resolved and the iteration
    /// is abandoned.
    Unknown,
}

/// What a resolved child exit asks of the main loop.
#[derive(Clone, Copy, Debug, PartialEq, Eq, Structural)]
pub enum PolicyDirective {
    /// The wait status said nothing usable: change nothing, stay alive.
    Ignore,
    /// Tear the child's group down, then leave the loop.
    QuitAfterTeardown { pid: i32 },
    /// Tear the child's group down and continue the loop; the new state
    /// says whether a restart is pending or the supervisor is dormant.
    TeardownThenContinue { pid: i32 },
}

/// Which branch of the restart policy a status selects.
#[derive(Clone, Copy, Debug, PartialEq, Eq, Structural)]
pub enum PolicyChoice {
    /// Leave the main loop; the status becomes the supervisor's exit code.
    Quit,
    /// Restart the child after the debounce.
    Restart,
    /// Keep running without a child until a file change or signal.
    Dormant,
}

/// How the next wait should be performed.
#[derive(Clone, Copy, Debug, PartialEq, Eq, Structural)]
pub enum WaitPlan {
    /// Wait on signals alone for `timeout_ms`, then drain and discard the
    /// inotify backlog: file changes during a restart must not schedule a
    /// second one.
    SignalsOnlyThenDrain { timeout_ms: u16 },
    /// Block on every source with no timeout.
    WaitForever,
}

/// The raw status byte a child exit yields: the exit code for a normal
/// exit, 128 plus the signal number for a signaled one.
pub open spec fn status_of(kind: ExitKind) -> int {
    match kind {
        ExitKind::Exited { code } => code as int,
        ExitKind::Signaled { signal } => 128 + signal,
        ExitKind::Unknown => 0,
    }
}

/// The bounds the kernel guarantees for a collected wait status: an exit
/// code is one byte, a signal number is small.  Under them the status byte
/// fits in a `u8`.
pub open spec fn kind_in_bounds(kind: ExitKind) -> bool {
    match kind {
        ExitKind::Exited { code } => 0 <= code <= 255,
        ExitKind::Signaled { signal } => 1 <= signal <= 64,
        ExitKind::Unknown => true,
    }
}

/// The restart policy, resolved in first-match order.  Several flags may
/// be set at once; the order below decides.
pub open spec fn policy_choice(o: Options, status: int) -> PolicyChoice {
    if o.exit_on_zero && status == 0 {
        PolicyChoice::Quit
    } else if o.exit_on_error && status != 0 {
        PolicyChoice::Quit
    } else if o.restart_on_zero && status == 0 {
        PolicyChoice::Restart
    } else if o.restart_on_error && status != 0 {
        PolicyChoice::Restart
    } else {
        PolicyChoice::Dormant
    }
}

/// The supervisor: one child pid, the lifecycle state, and the last
/// recorded child status, which is also the supervisor's own exit code.
#[derive(Clone, Copy, Debug, PartialEq, Eq, Structural)]
pub struct Supervisor {
    /// Lifecycle state of the supervised child.
    pub state: ChildState,
    /// The pid of the one direct child the supervisor holds.  While
    /// `Dormant` or `Restarting` it is the pid of the child most recently
    /// held; teardown and reaping still target it.
    pub child_pid: i32,
    /// The status byte of the last resolved child exit; zero before the
    /// first one.
    pub last_status: u8,
}

/// The dispatch table of the main loop: one transition per pair of state
/// and event.  Termination preempts everything and leaves the loop; a file
/// change tears the child down and schedules a restart; an exit of the
/// supervised child is resolved against the policy; any other child exit
/// is reaped in passing.
pub open spec fn step_spec(s: Supervisor, ev: Event) -> (Supervisor, Directive) {
    match (ev, s.state) {
        (Event::Terminate, ChildState::Alive) => (
            s,
            Directive::QuitAfterTeardown { pid: s.child_pid },
        ),
        (Event::Terminate, _) => (s, Directive::Quit),
        (Event::FilesChanged, ChildState::Alive) => (
            Supervisor { state: ChildState::Restarting, ..s },
            Directive::TeardownForRestart { pid: s.child_pid },
        ),
        (Event::FilesChanged, ChildState::Dormant) => (
            Supervisor { state: ChildState::Restarting, ..s },
            Directive::Idle,
        ),
        (Event::FilesChanged, ChildState::Restarting) => (s, Directive::Spawn),
        (Event::ChildExit(pid), ChildState::Alive) => if pid == s.child_pid {
            (s, Directive::ResolveChildExit { pid })
        } else {
            (s, Directive::Reap { pid })
        },
        (Event::ChildExit(pid), ChildState::Restarting) => if pid == s.child_pid {
            (s, Directive::ReapThenSpawn { pid })
        } else {
            (s, Directive::Reap { pid })
        },
        (Event::ChildExit(pid), ChildState::Dormant) => (s, Directive::Reap { pid }),
        (Event::Nothing, ChildState::Restarting) => (s, Directive::Spawn),
        (Event::Nothing, _) => (s, Directive::Idle),
    }
}

/// What resolving a child exit does: record the status byte, order the
/// teardown of the child's group, and take the policy's branch.  An
/// unusable wait status changes nothing.
pub open spec fn resolve_spec(s: Supervisor, kind: ExitKind, o: Options) -> (
    Supervisor,
    PolicyDirective,
) {
    if kind is Unknown {
        (s, PolicyDirective::Ignore)
    } else {
        let recorded = Supervisor { last_status: status_of(kind) as u8, ..s };
        match policy_choice(o, status_of(kind)) {
            PolicyChoice::Quit => (
                recorded,
                PolicyDirective::QuitAfterTeardown { pid: s.child_pid },
            ),
            PolicyChoice::Restart => (
                Supervisor { state: ChildState::Restarting, ..recorded },
                PolicyDirective::TeardownThenContinue { pid: s.child_pid },
            ),
            PolicyChoice::Dormant => (
                Supervisor { state: ChildState::Dormant, ..recorded },
                PolicyDirective::TeardownThenContinue { pid: s.child_pid },
            ),
        }
    }
}

impl Supervisor {
    /// A supervisor is well-formed while the pid it holds is a real pid.
    pub open spec fn wf(&self) -> bool {
        self.child_pid > 0
    }

    /// Start supervising the first spawned child.
    pub fn new(first_child: i32) -> (s: Supervisor)
        requires
            first_child > 0,
        ensures
            s == (Supervisor { state: ChildState::Alive, child_pid: first_child, last_status: 0 }),
    {
        Supervisor { state: ChildState::Alive, child_pid: first_child, last_status: 0 }
    }

    /// One main-loop dispatch: act on an event per [`step_spec`].
    pub fn handle_event(&mut self, ev: Event) -> (d: Directive)
        requires
            old(self).wf(),
        ensures
            final(self).wf(),
            (*final(self), d) == step_spec(*old(self), ev),
    {
        match (ev, self.state) {
            (Event::Terminate, ChildState::Alive) => Directive::QuitAfterTeardown {
                pid: self.child_pid,
            },
            (Event::Terminate, _) => Directive::Quit,
            (Event::FilesChanged, ChildState::Alive) => {
                let pid = self.child_pid;
                self.state = ChildState::Restarting;
                Directive::TeardownForRestart { pid }
            },
            (Event::FilesChanged, ChildState::Dormant) => {
                self.state = ChildState::Restarting;
                Directive::Idle
            },
            (Event::FilesChanged, ChildState::Restarting) => Directive::Spawn,
            (Event::ChildExit(pid), ChildState::Alive) => {
                if pid == self.child_pid {
                    Directive::ResolveChildExit { pid }
                } else {
                    Directive::Reap { pid }
                }
            },
            (Event::ChildExit(pid), ChildState::Restarting) => {
                if pid == self.child_pid {
                    Directive::ReapThenSpawn { pid }
                } else {
                    Directive::Reap { pid }
                }
            },
            (Event::ChildExit(pid), ChildState::Dormant) => Directive::Reap { pid },
            (Event::Nothing, ChildState::Restarting) => Directive::Spawn,
            (Event::Nothing, _) => Directive::Idle,
        }
    }

    /// Resolve the supervised child's collected wait status per
    /// [`resolve_spec`]: record the status byte and apply the policy.
    pub fn resolve_exit(&mut self, kind: ExitKind, opts: &Options) -> (d: PolicyDirective)
        requires
            old(self).wf(),
            old(self).state is Alive,
            kind_in_bounds(kind),
        ensures
            final(self).wf(),
            (*final(self), d) == resolve_spec(*old(self), kind, *opts),
    {
        let status: u8 = match kind {
            ExitKind::Exited { code } => code as u8,
            ExitKind::Signaled { signal } => (128 + signal) as u8,
            ExitKind::Unknown => {
                return PolicyDirective::Ignore;
            },
        };
        self.last_status = status;
        if opts.exit_on_zero && status == 0 {
            PolicyDirective::QuitAfterTeardown { pid: self.child_pid }
        } else if opts.exit_on_error && status != 0 {
            PolicyDirective::QuitAfterTeardown { pid: self.child_pid }
        } else if opts.restart_on_zero && status == 0 {
            self.state = ChildState::Restarting;
            PolicyDirective::TeardownThenContinue { pid: self.child_pid }
        } else if opts.restart_on_error && status != 0 {
            self.state = ChildState::Restarting;
            PolicyDirective::TeardownThenContinue { pid: self.child_pid }
        } else {
            self.state = ChildState::Dormant;
            PolicyDirective::TeardownThenContinue { pid: self.child_pid }
        }
    }

    /// Record the pid of a freshly spawned child at the end of a restart.
    pub fn record_spawn(&mut self, pid: i32)
        requires
            old(self).wf(),
            old(self).state is Restarting,
            pid > 0,
        ensures
            *final(self) == (Supervisor {
                state: ChildState::Alive,
                child_pid: pid,
                last_status: old(self).last_status,
            }),
    {
        self.state = ChildState::Alive;
        self.child_pid = pid;
    }

    /// The supervisor's own exit code: the last recorded child status.
    /// Zero when no child exit was ever resolved.
    pub fn exit_code(&self) -> (r: u8)
        ensures
            r == self.last_status,
    {
        self.last_status
    }
}

/// The policy leaves the loop exactly when a set exit flag matches the
/// status's parity: `exit_on_zero` for a zero status, `exit_on_error` for a
/// non-zero one.
pub proof fn lemma_policy_quit_iff(o: Options, status: int)
    ensures
        policy_choice(o, status) == PolicyChoice::Quit <==> ((o.exit_on_zero && status == 0) || (
        o.exit_on_error && status != 0)),
{
}

/// The policy restarts exactly when no exit flag matches the status's
/// parity but a restart flag does: `restart_on_zero` for a zero status,
/// `restart_on_error` for a non-zero one.
pub proof fn lemma_policy_restart_iff(o: Options, status: int)
    ensures
        policy_choice(o, status) == PolicyChoice::Restart <==> (!(o.exit_on_zero && status == 0)
            && !(o.exit_on_error && status != 0) && ((o.restart_on_zero && status == 0) || (
        o.restart_on_error && status != 0))),
{
}

/// When no flag matches the status's parity the supervisor goes dormant,
/// and a dormant supervisor waits indefinitely: only an external trigger
/// advances it.
pub proof fn lemma_policy_dormant_iff(o: Options, status: int)
    ensures
        policy_choice(o, status) == PolicyChoice::Dormant <==> (!(o.exit_on_zero && status == 0)
            && !(o.exit_on_error && status != 0) && !(o.restart_on_zero && status == 0) && !(
        o.restart_on_error && status != 0)),
        step_spec(
            Supervisor { state: ChildState::Dormant, child_pid: 1, last_status: 0 },
            Event::Nothing,
        ).1 == Directive::Idle,
{
}

/// One interaction between the main loop and the supervisor, as abstract
/// input: a wait woke up with an event, a child exit was resolved, or a
/// fresh spawn was recorded.
#[derive(Clone, Copy, Debug, PartialEq, Eq, Structural)]
pub enum LoopInput {
    /// A wait returned this event.
    Woke(Event),
    /// The supervised child's wait status was collected.
    Resolved(ExitKind),
    /// A new child was spawned with this pid.
    Spawned(i32),
}

/// The supervisor after one interaction.  Inputs that the loop can never
/// produce in that state (a resolution without a live child, a spawn
/// outside a restart) leave it unchanged.
pub open spec fn apply_input(s: Supervisor, inp: LoopInput, o: Options) -> Supervisor {
    match inp {
        LoopInput::Woke(ev) => step_spec(s, ev).0,
        LoopInput::Resolved(kind) => if s.state is Alive {
            resolve_spec(s, kind, o).0
        } else {
            s
        },
        LoopInput::Spawned(pid) => if s.state is Restarting && pid > 0 {
            Supervisor { state: ChildState::Alive, child_pid: pid, ..s }
        } else {
            s
        },
    }
}

/// The supervisor after a whole interaction sequence.
pub open spec fn run_inputs(s: Supervisor, inputs: Seq<LoopInput>, o: Options) -> Supervisor
    decreases inputs.len(),
{
    if inputs.len() == 0 {
        s
    } else {
        run_inputs(apply_input(s, inputs[0], o), inputs.drop_first(), o)
    }
}

/// The supervisor never holds more than the one child pid it was given,
/// and along every interaction sequence that pid stays a real, positive
/// pid.
pub proof fn lemma_single_child_pid(s: Supervisor, inputs: Seq<LoopInput>, o: Options)
    requires
        s.wf(),
    ensures
        run_inputs(s, inputs, o).wf(),
    decreases inputs.len(),
{
    if inputs.len() > 0 {
        lemma_single_child_pid(apply_input(s, inputs[0], o), inputs.drop_first(), o);
    }
}

/// The held pid changes only when a fresh spawn is recorded: no event and
/// no exit resolution ever makes the supervisor point at another child.
pub proof fn lemma_pid_changes_only_on_spawn(s: Supervisor, inp: LoopInput, o: Options)
    ensures
        apply_input(s, inp, o).child_pid != s.child_pid ==> inp is Spawned,
{
}

/// Prefix view of [`run_inputs`]: running one more input applies it to the
/// state the prefix reached.
pub proof fn lemma_run_inputs_prefix(s: Supervisor, inputs: Seq<LoopInput>, o: Options, i: int)
    requires
        0 <= i < inputs.len(),
    ensures
        run_inputs(s, inputs.take(i + 1), o) == apply_input(
            run_inputs(s, inputs.take(i), o),
            inputs[i],
            o,
        ),
    decreases i,
{
    if i == 0 {
        assert(inputs.take(1) =~= seq![inputs[0]]);
        assert(inputs.take(0) =~= Seq::<LoopInput>::empty());
        assert(inputs.take(1).drop_first() =~= Seq::<LoopInput>::empty());
        assert(run_inputs(apply_input(s, inputs[0], o), Seq::<LoopInput>::empty(), o)
            == apply_input(s, inputs[0], o));
        assert(run_inputs(s, inputs.take(1), o) == apply_input(s, inputs[0], o));
    } else {
        let s1 = apply_input(s, inputs[0], o);
        let rest = inputs.drop_first();
        assert(inputs.take(i + 1)[0] == inputs[0]);
        assert(inputs.take(i + 1).drop_first() =~= rest.take(i));
        assert(run_inputs(s, inputs.take(i + 1), o) == run_inputs(s1, rest.take(i), o));
        assert(inputs.take(i)[0] == inputs[0]);
        assert(inputs.take(i).drop_first() =~= rest.take(i - 1));
        assert(run_inputs(s, inputs.take(i), o) == run_inputs(s1, rest.take(i - 1), o));
        lemma_run_inputs_prefix(s1, rest, o, i - 1);
        assert(rest[i - 1] == inputs[i]);
    }
}

/// At no point of an interaction sequence does the supervisor's pid move
/// to another child except when a fresh spawn is recorded: between spawns
/// it supervises one and the same child.
pub proof fn lemma_trace_pid_stable_between_spawns(
    s: Supervisor,
    inputs: Seq<LoopInput>,
    o: Options,
    i: int,
)
    requires
        0 <= i < inputs.len(),
    ensures
        run_inputs(s, inputs.take(i + 1), o).child_pid != run_inputs(s, inputs.take(i), o).child_pid
            ==> inputs[i] is Spawned,
{
    lemma_run_inputs_prefix(s, inputs, o, i);
    lemma_pid_changes_only_on_spawn(run_inputs(s, inputs.take(i), o), inputs[i], o);
}

/// How the next wait is performed: while restarting, signals alone with
/// the debounce timeout, the backlog drained afterwards; otherwise a full
/// wait on every source with no timeout.
pub fn wait_plan(state: ChildState) -> (r: WaitPlan)
    ensures
        state is Restarting ==> r == (WaitPlan::SignalsOnlyThenDrain { timeout_ms: DEBOUNCE_MS }),
        !(state is Restarting) ==> r == WaitPlan::WaitForever,
{
    match state {
        ChildState::Restarting => WaitPlan::SignalsOnlyThenDrain { timeout_ms: DEBOUNCE_MS },
        _ => WaitPlan::WaitForever,
    }
}

} // verus!

