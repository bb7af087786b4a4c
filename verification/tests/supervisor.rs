use runar::event::Event;
use runar::options::Options;
use runar::supervisor::{
    wait_plan, ChildState, Directive, ExitKind, PolicyDirective, Supervisor, WaitPlan, DEBOUNCE_MS,
};

fn opts(exit_on_zero: bool, exit_on_error: bool, restart_on_zero: bool, restart_on_error: bool) -> Options {
    Options {
        exit_on_zero,
        exit_on_error,
        restart_on_zero,
        restart_on_error,
        recursive: false,
        verbose: false,
        kill_timer: 5000,
        command: vec!["prog".to_string()],
        files: vec![],
    }
}

fn sup(state: ChildState, pid: i32) -> Supervisor {
    Supervisor { state, child_pid: pid, last_status: 0 }
}

#[test]
fn terminate_while_alive_tears_down_and_quits() {
    let mut s = sup(ChildState::Alive, 42);
    let d = s.handle_event(Event::Terminate);
    assert_eq!(d, Directive::QuitAfterTeardown { pid: 42 });
    assert_eq!(s.state, ChildState::Alive);
}

#[test]
fn terminate_while_dormant_or_restarting_just_quits() {
    let mut s = sup(ChildState::Dormant, 42);
    assert_eq!(s.handle_event(Event::Terminate), Directive::Quit);

    let mut s = sup(ChildState::Restarting, 42);
    assert_eq!(s.handle_event(Event::Terminate), Directive::Quit);
}

#[test]
fn files_changed_while_alive_schedules_restart() {
    let mut s = sup(ChildState::Alive, 42);
    let d = s.handle_event(Event::FilesChanged);
    assert_eq!(d, Directive::TeardownForRestart { pid: 42 });
    assert_eq!(s.state, ChildState::Restarting);
}

#[test]
fn files_changed_while_dormant_schedules_restart() {
    let mut s = sup(ChildState::Dormant, 42);
    let d = s.handle_event(Event::FilesChanged);
    assert_eq!(d, Directive::Idle);
    assert_eq!(s.state, ChildState::Restarting);
}

#[test]
fn own_child_exit_is_resolved() {
    let mut s = sup(ChildState::Alive, 42);
    let d = s.handle_event(Event::ChildExit(42));
    assert_eq!(d, Directive::ResolveChildExit { pid: 42 });
    assert_eq!(s.state, ChildState::Alive);
}

#[test]
fn foreign_child_exit_is_reaped_in_every_state() {
    for state in [ChildState::Alive, ChildState::Dormant, ChildState::Restarting] {
        let mut s = sup(state, 42);
        let d = s.handle_event(Event::ChildExit(99));
        assert_eq!(d, Directive::Reap { pid: 99 });
        assert_eq!(s.state, state);
    }
}

#[test]
fn own_exit_during_debounce_reaps_and_respawns() {
    let mut s = sup(ChildState::Restarting, 42);
    let d = s.handle_event(Event::ChildExit(42));
    assert_eq!(d, Directive::ReapThenSpawn { pid: 42 });
    s.record_spawn(43);
    assert_eq!(s.state, ChildState::Alive);
    assert_eq!(s.child_pid, 43);
}

#[test]
fn debounce_expiry_spawns() {
    let mut s = sup(ChildState::Restarting, 42);
    let d = s.handle_event(Event::Nothing);
    assert_eq!(d, Directive::Spawn);
    s.record_spawn(50);
    assert_eq!(s.state, ChildState::Alive);
    assert_eq!(s.child_pid, 50);
}

#[test]
fn nothing_is_idle_outside_restart() {
    let mut s = sup(ChildState::Alive, 42);
    assert_eq!(s.handle_event(Event::Nothing), Directive::Idle);
    let mut s = sup(ChildState::Dormant, 42);
    assert_eq!(s.handle_event(Event::Nothing), Directive::Idle);
}

#[test]
fn wait_plan_follows_state() {
    assert_eq!(
        wait_plan(ChildState::Restarting),
        WaitPlan::SignalsOnlyThenDrain { timeout_ms: DEBOUNCE_MS }
    );
    assert_eq!(DEBOUNCE_MS, 100);
    assert_eq!(wait_plan(ChildState::Alive), WaitPlan::WaitForever);
    assert_eq!(wait_plan(ChildState::Dormant), WaitPlan::WaitForever);
}

#[test]
fn exit_flag_with_success() {
    // Exit-on-success: the child ends with status zero and the supervisor
    // leaves the loop with exit code zero after one run.
    let o = opts(true, false, false, false);
    let mut s = Supervisor::new(5);
    let d = s.handle_event(Event::ChildExit(5));
    assert_eq!(d, Directive::ResolveChildExit { pid: 5 });
    let p = s.resolve_exit(ExitKind::Exited { code: 0 }, &o);
    assert_eq!(p, PolicyDirective::QuitAfterTeardown { pid: 5 });
    assert_eq!(s.exit_code(), 0);
}

#[test]
fn exit_on_error_flag_with_error() {
    // Exit-on-error: the child exits 13 and the supervisor exits 13 after
    // one run.
    let o = opts(false, true, false, false);
    let mut s = Supervisor::new(5);
    s.handle_event(Event::ChildExit(5));
    let p = s.resolve_exit(ExitKind::Exited { code: 13 }, &o);
    assert_eq!(p, PolicyDirective::QuitAfterTeardown { pid: 5 });
    assert_eq!(s.exit_code(), 13);
}

#[test]
fn exit_flag_ignores_error_status() {
    let o = opts(true, false, false, false);
    let mut s = Supervisor::new(5);
    let p = s.resolve_exit(ExitKind::Exited { code: 13 }, &o);
    assert_eq!(p, PolicyDirective::TeardownThenContinue { pid: 5 });
    assert_eq!(s.state, ChildState::Dormant);
    assert_eq!(s.exit_code(), 13);
}

#[test]
fn restart_flag_restarts_on_zero_only() {
    let o = opts(false, false, true, false);
    let mut s = Supervisor::new(5);
    let p = s.resolve_exit(ExitKind::Exited { code: 0 }, &o);
    assert_eq!(p, PolicyDirective::TeardownThenContinue { pid: 5 });
    assert_eq!(s.state, ChildState::Restarting);

    let mut s = Supervisor::new(5);
    let p = s.resolve_exit(ExitKind::Exited { code: 7 }, &o);
    assert_eq!(p, PolicyDirective::TeardownThenContinue { pid: 5 });
    assert_eq!(s.state, ChildState::Dormant);
}

#[test]
fn restart_on_error_flag_restarts_on_error_only() {
    let o = opts(false, false, false, true);
    let mut s = Supervisor::new(5);
    let p = s.resolve_exit(ExitKind::Exited { code: 13 }, &o);
    assert_eq!(p, PolicyDirective::TeardownThenContinue { pid: 5 });
    assert_eq!(s.state, ChildState::Restarting);
    assert_eq!(s.exit_code(), 13);

    let mut s = Supervisor::new(5);
    s.resolve_exit(ExitKind::Exited { code: 0 }, &o);
    assert_eq!(s.state, ChildState::Dormant);
}

#[test]
fn no_matching_flag_goes_dormant() {
    // With no policy flag matching the outcome the supervisor becomes
    // dormant and only waits; the status is still recorded.
    let o = opts(false, false, false, false);
    let mut s = Supervisor::new(5);
    let p = s.resolve_exit(ExitKind::Exited { code: 13 }, &o);
    assert_eq!(p, PolicyDirective::TeardownThenContinue { pid: 5 });
    assert_eq!(s.state, ChildState::Dormant);
    assert_eq!(s.exit_code(), 13);
    assert_eq!(wait_plan(s.state), WaitPlan::WaitForever);
}

#[test]
fn exit_flags_win_over_restart_flags() {
    let o = opts(true, true, true, true);
    let mut s = Supervisor::new(5);
    let p = s.resolve_exit(ExitKind::Exited { code: 0 }, &o);
    assert_eq!(p, PolicyDirective::QuitAfterTeardown { pid: 5 });
    let mut s = Supervisor::new(5);
    let p = s.resolve_exit(ExitKind::Exited { code: 2 }, &o);
    assert_eq!(p, PolicyDirective::QuitAfterTeardown { pid: 5 });
}

#[test]
fn signaled_exit_records_high_status() {
    let o = opts(false, true, false, false);
    let mut s = Supervisor::new(5);
    let p = s.resolve_exit(ExitKind::Signaled { signal: 9 }, &o);
    assert_eq!(p, PolicyDirective::QuitAfterTeardown { pid: 5 });
    assert_eq!(s.exit_code(), 137);
}

#[test]
fn unknown_wait_status_is_ignored() {
    let o = opts(true, true, true, true);
    let mut s = Supervisor::new(5);
    s.last_status = 3;
    let p = s.resolve_exit(ExitKind::Unknown, &o);
    assert_eq!(p, PolicyDirective::Ignore);
    assert_eq!(s.state, ChildState::Alive);
    assert_eq!(s.exit_code(), 3);
}

#[test]
fn file_watch() {
    // One write to a watched path yields exactly one restart: teardown,
    // debounce, a single spawn.
    let mut s = Supervisor::new(10);
    let d = s.handle_event(Event::FilesChanged);
    assert_eq!(d, Directive::TeardownForRestart { pid: 10 });
    assert_eq!(wait_plan(s.state), WaitPlan::SignalsOnlyThenDrain { timeout_ms: 100 });
    // The torn-down child's SIGCHLD arrives during the debounce.
    let d = s.handle_event(Event::ChildExit(10));
    assert_eq!(d, Directive::ReapThenSpawn { pid: 10 });
    s.record_spawn(11);
    assert_eq!(s.state, ChildState::Alive);
    assert_eq!(s.child_pid, 11);
    // Back to a full wait: no second restart is pending.
    assert_eq!(wait_plan(s.state), WaitPlan::WaitForever);
}

#[test]
fn multiple_writes() {
    // A burst of writes is coalesced: while restarting, the wait listens
    // to signals alone and the inotify backlog is discarded, so the burst
    // produces one spawn.
    let mut s = Supervisor::new(10);
    s.handle_event(Event::FilesChanged);
    assert_eq!(s.state, ChildState::Restarting);
    match wait_plan(s.state) {
        WaitPlan::SignalsOnlyThenDrain { timeout_ms } => assert_eq!(timeout_ms, 100),
        WaitPlan::WaitForever => panic!("burst would schedule a second restart"),
    }
    // Debounce passes with nothing but the backlog, which was discarded.
    let d = s.handle_event(Event::Nothing);
    assert_eq!(d, Directive::Spawn);
    s.record_spawn(12);
    assert_eq!(s.state, ChildState::Alive);
}

#[test]
fn grandchild_cleanup() {
    // An orphaned grandchild re-parented to the supervisor is reaped in
    // passing, whatever the state; the direct child is untouched.
    let mut s = Supervisor::new(20);
    let d = s.handle_event(Event::ChildExit(33));
    assert_eq!(d, Directive::Reap { pid: 33 });
    assert_eq!(s.child_pid, 20);
    assert_eq!(s.state, ChildState::Alive);
}

#[test]
fn terminate_after_dormancy_exits_with_last_status() {
    let o = opts(false, false, false, false);
    let mut s = Supervisor::new(5);
    s.resolve_exit(ExitKind::Exited { code: 4 }, &o);
    assert_eq!(s.state, ChildState::Dormant);
    let d = s.handle_event(Event::Terminate);
    assert_eq!(d, Directive::Quit);
    assert_eq!(s.exit_code(), 4);
}

#[test]
fn exit_code_is_zero_before_any_exit() {
    let s = Supervisor::new(5);
    assert_eq!(s.exit_code(), 0);
}

#[test]
fn parsed_flags_drive_the_policy() {
    // The whole decision path in one piece: command line in, exit code
    // out.  With exit-on-error set, a child that fails with 13 ends the
    // supervision with 13.
    let o = runar::parse::parse_args(
        vec!["-E", "--", "prog", "foo", "error"].into_iter().map(|s| s.to_string()).collect(),
    )
    .unwrap();
    assert_eq!(o.command, vec!["prog", "foo", "error"]);

    let mut s = Supervisor::new(8);
    assert_eq!(s.handle_event(Event::ChildExit(8)), Directive::ResolveChildExit { pid: 8 });
    let p = s.resolve_exit(ExitKind::Exited { code: 13 }, &o);
    assert_eq!(p, PolicyDirective::QuitAfterTeardown { pid: 8 });
    assert_eq!(s.exit_code(), 13);
}
