use runar::event::{
    combine_events, drain_acceptable, min_event, priority_of, readiness_event, signal_event,
    signal_mask, signal_unexpected, DrainStatus, Event, Readiness, SignalRead, SIGCHLD_NO,
    SIGHUP_NO, SIGINT_NO, SIGTERM_NO,
};

#[test]
fn priorities_are_ordered() {
    assert!(priority_of(Event::Terminate) < priority_of(Event::FilesChanged));
    assert!(priority_of(Event::FilesChanged) < priority_of(Event::ChildExit(1)));
    assert!(priority_of(Event::ChildExit(1)) < priority_of(Event::Nothing));
}

#[test]
fn min_event_prefers_higher_priority() {
    assert_eq!(min_event(Event::Nothing, Event::Terminate), Event::Terminate);
    assert_eq!(min_event(Event::FilesChanged, Event::ChildExit(7)), Event::FilesChanged);
    assert_eq!(min_event(Event::ChildExit(7), Event::Terminate), Event::Terminate);
    assert_eq!(min_event(Event::Nothing, Event::Nothing), Event::Nothing);
}

#[test]
fn min_event_breaks_child_exit_ties_by_pid() {
    assert_eq!(min_event(Event::ChildExit(9), Event::ChildExit(3)), Event::ChildExit(3));
    assert_eq!(min_event(Event::ChildExit(3), Event::ChildExit(9)), Event::ChildExit(3));
}

#[test]
fn combine_of_nothing_ready_is_nothing() {
    assert_eq!(combine_events(&vec![]), Event::Nothing);
}

#[test]
fn combine_picks_the_minimum() {
    let evs = vec![Event::ChildExit(8), Event::FilesChanged, Event::Nothing];
    assert_eq!(combine_events(&evs), Event::FilesChanged);

    let evs = vec![Event::FilesChanged, Event::Terminate];
    assert_eq!(combine_events(&evs), Event::Terminate);

    let evs = vec![Event::ChildExit(8)];
    assert_eq!(combine_events(&evs), Event::ChildExit(8));
}

#[test]
fn terminating_signals_map_to_terminate() {
    for signo in [SIGHUP_NO, SIGINT_NO, SIGTERM_NO] {
        let e = signal_event(&SignalRead::Info { signo, sender_pid: 1 });
        assert_eq!(e, Event::Terminate);
        assert!(!signal_unexpected(&SignalRead::Info { signo, sender_pid: 1 }));
    }
}

#[test]
fn sigchld_maps_to_child_exit_with_sender_pid() {
    let e = signal_event(&SignalRead::Info { signo: SIGCHLD_NO, sender_pid: 77 });
    assert_eq!(e, Event::ChildExit(77));
}

#[test]
fn unexpected_signal_terminates_defensively() {
    // SIGUSR1 is outside the blocked set.
    let read = SignalRead::Info { signo: 10, sender_pid: 1 };
    assert_eq!(signal_event(&read), Event::Terminate);
    assert!(signal_unexpected(&read));
}

#[test]
fn spurious_wake_contributes_nothing() {
    assert_eq!(signal_event(&SignalRead::Empty), Event::Nothing);
    assert!(!signal_unexpected(&SignalRead::Empty));
}

#[test]
fn failed_signal_read_terminates() {
    assert_eq!(signal_event(&SignalRead::Failed), Event::Terminate);
}

#[test]
fn readiness_contributions() {
    assert_eq!(readiness_event(&Readiness::Watched), Event::FilesChanged);
    assert_eq!(readiness_event(&Readiness::Unknown), Event::Terminate);
    assert_eq!(
        readiness_event(&Readiness::Signal(SignalRead::Info { signo: SIGCHLD_NO, sender_pid: 4 })),
        Event::ChildExit(4)
    );
}

#[test]
fn one_wake_with_several_ready_sources() {
    // Signal and watcher ready at once: the file change preempts the
    // child exit, termination preempts both.
    let contributions = vec![
        readiness_event(&Readiness::Signal(SignalRead::Info { signo: SIGCHLD_NO, sender_pid: 5 })),
        readiness_event(&Readiness::Watched),
    ];
    assert_eq!(combine_events(&contributions), Event::FilesChanged);

    let contributions = vec![
        readiness_event(&Readiness::Watched),
        readiness_event(&Readiness::Signal(SignalRead::Info { signo: SIGTERM_NO, sender_pid: 1 })),
    ];
    assert_eq!(combine_events(&contributions), Event::Terminate);
}

#[test]
fn mask_is_the_four_supervision_signals() {
    // The mask the supervisor blocks and hands to its signal descriptor:
    // SIGHUP, SIGINT, SIGTERM, SIGCHLD, nothing else.
    assert_eq!(signal_mask(), vec![1, 2, 15, 17]);
}

#[test]
fn empty_drain_is_not_an_error() {
    assert!(drain_acceptable(&DrainStatus::Drained));
    assert!(drain_acceptable(&DrainStatus::Empty));
    assert!(!drain_acceptable(&DrainStatus::Failed));
}
