use runar::parse::parse_args;
use runar::teardown::{
    escalate_after_reaps, reap_step, teardown_should_wait, ReapOutcome, ReapStep, TermSendResult,
};
use runar::watch::{check_watch_targets, PathProbe, SetupError, SETUP_FAILURE_CODE};

#[test]
fn grace_period_only_after_delivered_sigterm() {
    assert!(teardown_should_wait(&TermSendResult::Delivered));
    assert!(!teardown_should_wait(&TermSendResult::GroupGone));
    assert!(!teardown_should_wait(&TermSendResult::Failed));
}

#[test]
fn reap_steps() {
    assert_eq!(reap_step(&ReapOutcome::StillAlive), ReapStep::Escalate);
    assert_eq!(reap_step(&ReapOutcome::Reaped), ReapStep::KeepReaping);
    assert_eq!(reap_step(&ReapOutcome::NoneLeft), ReapStep::Done);
}

#[test]
fn uninterruptible_cmd() {
    // A child that ignores SIGTERM is still alive after the grace period:
    // the group gets SIGKILLed and the next spawn proceeds.
    assert!(escalate_after_reaps(&vec![ReapOutcome::StillAlive]));
    assert!(escalate_after_reaps(&vec![ReapOutcome::Reaped, ReapOutcome::StillAlive]));
}

#[test]
fn prompt_exits_need_no_sigkill() {
    assert!(!escalate_after_reaps(&vec![]));
    assert!(!escalate_after_reaps(&vec![ReapOutcome::NoneLeft]));
    assert!(!escalate_after_reaps(&vec![
        ReapOutcome::Reaped,
        ReapOutcome::Reaped,
        ReapOutcome::NoneLeft,
    ]));
}

#[test]
fn all_paths_watched_is_success() {
    assert_eq!(check_watch_targets(&vec![]), Ok(()));
    assert_eq!(check_watch_targets(&vec![PathProbe::Watched, PathProbe::Watched]), Ok(()));
}

#[test]
fn file_not_found() {
    // A missing watch target is a fatal setup error with exit code 1,
    // whether it stands alone or behind valid ones.
    let o = parse_args(
        vec!["-f", "./does_not_exist", "--", "prog", "foo", "success"]
            .into_iter()
            .map(|s| s.to_string())
            .collect(),
    )
    .unwrap();
    assert!(!o.recursive);
    let r = check_watch_targets(&vec![PathProbe::Missing]);
    assert_eq!(r, Err(SetupError::MissingPath { index: 0 }));
    assert_eq!(SETUP_FAILURE_CODE, 1);

    let r = check_watch_targets(&vec![PathProbe::Watched, PathProbe::Missing]);
    assert_eq!(r, Err(SetupError::MissingPath { index: 1 }));
}

#[test]
fn recursive_file_not_found() {
    // The recursive flag changes nothing about the failure: same error,
    // same exit code.
    let o = parse_args(
        vec!["-r", "-f", "./does_not_exist", "--", "prog", "foo", "success"]
            .into_iter()
            .map(|s| s.to_string())
            .collect(),
    )
    .unwrap();
    assert!(o.recursive);
    let r = check_watch_targets(&vec![PathProbe::Missing]);
    assert_eq!(r, Err(SetupError::MissingPath { index: 0 }));
    assert_eq!(SETUP_FAILURE_CODE, 1);
}

#[test]
fn other_watch_errors_are_fatal_too() {
    let r = check_watch_targets(&vec![PathProbe::Watched, PathProbe::Failed, PathProbe::Missing]);
    assert_eq!(r, Err(SetupError::WatchFailed { index: 1 }));
}
