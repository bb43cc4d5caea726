use brewinget::detect::OpStatus;
use brewinget::op::{spawn_failure_line, OpRun, OpStep};
use brewinget::queue::{PkgStatus, QueueControl, QueueEvent, QueueRequest, QueueRun};

fn out(s: &str) -> QueueEvent {
    QueueEvent::Output(s.to_string())
}

#[test]
fn control_skip_and_abort() {
    let mut c = QueueControl::new();
    assert!(!c.should_skip("Git.Git"));
    assert!(!c.should_abort());
    c.add_skip("Git.Git".to_string());
    c.add_skip("Git.Git".to_string());
    assert!(c.should_skip("Git.Git"));
    assert!(!c.should_skip("Git"));
    assert!(!c.should_abort());
    c.set_abort();
    assert!(c.should_abort());
    assert!(c.should_skip("Git.Git"));
    c.reset();
    assert!(!c.should_skip("Git.Git"));
    assert!(!c.should_abort());
}

#[test]
fn abort_sticks_over_later_requests() {
    let mut c = QueueControl::new();
    c.add_skip("A".to_string());
    c.set_abort();
    for _ in 0..3 {
        c.add_skip("B".to_string());
        c.set_abort();
        assert!(c.should_abort());
    }
    assert!(c.should_skip("A") && c.should_skip("B") && !c.should_skip("C"));
    c.reset();
    assert!(!c.should_abort() && !c.should_skip("A"));
}

#[test]
fn op_run_retries_once_after_silent_failure() {
    let op = OpRun::new(true);
    assert!(op.next_silent());
    let (op, step) = op.record(false, "a".to_string(), Some(1));
    assert_eq!(step, OpStep::RetryWithoutSilent);
    assert!(!op.next_silent());
    let (_, step) = op.record(false, "b".to_string(), Some(2));
    assert_eq!(step, OpStep::Finished { ok: false, output: "ab".to_string(), exit_code: Some(2) });
}

#[test]
fn op_run_no_retry_when_not_silent_or_ok() {
    let op = OpRun::new(false);
    assert!(!op.next_silent());
    let (_, step) = op.record(false, "x".to_string(), None);
    assert_eq!(step, OpStep::Finished { ok: false, output: "x".to_string(), exit_code: None });
    let op = OpRun::new(true);
    let (_, step) = op.record(true, "done".to_string(), Some(0));
    assert_eq!(step, OpStep::Finished { ok: true, output: "done".to_string(), exit_code: Some(0) });
}

#[test]
fn op_run_without_fallback_makes_one_attempt() {
    let op = OpRun::without_fallback(true);
    assert!(op.next_silent());
    let (_, step) = op.record(false, "failed".to_string(), Some(3));
    assert_eq!(step, OpStep::Finished { ok: false, output: "failed".to_string(), exit_code: Some(3) });
    let op = OpRun::without_fallback(false);
    assert!(!op.next_silent());
    let (_, step) = op.record(true, "ok".to_string(), Some(0));
    assert_eq!(step, OpStep::Finished { ok: true, output: "ok".to_string(), exit_code: Some(0) });
}

#[test]
fn spawn_failure_message() {
    assert_eq!(spawn_failure_line("program not found"), "Error: program not found");
}

#[test]
fn queue_scenario_update_skip_abort() {
    let pkgs = vec!["A".to_string(), "B".to_string(), "C".to_string()];
    let (mut q, evs) = QueueRun::start(pkgs, true);
    assert!(evs.is_empty());
    assert_eq!(q.request(), QueueRequest::Control { package: "A".to_string() });
    let evs = q.on_control(false, false);
    assert_eq!(
        evs,
        vec![
            QueueEvent::PkgStart { name: "A".to_string(), index: 1, total: 3 },
            out("\n── Updating A (1/3) ──"),
        ]
    );
    assert_eq!(q.request(), QueueRequest::Upgrade { package: "A".to_string(), silent: true });
    let evs = q.on_attempt(false, "err1".to_string(), Some(1));
    assert_eq!(evs, vec![out("⚠  Silent update failed — retrying without --silent…")]);
    assert_eq!(q.request(), QueueRequest::Upgrade { package: "A".to_string(), silent: false });
    let evs = q.on_attempt(true, "ok".to_string(), Some(0));
    assert_eq!(
        evs,
        vec![
            out("✓ A updated."),
            QueueEvent::PkgDone { name: "A".to_string(), status: PkgStatus::Success },
        ]
    );
    assert_eq!(q.request(), QueueRequest::Control { package: "B".to_string() });
    let evs = q.on_control(false, true);
    assert_eq!(
        evs,
        vec![
            QueueEvent::PkgDone { name: "B".to_string(), status: PkgStatus::Skipped },
            out("⏭  Skipped: B"),
        ]
    );
    assert_eq!(q.request(), QueueRequest::Control { package: "C".to_string() });
    let evs = q.on_control(true, false);
    assert_eq!(
        evs,
        vec![
            out("⛔  Aborted — remaining packages skipped."),
            out("\n── Done: 1 updated, 0 failed, 2 skipped ──"),
            QueueEvent::Complete(OpStatus::Success),
        ]
    );
    assert_eq!(q.request(), QueueRequest::Finished);
}

#[test]
fn queue_empty_finishes_at_once() {
    let (q, evs) = QueueRun::start(Vec::new(), false);
    assert_eq!(
        evs,
        vec![out("\n── Done: 0 updated, 0 failed, 0 skipped ──"), QueueEvent::Complete(OpStatus::Success)]
    );
    assert_eq!(q.request(), QueueRequest::Finished);
}

#[test]
fn queue_judges_both_attempts_together() {
    let (mut q, _) = QueueRun::start(vec!["Slack".to_string()], true);
    q.on_control(false, false);
    q.on_attempt(false, "file is in use".to_string(), Some(5));
    let evs = q.on_attempt(false, "boom".to_string(), Some(1));
    assert_eq!(
        evs,
        vec![
            out("⚠  Slack: close the app to update."),
            QueueEvent::PkgDone { name: "Slack".to_string(), status: PkgStatus::AppRunning },
            out("\n── Done: 0 updated, 1 failed, 0 skipped ──"),
            QueueEvent::Complete(OpStatus::Success),
        ]
    );
    assert_eq!(q.request(), QueueRequest::Finished);
}

#[test]
fn queue_plain_failure_without_retry() {
    let (mut q, _) = QueueRun::start(vec!["X".to_string(), "Y".to_string()], false);
    q.on_control(false, false);
    assert_eq!(q.request(), QueueRequest::Upgrade { package: "X".to_string(), silent: false });
    let evs = q.on_attempt(false, "bad".to_string(), Some(1));
    assert_eq!(
        evs,
        vec![out("✕ X update failed."), QueueEvent::PkgDone { name: "X".to_string(), status: PkgStatus::Error }]
    );
    assert_eq!(q.request(), QueueRequest::Control { package: "Y".to_string() });
    let evs = q.on_control(false, true);
    assert_eq!(evs.len(), 4);
    assert_eq!(evs[2], out("\n── Done: 0 updated, 1 failed, 1 skipped ──"));
    assert_eq!(PkgStatus::Skipped.name(), "skipped");
    assert_eq!(PkgStatus::AppRunning.name(), "app-running");
}
