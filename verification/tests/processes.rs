use std::sync::Arc;
use std::time::{Duration, Instant};

use portable_pty::{native_pty_system, Child, CommandBuilder, MasterPty, PtySize};
use pty::proxy::shutdown::{wait_with_timeout, ShutdownPhase, ShutdownStep, WaitStatus};
use pty::proxy::trigger::{Action, PendingTrigger};
use tokio::runtime::Runtime;
use tokio::sync::Notify;

fn runtime() -> Runtime {
    tokio::runtime::Builder::new_current_thread()
        .enable_all()
        .build()
        .expect("current-thread runtime")
}

#[test]
fn resolved_defer_debounce_drives_notify_one() {
    runtime().block_on(async {
        let notify = Arc::new(Notify::new());
        let mut pending = PendingTrigger::new();
        pending.stash(Action::Debounce);
        let resolved = pending.resolve(true, false);
        assert_eq!(resolved, Some(Action::Debounce));
        if let Some(Action::Debounce) = resolved {
            notify.notify_one();
        }
        tokio::time::timeout(Duration::from_millis(100), notify.notified())
            .await
            .expect("notify_one must wake a parked waiter");
    });
}

struct SpawnedTestChild {
    child: Box<dyn Child + Send + Sync>,
    // Held so that the slave side of the terminal stays open: dropping the master would
    // hang the child up.
    _master: Box<dyn MasterPty + Send>,
}

fn spawn_child(argv: &[&str]) -> SpawnedTestChild {
    let pair = native_pty_system()
        .openpty(PtySize {
            rows: 24,
            cols: 80,
            pixel_width: 0,
            pixel_height: 0,
        })
        .expect("openpty");
    let mut cmd = CommandBuilder::new(argv[0]);
    for a in &argv[1..] {
        cmd.arg(a);
    }
    let child = pair.slave.spawn_command(cmd).expect("spawn_command");
    drop(pair.slave);
    SpawnedTestChild {
        child,
        _master: pair.master,
    }
}

/// Does what the shutdown asks for, until it has an exit code.
fn shut_down(child: &mut (dyn Child + Send + Sync), deadline: Duration) -> i32 {
    let deadline_ms = deadline.as_millis() as u64;
    let mut phase = ShutdownPhase::Waiting;
    let mut start = Instant::now();
    loop {
        let status = match child.try_wait() {
            Ok(Some(status)) => WaitStatus::Exited(status.exit_code()),
            Ok(None) => WaitStatus::Running,
            Err(_) => WaitStatus::Failed,
        };
        let elapsed = start.elapsed().as_millis() as u64;
        match wait_with_timeout(phase, status, elapsed, deadline_ms) {
            ShutdownStep::Finish(code) => return code,
            ShutdownStep::Sleep(ms) => {
                runtime().block_on(tokio::time::sleep(Duration::from_millis(ms)))
            }
            ShutdownStep::Kill => {
                child.kill().expect("kill");
                phase = ShutdownPhase::Reaping;
                start = Instant::now();
            }
        }
    }
}

#[test]
fn wait_with_timeout_returns_before_deadline_for_live_child() {
    let mut spawned = spawn_child(&["sleep", "30"]);
    let pid_before = spawned.child.process_id();
    let start = Instant::now();
    let code = shut_down(spawned.child.as_mut(), Duration::from_millis(200));
    let elapsed = start.elapsed();
    assert!(
        elapsed < Duration::from_millis(1500),
        "wait_with_timeout must return promptly, took {elapsed:?}"
    );
    assert!(
        matches!(spawned.child.try_wait(), Ok(Some(_))),
        "child must be reaped (pid was {pid_before:?})"
    );
    assert_ne!(
        code, 143,
        "live child must be reaped within bound, not reported as orphan"
    );
}

#[test]
fn wait_with_timeout_kills_child_that_ignores_sigterm() {
    let mut spawned = spawn_child(&["sh", "-c", "trap \"\" TERM; sleep 30"]);
    let start = Instant::now();
    let code = shut_down(spawned.child.as_mut(), Duration::from_millis(200));
    let elapsed = start.elapsed();
    assert!(
        elapsed < Duration::from_millis(2000),
        "SIGTERM-ignoring child must still be reaped within bound, took {elapsed:?}"
    );
    assert!(
        matches!(spawned.child.try_wait(), Ok(Some(_))),
        "SIGTERM-ignoring child must have been SIGKILLed and reaped"
    );
    assert_ne!(
        code, 143,
        "SIGKILL path must reap the child, not leave it orphaned"
    );
}
