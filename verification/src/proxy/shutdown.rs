//! Waiting for the shell to end on a signal.
//!
//! The shell can hang on a terminal that it has inherited, so every wait is bounded.

use vstd::prelude::*;

verus! {

/// How often the shell is looked at.
pub const POLL_INTERVAL_MS: u64 = 50;

/// How long the shell has to end on its own.
pub const SHUTDOWN_DEADLINE_MS: u64 = 2000;

/// How long a killed shell has to end.
pub const REAP_DEADLINE_MS: u64 = 500;

/// The exit code where the shell does not end: that of a process that was terminated.
pub const TERMINATED_EXIT_CODE: i32 = 143;

/// What is known of the shell.
#[derive(Debug, Clone, Copy, PartialEq, Eq, Structural)]
pub enum WaitStatus {
    Exited(u32),
    Running,
    /// It cannot be known.
    Failed,
}

/// What to do while waiting for the shell.
#[derive(Debug, Clone, Copy, PartialEq, Eq, Structural)]
pub enum PollStep {
    Exited(i32),
    /// It does not end in time.
    GaveUp,
    /// Look again after so long.
    Sleep(u64),
}

/// How far the shutdown has come.
#[derive(Debug, Clone, Copy, PartialEq, Eq, Structural)]
pub enum ShutdownPhase {
    /// The shell may end on its own.
    Waiting,
    /// The shell was killed.
    Reaping,
}

/// What to do next in a shutdown.
#[derive(Debug, Clone, Copy, PartialEq, Eq, Structural)]
pub enum ShutdownStep {
    Finish(i32),
    Sleep(u64),
    /// Kill the shell, and go on with the next phase.
    Kill,
}

/// The exit code of a shell as that of the proxy: one where it does not fit.
pub open spec fn exit_code_of(code: u32) -> i32 {
    if code <= i32::MAX {
        code as i32
    } else {
        1
    }
}

pub fn exit_code(code: u32) -> (exit: i32)
    ensures
        exit == exit_code_of(code),
{
    if code <= 0x7FFF_FFFF {
        code as i32
    } else {
        1
    }
}

/// What to do for a shell that has been waited for so long.
pub open spec fn polled(status: WaitStatus, elapsed_ms: u64, deadline_ms: u64) -> PollStep {
    match status {
        WaitStatus::Exited(code) => PollStep::Exited(exit_code_of(code)),
        WaitStatus::Running => if elapsed_ms >= deadline_ms {
            PollStep::GaveUp
        } else {
            PollStep::Sleep(POLL_INTERVAL_MS)
        },
        WaitStatus::Failed => PollStep::GaveUp,
    }
}

/// One look at the shell.
pub fn poll_until(status: WaitStatus, elapsed_ms: u64, deadline_ms: u64) -> (step: PollStep)
    ensures
        step == polled(status, elapsed_ms, deadline_ms),
{
    match status {
        WaitStatus::Exited(code) => PollStep::Exited(exit_code(code)),
        WaitStatus::Running => if elapsed_ms >= deadline_ms {
            PollStep::GaveUp
        } else {
            PollStep::Sleep(POLL_INTERVAL_MS)
        },
        WaitStatus::Failed => PollStep::GaveUp,
    }
}

/// The next step of a shutdown. Each phase has a deadline.
pub open spec fn shutdown_step(
    phase: ShutdownPhase,
    status: WaitStatus,
    elapsed_ms: u64,
    deadline_ms: u64,
) -> ShutdownStep {
    match phase {
        ShutdownPhase::Waiting => match polled(status, elapsed_ms, deadline_ms) {
            PollStep::Exited(code) => ShutdownStep::Finish(code),
            PollStep::GaveUp => ShutdownStep::Kill,
            PollStep::Sleep(ms) => ShutdownStep::Sleep(ms),
        },
        ShutdownPhase::Reaping => match polled(status, elapsed_ms, REAP_DEADLINE_MS) {
            PollStep::Exited(code) => ShutdownStep::Finish(code),
            PollStep::GaveUp => ShutdownStep::Finish(TERMINATED_EXIT_CODE),
            PollStep::Sleep(ms) => ShutdownStep::Sleep(ms),
        },
    }
}

/// What to do next in a shutdown, `elapsed_ms` after its phase has begun.
pub fn wait_with_timeout(
    phase: ShutdownPhase,
    status: WaitStatus,
    elapsed_ms: u64,
    deadline_ms: u64,
) -> (step: ShutdownStep)
    ensures
        step == shutdown_step(phase, status, elapsed_ms, deadline_ms),
{
    match phase {
        ShutdownPhase::Waiting => match poll_until(status, elapsed_ms, deadline_ms) {
            PollStep::Exited(code) => ShutdownStep::Finish(code),
            PollStep::GaveUp => ShutdownStep::Kill,
            PollStep::Sleep(ms) => ShutdownStep::Sleep(ms),
        },
        ShutdownPhase::Reaping => match poll_until(status, elapsed_ms, REAP_DEADLINE_MS) {
            PollStep::Exited(code) => ShutdownStep::Finish(code),
            PollStep::GaveUp => ShutdownStep::Finish(TERMINATED_EXIT_CODE),
            PollStep::Sleep(ms) => ShutdownStep::Sleep(ms),
        },
    }
}

// ---- Laws ----

/// No phase of a shutdown sleeps past its deadline.
pub proof fn law_shutdown_is_bounded(
    phase: ShutdownPhase,
    status: WaitStatus,
    elapsed_ms: u64,
    deadline_ms: u64,
)
    requires
        phase is Waiting ==> elapsed_ms >= deadline_ms,
        phase is Reaping ==> elapsed_ms >= REAP_DEADLINE_MS,
    ensures
        !(shutdown_step(phase, status, elapsed_ms, deadline_ms) is Sleep),
{
}

/// A shell that ends is never killed, and its exit code is kept where it fits.
pub proof fn law_ended_shell_is_not_killed(
    phase: ShutdownPhase,
    code: u32,
    elapsed_ms: u64,
    deadline_ms: u64,
)
    ensures
        shutdown_step(phase, WaitStatus::Exited(code), elapsed_ms, deadline_ms)
            == ShutdownStep::Finish(exit_code_of(code)),
        code <= i32::MAX ==> exit_code_of(code) == code,
{
}

/// A shell is killed at most once: the phase behind the kill never kills.
pub proof fn law_shell_is_killed_once(status: WaitStatus, elapsed_ms: u64, deadline_ms: u64)
    ensures
        !(shutdown_step(ShutdownPhase::Reaping, status, elapsed_ms, deadline_ms) is Kill),
{
}

/// A shell that still runs is looked at every 50 ms; at the deadline itself it is killed,
/// and half a second after that it is given up with the code of a terminated process.
pub proof fn law_running_shell_is_killed_at_the_deadline(elapsed_ms: u64, deadline_ms: u64)
    ensures
        shutdown_step(ShutdownPhase::Waiting, WaitStatus::Running, elapsed_ms, deadline_ms) == (
        if elapsed_ms < deadline_ms {
            ShutdownStep::Sleep(50)
        } else {
            ShutdownStep::Kill
        }),
        shutdown_step(ShutdownPhase::Reaping, WaitStatus::Running, elapsed_ms, deadline_ms) == (
        if elapsed_ms < 500 {
            ShutdownStep::Sleep(50)
        } else {
            ShutdownStep::Finish(143)
        }),
{
}

/// A shell of which nothing can be known is killed at once, and after that given up.
pub proof fn law_unknown_shell_is_killed_at_once(elapsed_ms: u64, deadline_ms: u64)
    ensures
        shutdown_step(ShutdownPhase::Waiting, WaitStatus::Failed, elapsed_ms, deadline_ms)
            == ShutdownStep::Kill,
        shutdown_step(ShutdownPhase::Reaping, WaitStatus::Failed, elapsed_ms, deadline_ms)
            == ShutdownStep::Finish(143),
{
}

/// An exit code that does not fit becomes a failure, never success.
pub proof fn law_unfitting_exit_code_is_a_failure(code: u32)
    ensures
        code > 0x7FFF_FFFF ==> exit_code_of(code) == 1,
        code <= 0x7FFF_FFFF ==> exit_code_of(code) == code,
        exit_code_of(code) == 0 <==> code == 0,
{
}

} // verus!
