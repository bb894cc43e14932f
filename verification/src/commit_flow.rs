//! The commit hook state machine and exit-code mapping.
//!
//! A wrapped commit runs a pre-hook, then the native commit, then a
//! post-hook. A pre-hook failure aborts before the native commit; a
//! failed native commit skips the post-hook and propagates its code; a
//! post-hook failure after a successful commit is non-fatal.

use vstd::prelude::*;

verus! {

/// How a spawned child process ended: with a numeric exit code, or
/// abnormally (for example, killed by a signal) with no code available.
#[derive(Clone, Copy, Debug, PartialEq, Eq, Structural)]
pub enum ExitOutcome {
    Code(i32),
    Abnormal,
}

/// The exit code this process reports for a child that ended with the
/// given outcome: the child's own code when it has one, else 1.
pub open spec fn spec_exit_code(o: ExitOutcome) -> i32 {
    match o {
        ExitOutcome::Code(c) => c,
        ExitOutcome::Abnormal => 1,
    }
}

/// Maps a child's termination to this process's exit code: a numeric
/// code is propagated exactly; abnormal termination becomes 1.
pub fn process_exit_code(o: ExitOutcome) -> (c: i32)
    ensures
        c == spec_exit_code(o),
{
    match o {
        ExitOutcome::Code(code) => code,
        ExitOutcome::Abnormal => 1,
    }
}

/// A child that ended with a numeric exit code has that exact code
/// propagated as this process's exit code, whatever the code is.
pub proof fn lemma_exit_code_propagation(code: i32)
    ensures
        spec_exit_code(ExitOutcome::Code(code)) == code,
{
}

/// Outcome of attempting the native commit step: the spawn itself failed,
/// or the child ran and terminated with an outcome.
#[derive(Clone, Copy, Debug, PartialEq, Eq, Structural)]
pub enum NativeOutcome {
    SpawnFailed,
    Exited(ExitOutcome),
}

/// State of a wrapped commit. `Finished` carries the exit code this
/// process must terminate with.
#[derive(Clone, Copy, Debug, PartialEq, Eq, Structural)]
pub enum CommitState {
    Start,
    PreHookPassed,
    NativeSucceeded,
    Finished { code: i32 },
}

/// The single step the driver must perform next in a given state.
#[derive(Clone, Copy, Debug, PartialEq, Eq, Structural)]
pub enum CommitAction {
    RunPreHook,
    RunNativeCommit,
    RunPostHook,
    Exit { code: i32 },
}

/// What the driver reports back after performing an action.
#[derive(Clone, Copy, Debug, PartialEq, Eq, Structural)]
pub enum CommitEvent {
    PreHookDone { ok: bool },
    NativeDone { outcome: NativeOutcome },
    PostHookDone { ok: bool },
}

/// The action a wrapped commit asks for in each state.
pub open spec fn spec_commit_action(s: CommitState) -> CommitAction {
    match s {
        CommitState::Start => CommitAction::RunPreHook,
        CommitState::PreHookPassed => CommitAction::RunNativeCommit,
        CommitState::NativeSucceeded => CommitAction::RunPostHook,
        CommitState::Finished { code } => CommitAction::Exit { code },
    }
}

/// One transition of the wrapped-commit state machine.
///
/// A failed pre-hook aborts with code 1 before the native commit. A
/// native commit that could not be spawned aborts with code 1; one that
/// ended with a nonzero code finishes with that same code, skipping the
/// post-hook. After a successful native commit the post-hook runs, and
/// the flow finishes with code 0 whether or not the post-hook succeeded.
/// An event that does not answer the awaited action changes nothing.
pub open spec fn spec_commit_step(s: CommitState, e: CommitEvent) -> CommitState {
    match (s, e) {
        (CommitState::Start, CommitEvent::PreHookDone { ok }) => if ok {
            CommitState::PreHookPassed
        } else {
            CommitState::Finished { code: 1 }
        },
        (CommitState::PreHookPassed, CommitEvent::NativeDone { outcome }) => match outcome {
            NativeOutcome::SpawnFailed => CommitState::Finished { code: 1 },
            NativeOutcome::Exited(o) => if spec_exit_code(o) == 0 {
                CommitState::NativeSucceeded
            } else {
                CommitState::Finished { code: spec_exit_code(o) }
            },
        },
        (CommitState::NativeSucceeded, CommitEvent::PostHookDone { ok: _ }) => (
            CommitState::Finished { code: 0 }
        ),
        (_, _) => s,
    }
}

/// Executable form of [`spec_commit_action`], for the driving loop.
pub fn commit_action(s: &CommitState) -> (a: CommitAction)
    ensures
        a == spec_commit_action(*s),
{
    match s {
        CommitState::Start => CommitAction::RunPreHook,
        CommitState::PreHookPassed => CommitAction::RunNativeCommit,
        CommitState::NativeSucceeded => CommitAction::RunPostHook,
        CommitState::Finished { code } => CommitAction::Exit { code: *code },
    }
}

/// Executable form of [`spec_commit_step`], for the driving loop.
pub fn commit_step(s: &CommitState, e: &CommitEvent) -> (next: CommitState)
    ensures
        next == spec_commit_step(*s, *e),
{
    match (s, e) {
        (CommitState::Start, CommitEvent::PreHookDone { ok }) => {
            if *ok {
                CommitState::PreHookPassed
            } else {
                CommitState::Finished { code: 1 }
            }
        },
        (CommitState::PreHookPassed, CommitEvent::NativeDone { outcome }) => {
            match outcome {
                NativeOutcome::SpawnFailed => CommitState::Finished { code: 1 },
                NativeOutcome::Exited(o) => {
                    let code = process_exit_code(*o);
                    if code == 0 {
                        CommitState::NativeSucceeded
                    } else {
                        CommitState::Finished { code }
                    }
                },
            }
        },
        (CommitState::NativeSucceeded, CommitEvent::PostHookDone { ok: _ }) => {
            CommitState::Finished { code: 0 }
        },
        (_, _) => *s,
    }
}

/// The state a wrapped commit is in after a sequence of events, starting
/// from `Start`.
pub open spec fn state_after(events: Seq<CommitEvent>) -> CommitState
    decreases events.len(),
{
    if events.len() == 0 {
        CommitState::Start
    } else {
        spec_commit_step(state_after(events.drop_last()), events.last())
    }
}

/// Unfolds [`state_after`] one event at a time, from the front.
pub proof fn lemma_state_after_step(events: Seq<CommitEvent>, i: int)
    requires
        0 <= i < events.len(),
    ensures
        state_after(events.take(i + 1)) == spec_commit_step(
            state_after(events.take(i)),
            events[i],
        ),
{
    assert(events.take(i + 1).drop_last() =~= events.take(i));
    assert(events.take(i + 1).last() == events[i]);
}

/// Once a wrapped commit has finished, no further event changes its
/// state or its exit code.
pub proof fn lemma_finished_absorbs(prefix: Seq<CommitEvent>, events: Seq<CommitEvent>, code: i32)
    requires
        state_after(prefix) == (CommitState::Finished { code }),
        prefix.len() <= events.len(),
        prefix =~= events.take(prefix.len() as int),
    ensures
        state_after(events) == (CommitState::Finished { code }),
    decreases events.len(),
{
    if events.len() == prefix.len() {
        assert(events =~= prefix);
    } else {
        assert(prefix =~= events.drop_last().take(prefix.len() as int));
        lemma_finished_absorbs(prefix, events.drop_last(), code);
    }
}

/// If the pre-hook fails, the flow is aborted: after that first event the
/// state is `Finished` with code 1 forever, so the native commit is never
/// requested and the process exits with code 1.
pub proof fn lemma_pre_hook_failure_aborts(events: Seq<CommitEvent>)
    requires
        events.len() >= 1,
        events[0] == (CommitEvent::PreHookDone { ok: false }),
    ensures
        forall|i: int|
            1 <= i <= events.len() ==> state_after(#[trigger] events.take(i)) == (
            CommitState::Finished { code: 1 }),
        forall|i: int|
            1 <= i <= events.len() ==> spec_commit_action(state_after(#[trigger] events.take(i)))
                != CommitAction::RunNativeCommit,
{
    assert(events.take(0) =~= Seq::<CommitEvent>::empty());
    assert(state_after(events.take(0)) == CommitState::Start);
    lemma_state_after_step(events, 0);
    assert(state_after(events.take(1)) == (CommitState::Finished { code: 1 }));
    assert forall|i: int| 1 <= i <= events.len() implies state_after(#[trigger] events.take(i))
        == (CommitState::Finished { code: 1 }) by {
        assert(events.take(1) =~= events.take(i).take(1));
        lemma_finished_absorbs(events.take(1), events.take(i), 1);
    }
}

/// If the native commit ends with a nonzero outcome, the post-hook is
/// never requested, and the process exits with exactly the child's code.
pub proof fn lemma_native_failure_skips_post_hook(events: Seq<CommitEvent>, o: ExitOutcome)
    requires
        events.len() >= 2,
        events[0] == (CommitEvent::PreHookDone { ok: true }),
        events[1] == (CommitEvent::NativeDone { outcome: NativeOutcome::Exited(o) }),
        spec_exit_code(o) != 0,
    ensures
        forall|i: int|
            2 <= i <= events.len() ==> state_after(#[trigger] events.take(i)) == (
            CommitState::Finished { code: spec_exit_code(o) }),
        forall|i: int|
            2 <= i <= events.len() ==> spec_commit_action(state_after(#[trigger] events.take(i)))
                != CommitAction::RunPostHook,
{
    assert(events.take(0) =~= Seq::<CommitEvent>::empty());
    assert(state_after(events.take(0)) == CommitState::Start);
    lemma_state_after_step(events, 0);
    lemma_state_after_step(events, 1);
    assert(state_after(events.take(2)) == (CommitState::Finished { code: spec_exit_code(o) }));
    assert forall|i: int| 2 <= i <= events.len() implies state_after(#[trigger] events.take(i))
        == (CommitState::Finished { code: spec_exit_code(o) }) by {
        assert(events.take(2) =~= events.take(i).take(2));
        lemma_finished_absorbs(events.take(2), events.take(i), spec_exit_code(o));
    }
}

/// A post-hook failure after a successful native commit is non-fatal:
/// the flow still finishes with exit code 0.
pub proof fn lemma_post_hook_failure_non_fatal(events: Seq<CommitEvent>)
    requires
        events.len() >= 3,
        events[0] == (CommitEvent::PreHookDone { ok: true }),
        events[1] == (CommitEvent::NativeDone { outcome: NativeOutcome::Exited(ExitOutcome::Code(0)) }),
        events[2] == (CommitEvent::PostHookDone { ok: false }),
    ensures
        forall|i: int|
            3 <= i <= events.len() ==> state_after(#[trigger] events.take(i)) == (
            CommitState::Finished { code: 0 }),
{
    assert(events.take(0) =~= Seq::<CommitEvent>::empty());
    assert(state_after(events.take(0)) == CommitState::Start);
    lemma_state_after_step(events, 0);
    lemma_state_after_step(events, 1);
    lemma_state_after_step(events, 2);
    assert(state_after(events.take(3)) == (CommitState::Finished { code: 0 }));
    assert forall|i: int| 3 <= i <= events.len() implies state_after(#[trigger] events.take(i))
        == (CommitState::Finished { code: 0 }) by {
        assert(events.take(3) =~= events.take(i).take(3));
        lemma_finished_absorbs(events.take(3), events.take(i), 0);
    }
}

} // verus!
