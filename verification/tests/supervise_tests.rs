use bestbind::program::Program;
use bestbind::supervise::{
    termination_policy, GraceStep, GraceWait, SignalKind, SignalScope, WaitClock, WaitDecision,
};

#[test]
fn natural_exit_reported_at_once() {
    let mut clock = WaitClock::new(1000);
    assert_eq!(clock.poll_step(5, true, false), WaitDecision::Finished);
    // An exit is reported even when the deadline has passed or the token is
    // set: the run ended on its own.
    let mut late = WaitClock::new(10);
    assert_eq!(late.poll_step(50, true, true), WaitDecision::Finished);
}

#[test]
fn backoff_doubles_up_to_the_ceiling() {
    let mut clock = WaitClock::new(100_000);
    assert_eq!(clock.poll_step(0, false, false), WaitDecision::Sleep { ms: 1 });
    assert_eq!(clock.poll_step(1, false, false), WaitDecision::Sleep { ms: 2 });
    assert_eq!(clock.poll_step(3, false, false), WaitDecision::Sleep { ms: 4 });
    assert_eq!(clock.poll_step(7, false, false), WaitDecision::Sleep { ms: 8 });
    assert_eq!(clock.poll_step(15, false, false), WaitDecision::Sleep { ms: 16 });
    assert_eq!(clock.poll_step(31, false, false), WaitDecision::Sleep { ms: 32 });
    assert_eq!(clock.poll_step(63, false, false), WaitDecision::Sleep { ms: 64 });
    // The next doubling would pass 100 ms; the ceiling holds it there.
    assert_eq!(clock.poll_step(127, false, false), WaitDecision::Sleep { ms: 100 });
    assert_eq!(clock.poll_step(227, false, false), WaitDecision::Sleep { ms: 100 });
}

#[test]
fn sleep_never_passes_the_deadline() {
    let mut clock = WaitClock::new(10);
    assert_eq!(clock.poll_step(0, false, false), WaitDecision::Sleep { ms: 1 });
    assert_eq!(clock.poll_step(1, false, false), WaitDecision::Sleep { ms: 2 });
    assert_eq!(clock.poll_step(3, false, false), WaitDecision::Sleep { ms: 4 });
    // 3 ms remain; the 8 ms backoff is clipped to them.
    assert_eq!(clock.poll_step(7, false, false), WaitDecision::Sleep { ms: 3 });
    assert_eq!(clock.poll_step(10, false, false), WaitDecision::Terminate);
}

#[test]
fn cancellation_terminates_before_the_deadline() {
    let mut clock = WaitClock::new(30_000);
    assert_eq!(clock.poll_step(0, false, false), WaitDecision::Sleep { ms: 1 });
    assert_eq!(clock.poll_step(1, false, true), WaitDecision::Terminate);
}

#[test]
fn deadline_terminates() {
    let mut clock = WaitClock::new(0);
    assert_eq!(clock.poll_step(0, false, false), WaitDecision::Terminate);
}

#[test]
fn grace_period_escalates_after_fifty_polls() {
    let mut grace = GraceWait::new();
    for _ in 0..50 {
        assert_eq!(grace.step(false), GraceStep::Poll);
    }
    assert_eq!(grace.step(false), GraceStep::ForceKill);
}

#[test]
fn grace_period_ends_on_exit() {
    let mut grace = GraceWait::new();
    assert_eq!(grace.step(false), GraceStep::Poll);
    assert_eq!(grace.step(false), GraceStep::Poll);
    assert_eq!(grace.step(true), GraceStep::Done);
}

#[test]
fn clone_tool_is_group_killed_at_once() {
    // The clone tool's networking helpers ignore graceful shutdown: its
    // first signal is the unconditional kill, addressed to the whole group.
    let policy = termination_policy(Program::Git);
    assert_eq!(policy.kind, SignalKind::Forceful);
    assert_eq!(policy.scope, SignalScope::WholeGroup);
}

#[test]
fn other_tools_get_a_graceful_signal_to_the_primary() {
    for program in [Program::Rsync, Program::Curl, Program::Wget] {
        let policy = termination_policy(program);
        assert_eq!(policy.kind, SignalKind::Graceful);
        assert_eq!(policy.scope, SignalScope::Primary);
    }
}
