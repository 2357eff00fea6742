//! The process-supervision state machines.
//!
//! A transfer run is driven by a cooperative poll loop rather than a blocking
//! wait, so that cancellation and the deadline are observed promptly. The
//! loop itself performs the polling, sleeping and signalling; every decision
//! it takes comes from the verified step functions here. `WaitClock` decides,
//! on each poll, whether the run is over, must be terminated, or should sleep
//! for the next backoff interval. `GraceWait` decides, once a graceful
//! termination signal has been sent, when to give up and escalate to an
//! unconditional kill.
//!
//! A termination signal targets a process (or process-group) id, and an id
//! can be reused by the operating system once freed. Both machines therefore
//! decide to signal only when the poll made immediately before still saw the
//! process running; `lemma_no_signal_after_exit` states this of every
//! possible run.

use crate::program::Program;
use vstd::prelude::*;

verus! {

/// The first millisecond backoff interval of the poll loop.
pub const INITIAL_DELAY_MS: u64 = 1;

/// The ceiling on the poll loop's backoff interval, in milliseconds.
pub const MAX_DELAY_MS: u64 = 100;

/// How many hundred-millisecond grace polls follow a graceful termination
/// signal before escalating to an unconditional kill.
pub const GRACE_POLLS: u32 = 50;

/// What the poll loop must do next, as decided by `WaitClock::poll_step`.
#[derive(Clone, Copy, Debug, PartialEq, Eq, Structural)]
pub enum WaitDecision {
    /// The process exited on its own: report a natural exit.
    Finished,
    /// Begin the termination sequence for the transfer's program.
    Terminate,
    /// Sleep for this many milliseconds, then poll again.
    Sleep { ms: u64 },
}

/// The sleep the loop takes next: the current backoff interval, but never
/// past the deadline.
pub open spec fn spec_sleep_amount(delay: int, remaining: int) -> int {
    if delay <= remaining {
        delay
    } else {
        remaining
    }
}

/// The backoff interval after a sleep: doubled, up to the ceiling.
pub open spec fn spec_next_delay(delay: int) -> int {
    if 2 * delay <= MAX_DELAY_MS {
        2 * delay
    } else {
        MAX_DELAY_MS as int
    }
}

/// The bounded-wait poll loop's state: the deadline (relative to the start
/// of the run) and the current backoff interval.
pub struct WaitClock {
    pub timeout_ms: u64,
    pub delay_ms: u64,
}

impl WaitClock {
    /// The backoff interval stays between its initial value and its ceiling.
    pub open spec fn wf(&self) -> bool {
        INITIAL_DELAY_MS <= self.delay_ms <= MAX_DELAY_MS
    }

    /// A fresh poll loop for one run with the given deadline.
    pub fn new(timeout_ms: u64) -> (clock: WaitClock)
        ensures
            clock.wf(),
            clock.timeout_ms == timeout_ms,
            clock.delay_ms == INITIAL_DELAY_MS,
    {
        WaitClock { timeout_ms, delay_ms: INITIAL_DELAY_MS }
    }

    /// One poll tick. `now_ms` is the time since the run started, `exited`
    /// is what the non-blocking status check just returned, and `cancel` is
    /// the cancellation token. An exit is reported at once, whatever the
    /// clock says; then cancellation and then the deadline force
    /// termination; otherwise the loop sleeps for one bounded backoff
    /// interval and the interval doubles up to its ceiling.
    pub fn poll_step(&mut self, now_ms: u64, exited: bool, cancel: bool) -> (d: WaitDecision)
        requires
            old(self).wf(),
        ensures
            final(self).wf(),
            final(self).timeout_ms == old(self).timeout_ms,
            exited ==> d == WaitDecision::Finished && *final(self) == *old(self),
            !exited && cancel ==> d == WaitDecision::Terminate && *final(self) == *old(self),
            !exited && !cancel && now_ms >= old(self).timeout_ms ==> d == WaitDecision::Terminate
                && *final(self) == *old(self),
            !exited && !cancel && now_ms < old(self).timeout_ms ==> d == (WaitDecision::Sleep {
                ms: spec_sleep_amount(
                    old(self).delay_ms as int,
                    old(self).timeout_ms - now_ms,
                ) as u64,
            }) && final(self).delay_ms == spec_next_delay(old(self).delay_ms as int),
    {
        if exited {
            return WaitDecision::Finished;
        }
        if cancel {
            return WaitDecision::Terminate;
        }
        if now_ms >= self.timeout_ms {
            return WaitDecision::Terminate;
        }
        let remaining = self.timeout_ms - now_ms;
        let ms = if self.delay_ms <= remaining {
            self.delay_ms
        } else {
            remaining
        };
        let doubled = self.delay_ms * 2;
        self.delay_ms = if doubled <= MAX_DELAY_MS {
            doubled
        } else {
            MAX_DELAY_MS
        };
        WaitDecision::Sleep { ms }
    }
}

/// How one whole bounded wait ends: at what time (relative to the run's
/// start), and whether a termination decision was made. `forced` is false
/// exactly when no termination signal is ever issued during the wait.
pub struct WaitOutcome {
    pub forced: bool,
    pub at: int,
}

/// Whether an event that fires at `at` (if at all) has been observed by time
/// `now`.
pub open spec fn observed(at: Option<int>, now: int) -> bool {
    at is Some && at->0 <= now
}

/// The whole poll loop, as a function of the process's behaviour: a process
/// whose exit becomes observable at `exit_at` (never, if `None`), a
/// cancellation token set at `cancel_at`, a deadline, and the loop's current
/// position and backoff interval. Each unfolding is one `poll_step`
/// decision; a `Sleep` decision advances time by the slept amount.
pub open spec fn wait_run(
    timeout: int,
    exit_at: Option<int>,
    cancel_at: Option<int>,
    now: int,
    delay: int,
) -> WaitOutcome
    decreases timeout - now,
        when 0 <= now <= timeout && 1 <= delay
{
    if observed(exit_at, now) {
        WaitOutcome { forced: false, at: now }
    } else if observed(cancel_at, now) {
        WaitOutcome { forced: true, at: now }
    } else if now >= timeout {
        WaitOutcome { forced: true, at: now }
    } else {
        wait_run(
            timeout,
            exit_at,
            cancel_at,
            now + spec_sleep_amount(delay, timeout - now),
            spec_next_delay(delay),
        )
    }
}

proof fn lemma_natural_exit_rec(timeout: int, t: int, cancel_at: Option<int>, now: int, delay: int)
    requires
        0 <= now <= t < timeout,
        1 <= delay <= MAX_DELAY_MS,
        !(cancel_at is Some && cancel_at->0 < timeout),
    ensures
        ({
            let r = wait_run(timeout, Some(t), cancel_at, now, delay);
            &&& !r.forced
            &&& t <= r.at < t + MAX_DELAY_MS
            &&& r.at <= timeout
        }),
    decreases timeout - now,
{
    if now >= t {
        // The poll at `now == t` observes the exit.
    } else {
        let s = spec_sleep_amount(delay, timeout - now);
        let now2 = now + s;
        if now2 > t {
            // The next poll is the first to observe the exit; it happens
            // within one backoff interval of `t` and never past the deadline.
            assert(observed(Some(t), now2));
            assert(wait_run(timeout, Some(t), cancel_at, now2, spec_next_delay(delay))
                == WaitOutcome { forced: false, at: now2 });
        } else {
            lemma_natural_exit_rec(timeout, t, cancel_at, now2, spec_next_delay(delay));
        }
    }
}

/// A process that exits on its own at time `t`, before the deadline and
/// before any cancellation, is reported as a natural exit: the wait never
/// decides to terminate it, and the elapsed time it reports is `t` rounded
/// up to the poll that first observed the exit — less than one backoff
/// ceiling past `t`, and never past the deadline.
pub proof fn lemma_natural_exit_before_deadline(timeout: int, t: int, cancel_at: Option<int>)
    requires
        0 <= t < timeout,
        !(cancel_at is Some && cancel_at->0 < timeout),
    ensures
        ({
            let r = wait_run(timeout, Some(t), cancel_at, 0, INITIAL_DELAY_MS as int);
            &&& !r.forced
            &&& t <= r.at < t + MAX_DELAY_MS
            &&& r.at <= timeout
        }),
{
    lemma_natural_exit_rec(timeout, t, cancel_at, 0, INITIAL_DELAY_MS as int);
}

proof fn lemma_forced_at_deadline_rec(timeout: int, now: int, delay: int)
    requires
        0 <= now <= timeout,
        1 <= delay,
    ensures
        wait_run(timeout, None, None, now, delay) == (WaitOutcome { forced: true, at: timeout }),
    decreases timeout - now,
{
    if now < timeout {
        lemma_forced_at_deadline_rec(
            timeout,
            now + spec_sleep_amount(delay, timeout - now),
            spec_next_delay(delay),
        );
    }
}

/// A process that never exits on its own, with no cancellation, is handed to
/// the termination sequence exactly at the deadline: the wait decides to
/// terminate at time `timeout`, never earlier and never later.
pub proof fn lemma_forced_at_deadline(timeout: int)
    requires
        timeout >= 0,
    ensures
        wait_run(timeout, None, None, 0, INITIAL_DELAY_MS as int) == (WaitOutcome {
            forced: true,
            at: timeout,
        }),
{
    lemma_forced_at_deadline_rec(timeout, 0, INITIAL_DELAY_MS as int);
}

/// No signal is ever issued to a process id that has already exited: if a
/// run ends with a termination decision at time `a`, the poll at `a` still
/// saw the process running, so its exit was not yet observable.
pub proof fn lemma_no_signal_after_exit(
    timeout: int,
    exit_at: Option<int>,
    cancel_at: Option<int>,
    now: int,
    delay: int,
)
    requires
        0 <= now <= timeout,
        1 <= delay,
    ensures
        ({
            let r = wait_run(timeout, exit_at, cancel_at, now, delay);
            r.forced ==> !observed(exit_at, r.at)
        }),
    decreases timeout - now,
{
    if !observed(exit_at, now) && !observed(cancel_at, now) && now < timeout {
        lemma_no_signal_after_exit(
            timeout,
            exit_at,
            cancel_at,
            now + spec_sleep_amount(delay, timeout - now),
            spec_next_delay(delay),
        );
    }
}

proof fn lemma_cancel_prompt_rec(timeout: int, c: int, now: int, delay: int)
    requires
        0 <= now <= timeout,
        1 <= delay <= MAX_DELAY_MS,
        now <= c,
    ensures
        ({
            let r = wait_run(timeout, None, Some(c), now, delay);
            &&& r.forced
            &&& r.at <= timeout
            &&& r.at < c + MAX_DELAY_MS
        }),
    decreases timeout - now,
{
    if now >= c || now >= timeout {
        // Observed at once, or the deadline fires first.
    } else {
        let s = spec_sleep_amount(delay, timeout - now);
        let now2 = now + s;
        if now2 > c {
            if observed(Some(c), now2) {
                assert(wait_run(timeout, None, Some(c), now2, spec_next_delay(delay))
                    == WaitOutcome { forced: true, at: now2 });
            }
        } else {
            lemma_cancel_prompt_rec(timeout, c, now2, spec_next_delay(delay));
        }
    }
}

/// Cancellation is observed promptly: a token set at time `c` during a run
/// whose process never exits forces termination within one backoff ceiling
/// of `c` (or at the deadline, whichever comes first).
pub proof fn lemma_cancel_prompt(timeout: int, c: int)
    requires
        0 <= c <= timeout,
    ensures
        ({
            let r = wait_run(timeout, None, Some(c), 0, INITIAL_DELAY_MS as int);
            &&& r.forced
            &&& r.at <= timeout
            &&& r.at < c + MAX_DELAY_MS
        }),
{
    lemma_cancel_prompt_rec(timeout, c, 0, INITIAL_DELAY_MS as int);
}

/// Which signal opens the termination sequence, and to whom it is addressed.
#[derive(Clone, Copy, Debug, PartialEq, Eq, Structural)]
pub enum SignalKind {
    /// A terminate signal the tool may catch to shut down cleanly.
    Graceful,
    /// An unconditional kill signal.
    Forceful,
}

/// Whether the opening signal targets the primary process alone or its whole
/// process group.
#[derive(Clone, Copy, Debug, PartialEq, Eq, Structural)]
pub enum SignalScope {
    Primary,
    WholeGroup,
}

/// The tool-specific termination policy: the opening signal and its scope.
#[derive(Clone, Copy, Debug, PartialEq, Eq, Structural)]
pub struct TerminationPolicy {
    pub kind: SignalKind,
    pub scope: SignalScope,
}

/// The policy for each transfer program. The clone tool spawns networking
/// helper subprocesses that do not reliably honor graceful shutdown and must
/// not finish partial work after cancellation, so it is opened with an
/// unconditional kill of the whole process group. The other tools' helpers
/// honor a graceful terminate signal sent to the primary process alone.
pub open spec fn spec_termination_policy(program: Program) -> TerminationPolicy {
    match program {
        Program::Git => TerminationPolicy {
            kind: SignalKind::Forceful,
            scope: SignalScope::WholeGroup,
        },
        _ => TerminationPolicy { kind: SignalKind::Graceful, scope: SignalScope::Primary },
    }
}

/// The termination policy of a transfer program.
pub fn termination_policy(program: Program) -> (p: TerminationPolicy)
    ensures
        p == spec_termination_policy(program),
{
    match program {
        Program::Git => TerminationPolicy {
            kind: SignalKind::Forceful,
            scope: SignalScope::WholeGroup,
        },
        _ => TerminationPolicy { kind: SignalKind::Graceful, scope: SignalScope::Primary },
    }
}

/// The group-kill policy leaves no descendant behind: for the clone tool the
/// very first signal is already the unconditional kill, and it is addressed
/// to the whole process group, so no helper process is spared a graceful
/// window in which it could finish partial work.
pub proof fn lemma_group_kill_policy()
    ensures
        spec_termination_policy(Program::Git).kind is Forceful,
        spec_termination_policy(Program::Git).scope is WholeGroup,
        forall|p: Program|
            (#[trigger] spec_termination_policy(p)).kind is Graceful ==> spec_termination_policy(
                p,
            ).scope is Primary,
{
}

/// What the loop that follows a graceful termination signal must do next, as
/// decided by `GraceWait::step`.
#[derive(Clone, Copy, Debug, PartialEq, Eq, Structural)]
pub enum GraceStep {
    /// The process exited within the grace period: its status is the result.
    Done,
    /// Sleep 100 ms, then poll again.
    Poll,
    /// The grace period is spent: send the unconditional kill signal and
    /// block until the process is reaped.
    ForceKill,
}

/// The state of one grace period: how many of its polls have been taken.
pub struct GraceWait {
    pub polls: u32,
}

impl GraceWait {
    pub open spec fn wf(&self) -> bool {
        self.polls <= GRACE_POLLS
    }

    /// A fresh grace period, begun right after the graceful signal was sent.
    pub fn new() -> (g: GraceWait)
        ensures
            g.wf(),
            g.polls == 0,
    {
        GraceWait { polls: 0 }
    }

    /// One grace tick. `exited` is what the non-blocking status check just
    /// returned. The kill escalation fires only after all polls saw the
    /// process still running, and never once an exit has been observed.
    pub fn step(&mut self, exited: bool) -> (s: GraceStep)
        requires
            old(self).wf(),
        ensures
            final(self).wf(),
            exited ==> s == GraceStep::Done && *final(self) == *old(self),
            !exited && old(self).polls < GRACE_POLLS ==> s == GraceStep::Poll && final(self).polls
                == old(self).polls + 1,
            !exited && old(self).polls == GRACE_POLLS ==> s == GraceStep::ForceKill && *final(self)
                == *old(self),
    {
        if exited {
            GraceStep::Done
        } else if self.polls < GRACE_POLLS {
            self.polls = self.polls + 1;
            GraceStep::Poll
        } else {
            GraceStep::ForceKill
        }
    }
}

/// How one whole grace period ends: how long it slept, and whether the
/// unconditional kill had to be sent.
pub struct GraceOutcome {
    pub slept_ms: int,
    pub forced_kill: bool,
}

/// The whole grace period as a function of the process's behaviour: the
/// process's exit becomes observable at poll number `exit_poll` (never, if
/// `None`). Each poll beyond the first is preceded by a 100 ms sleep.
pub open spec fn grace_run(exit_poll: Option<int>, polls: int) -> GraceOutcome
    decreases GRACE_POLLS - polls,
        when 0 <= polls <= GRACE_POLLS
{
    if observed(exit_poll, polls) {
        GraceOutcome { slept_ms: polls * 100, forced_kill: false }
    } else if polls == GRACE_POLLS {
        GraceOutcome { slept_ms: polls * 100, forced_kill: true }
    } else {
        grace_run(exit_poll, polls + 1)
    }
}

proof fn lemma_grace_bounded_rec(exit_poll: Option<int>, polls: int)
    requires
        0 <= polls <= GRACE_POLLS,
    ensures
        ({
            let g = grace_run(exit_poll, polls);
            &&& polls * 100 <= g.slept_ms <= 5000
            &&& g.forced_kill ==> !observed(exit_poll, GRACE_POLLS as int)
        }),
    decreases GRACE_POLLS - polls,
{
    if !observed(exit_poll, polls) && polls < GRACE_POLLS {
        lemma_grace_bounded_rec(exit_poll, polls + 1);
    }
}

/// The grace period is bounded, whatever the process does: at most 5000 ms
/// pass between the graceful signal and either the observed exit or the
/// unconditional kill; and the kill is sent only if no poll of the whole
/// grace period observed an exit.
pub proof fn lemma_grace_bounded(exit_poll: Option<int>)
    ensures
        ({
            let g = grace_run(exit_poll, 0);
            &&& 0 <= g.slept_ms <= 5000
            &&& g.forced_kill ==> !observed(exit_poll, GRACE_POLLS as int)
        }),
{
    lemma_grace_bounded_rec(exit_poll, 0);
}

/// A process that never exits on its own returns within the deadline plus
/// the termination-escalation bound: the wait decides to terminate exactly
/// at the deadline, and the escalation adds at most 5000 ms of grace before
/// the unconditional kill.
pub proof fn lemma_unresponsive_run_bounded(timeout: int, exit_poll: Option<int>)
    requires
        timeout >= 0,
    ensures
        ({
            let w = wait_run(timeout, None, None, 0, INITIAL_DELAY_MS as int);
            let g = grace_run(exit_poll, 0);
            &&& w.forced
            &&& w.at == timeout
            &&& w.at + g.slept_ms <= timeout + 5000
        }),
{
    lemma_forced_at_deadline(timeout);
    lemma_grace_bounded(exit_poll);
}

} // verus!
