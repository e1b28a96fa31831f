//! Reconnect backoff and Discord gateway close-code classification.
//!
//! These decide two things for the gateway reconnect loop: whether to
//! reconnect at all (some close codes are permanent, and retrying them only
//! burns the identify budget), and how long to wait before the next attempt.
use vstd::prelude::*;

use crate::duration::{Duration, MAX_NANOS, NANOS_PER_MILLI, NANOS_PER_SEC};

verus! {

/// Discord permits at most one IDENTIFY per 5 seconds per shard, in milliseconds.
pub const IDENTIFY_RATE_LIMIT_MS: u64 = 5000;

/// The least wait before an attempt that will IDENTIFY, in milliseconds.
pub const IDENTIFY_MIN_FLOOR_MS: u64 = 1000;

/// Safety margin on Discord's `session_start_limit.remaining`: IDENTIFY stops
/// while this many sessions are still nominally available.
pub const IDENTIFY_BUDGET_SAFETY_THRESHOLD: u32 = 3;

/// The longest in-process sleep applied for an exhausted identify budget, in seconds.
pub const IDENTIFY_BUDGET_MAX_SLEEP_SECS: u64 = 15 * 60;

/// What to do once a gateway connection ends.
#[derive(Debug, Clone, Copy, PartialEq, Eq, Structural)]
pub enum CloseAction {
    /// Reconnect and attempt to RESUME the existing session.
    Resume,
    /// Reconnect, but abandon the session and send a fresh IDENTIFY.
    Reidentify,
    /// Do not reconnect: the failure is permanent.
    Fatal,
}

/// Close codes on which reconnecting fails identically: authentication failed,
/// invalid shard, sharding required, invalid API version, invalid intents,
/// disallowed intents.
pub open spec fn is_fatal_close_code(code: u16) -> bool {
    code == 4004 || code == 4010 || code == 4011 || code == 4012 || code == 4013 || code == 4014
}

/// Close codes after which the session can no longer be resumed: not
/// authenticated, invalid seq, session timed out.
pub open spec fn is_session_invalidating_close_code(code: u16) -> bool {
    code == 4003 || code == 4007 || code == 4009
}

pub open spec fn close_action_of(code: u16) -> CloseAction {
    if is_fatal_close_code(code) {
        CloseAction::Fatal
    } else if is_session_invalidating_close_code(code) {
        CloseAction::Reidentify
    } else {
        CloseAction::Resume
    }
}

/// Classify a Discord gateway close code.
pub fn classify_close_code(code: u16) -> (action: CloseAction)
    ensures
        action == close_action_of(code),
{
    match code {
        4004 | 4010 | 4011 | 4012 | 4013 | 4014 => CloseAction::Fatal,
        4003 | 4007 | 4009 => CloseAction::Reidentify,
        _ => CloseAction::Resume,
    }
}

/// Whether a Discord REST status for the initial gateway bootstrap is
/// permanent: a 401 or 403 means the bot token is invalid or lacks access.
pub fn rest_status_is_fatal(status: u16) -> (fatal: bool)
    ensures
        fatal <==> (status == 401 || status == 403),
{
    status == 401 || status == 403
}

/// Decision for whether a fresh IDENTIFY is allowed given the identify budget.
#[derive(Debug, Clone, Copy, PartialEq, Eq, Structural)]
pub enum IdentifyBudget {
    /// Enough budget remains: go ahead and IDENTIFY.
    Proceed,
    /// Budget is at or near exhaustion: wait `wait` (the reset window) instead.
    Exhausted { wait: Duration },
}

/// Classify Discord's identify (session start) budget: `remaining <= threshold`
/// counts as exhausted, keeping a safety margin.
pub fn classify_identify_budget(remaining: u32, reset_after: Duration, threshold: u32) -> (b:
    IdentifyBudget)
    ensures
        remaining <= threshold ==> b == (IdentifyBudget::Exhausted { wait: reset_after }),
        remaining > threshold ==> b == IdentifyBudget::Proceed,
{
    if remaining <= threshold {
        IdentifyBudget::Exhausted { wait: reset_after }
    } else {
        IdentifyBudget::Proceed
    }
}

pub open spec fn max_sleep_nanos() -> nat {
    (IDENTIFY_BUDGET_MAX_SLEEP_SECS * NANOS_PER_SEC) as nat
}

/// The cap on the in-process sleep for an exhausted identify budget.
pub fn identify_budget_max_sleep() -> (d: Duration)
    ensures
        d@ == max_sleep_nanos(),
{
    Duration::from_secs(IDENTIFY_BUDGET_MAX_SLEEP_SECS)
}

/// Cap the in-process sleep applied for an exhausted identify budget.
pub fn capped_budget_wait(reset_after: Duration) -> (d: Duration)
    ensures
        d@ == if reset_after@ <= max_sleep_nanos() { reset_after@ } else { max_sleep_nanos() },
{
    reset_after.min(identify_budget_max_sleep())
}

/// The wait before the next gateway (re)connect attempt, given the jitter
/// already drawn: `jitter_ms` is added to `backoff` (saturating), and where
/// the attempt will IDENTIFY the result is at least
/// `IDENTIFY_MIN_FLOOR_MS + floor_jitter_ms` milliseconds.
pub fn reconnect_delay_with_jitter(
    will_identify: bool,
    backoff: Duration,
    jitter_ms: u64,
    floor_jitter_ms: u64,
) -> (d: Duration)
    requires
        floor_jitter_ms <= IDENTIFY_RATE_LIMIT_MS - IDENTIFY_MIN_FLOOR_MS,
    ensures
        d@ == reconnect_delay_nanos(will_identify, backoff@, jitter_ms, floor_jitter_ms),
        will_identify ==> d@ >= IDENTIFY_MIN_FLOOR_MS * NANOS_PER_MILLI,
        d@ >= backoff@,
{
    let candidate = backoff.saturating_add(Duration::from_millis(jitter_ms));
    if will_identify {
        let identify_floor = Duration::from_millis(IDENTIFY_MIN_FLOOR_MS + floor_jitter_ms);
        candidate.max(identify_floor)
    } else {
        candidate
    }
}

pub open spec fn saturating_sum(a: nat, b: nat) -> nat {
    if a + b <= MAX_NANOS { a + b } else { MAX_NANOS as nat }
}

/// The reconnect wait in nanoseconds.
pub open spec fn reconnect_delay_nanos(
    will_identify: bool,
    backoff: nat,
    jitter_ms: u64,
    floor_jitter_ms: u64,
) -> nat {
    let candidate = saturating_sum(backoff, (jitter_ms * NANOS_PER_MILLI) as nat);
    let floor = ((IDENTIFY_MIN_FLOOR_MS + floor_jitter_ms) * NANOS_PER_MILLI) as nat;
    if will_identify && candidate < floor { floor } else { candidate }
}

/// The state of a backoff, in nanoseconds.
pub struct BackoffState {
    pub base: nat,
    pub cap: nat,
    pub current: nat,
}

/// Exponential backoff with a base and a cap. `advance` returns the current
/// delay and then doubles it (saturating at the cap); `reset` returns to base.
#[derive(Debug, Clone)]
pub struct Backoff {
    base: Duration,
    cap: Duration,
    current: Duration,
}

impl View for Backoff {
    type V = BackoffState;

    closed spec fn view(&self) -> BackoffState {
        BackoffState { base: self.base@, cap: self.cap@, current: self.current@ }
    }
}

pub open spec fn min_nat(a: nat, b: nat) -> nat {
    if a <= b { a } else { b }
}

/// The state a fresh backoff starts in.
pub open spec fn initial_state(base: nat, cap: nat) -> BackoffState {
    BackoffState { base, cap, current: base }
}

/// The state after one `advance`.
pub open spec fn advanced(s: BackoffState) -> BackoffState {
    BackoffState { current: min_nat(2 * s.current, s.cap), ..s }
}

/// The state after a `reset`.
pub open spec fn reset_state(s: BackoffState) -> BackoffState {
    BackoffState { current: s.base, ..s }
}

/// The state after `k` calls of `advance`.
pub open spec fn advanced_times(s: BackoffState, k: nat) -> BackoffState
    decreases k,
{
    if k == 0 {
        s
    } else {
        advanced(advanced_times(s, (k - 1) as nat))
    }
}

pub open spec fn pow2(k: nat) -> nat
    decreases k,
{
    if k == 0 {
        1
    } else {
        2 * pow2((k - 1) as nat)
    }
}

impl Backoff {
    pub fn new(base: Duration, cap: Duration) -> (b: Backoff)
        ensures
            b@ == initial_state(base@, cap@),
    {
        Backoff { base, cap, current: base }
    }

    /// The base delay.
    pub fn base(&self) -> (d: Duration)
        ensures
            d@ == self@.base,
    {
        self.base
    }

    /// The cap on the delay.
    pub fn cap(&self) -> (d: Duration)
        ensures
            d@ == self@.cap,
    {
        self.cap
    }

    /// The delay the next `advance` hands out.
    pub fn current(&self) -> (d: Duration)
        ensures
            d@ == self@.current,
    {
        self.current
    }

    /// Whether `advance` can double the current delay without leaving the
    /// range of a duration.
    pub fn can_advance(&self) -> (r: bool)
        ensures
            r == (2 * self@.current <= MAX_NANOS),
    {
        self.current.checked_mul(2).is_some()
    }

    /// Return to the base delay.
    pub fn reset(&mut self)
        ensures
            final(self)@ == reset_state(old(self)@),
    {
        self.current = self.base;
    }

    /// Return the current delay, then double it (capped).
    pub fn advance(&mut self) -> (delay: Duration)
        requires
            2 * old(self)@.current <= MAX_NANOS,
        ensures
            delay@ == old(self)@.current,
            final(self)@ == advanced(old(self)@),
    {
        let delay = self.current;
        let doubled = match self.current.checked_mul(2) {
            Some(d) => d,
            None => {
                proof {
                    assert(false);
                }
                self.cap
            },
        };
        self.current = doubled.min(self.cap);
        delay
    }
}

/// From a fresh backoff, the delay handed out by the first `advance` is the
/// base, and the one handed out by the `(k+1)`-th is the base doubled `k`
/// times, capped: `min(base * 2^k, cap)`. Where twice the base and twice the
/// cap are in range, no call of `advance` in that sequence overflows.
pub proof fn lemma_delay_schedule(base: nat, cap: nat, k: nat)
    ensures
        advanced_times(initial_state(base, cap), k).current == if k == 0 {
            base
        } else {
            min_nat(base * pow2(k), cap)
        },
        advanced_times(initial_state(base, cap), k).base == base,
        advanced_times(initial_state(base, cap), k).cap == cap,
        2 * base <= MAX_NANOS && 2 * cap <= MAX_NANOS ==> 2 * advanced_times(
            initial_state(base, cap),
            k,
        ).current <= MAX_NANOS,
    decreases k,
{
    if k > 0 {
        lemma_delay_schedule(base, cap, (k - 1) as nat);
        let p = pow2((k - 1) as nat);
        assert(base * pow2(k) == 2 * (base * p)) by (nonlinear_arith)
            requires
                pow2(k) == 2 * p,
        ;
        if k == 1 {
            assert(base * 1 == base) by (nonlinear_arith);
        }
    }
}

/// No delay handed out from a fresh backoff exceeds the larger of base and cap,
/// and from the second `advance` on none exceeds the cap.
pub proof fn lemma_delay_bounded(base: nat, cap: nat, k: nat)
    ensures
        advanced_times(initial_state(base, cap), k).current <= if base >= cap { base } else { cap },
        k > 0 ==> advanced_times(initial_state(base, cap), k).current <= cap,
{
    lemma_delay_schedule(base, cap, k);
}

/// After a `reset`, the next `advance` hands out the base delay again and the
/// schedule restarts: `k` advances after a reset reach the same state as `k`
/// advances from a fresh backoff.
pub proof fn lemma_reset_restarts_schedule(s: BackoffState, k: nat)
    ensures
        reset_state(s).current == s.base,
        advanced_times(reset_state(s), k) == advanced_times(initial_state(s.base, s.cap), k),
    decreases k,
{
    if k > 0 {
        lemma_reset_restarts_schedule(s, (k - 1) as nat);
    }
}

/// The delay never shrinks while below the cap: each `advance` leaves a
/// current delay at least the one it handed out, unless the cap is below it.
pub proof fn lemma_advance_monotone(s: BackoffState)
    requires
        s.current <= s.cap,
    ensures
        advanced(s).current >= s.current,
        advanced(s).current <= s.cap,
{
}

/// The state after a sequence of calls on a backoff: each `true` is an
/// `advance`, each `false` a `reset`.
pub open spec fn after_calls(s: BackoffState, calls: Seq<bool>) -> BackoffState
    decreases calls.len(),
{
    if calls.len() == 0 {
        s
    } else {
        let before = after_calls(s, calls.drop_last());
        if calls.last() {
            advanced(before)
        } else {
            reset_state(before)
        }
    }
}

/// Whether `s` is a state of a backoff made with `base` and `cap`, its current
/// delay between the two.
pub open spec fn within_schedule(s: BackoffState, base: nat, cap: nat) -> bool {
    &&& s.base == base
    &&& s.cap == cap
    &&& base <= s.current <= cap
}

/// For a backoff made with `base <= cap` and a cap no more than half the
/// longest duration, after any sequence of `advance` and `reset` calls: base
/// and cap are unchanged, the current delay lies between them, so the next
/// `advance` cannot overflow (its `requires` holds) and hands out a delay in
/// `[base, cap]`; the delay after it is `min(2 * delay, cap)`, never less than
/// the delay handed out, so between two resets the delays never decrease.
pub proof fn lemma_calls_stay_within_schedule(base: nat, cap: nat, calls: Seq<bool>)
    requires
        base <= cap,
        2 * cap <= MAX_NANOS,
    ensures
        within_schedule(after_calls(initial_state(base, cap), calls), base, cap),
        2 * after_calls(initial_state(base, cap), calls).current <= MAX_NANOS,
        advanced(after_calls(initial_state(base, cap), calls)).current == min_nat(
            2 * after_calls(initial_state(base, cap), calls).current,
            cap,
        ),
        advanced(after_calls(initial_state(base, cap), calls)).current >= after_calls(
            initial_state(base, cap),
            calls,
        ).current,
        within_schedule(advanced(after_calls(initial_state(base, cap), calls)), base, cap),
    decreases calls.len(),
{
    if calls.len() > 0 {
        lemma_calls_stay_within_schedule(base, cap, calls.drop_last());
    }
}

} // verus!
