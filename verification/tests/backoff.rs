use temperpaw::backoff::{
    capped_budget_wait, classify_close_code, classify_identify_budget, identify_budget_max_sleep,
    reconnect_delay_with_jitter, rest_status_is_fatal, Backoff, CloseAction, IdentifyBudget,
    IDENTIFY_BUDGET_SAFETY_THRESHOLD,
};
use temperpaw::duration::Duration;

#[test]
fn fatal_close_codes_are_not_retried() {
    for code in [4004u16, 4010, 4011, 4012, 4013, 4014] {
        assert_eq!(
            classify_close_code(code),
            CloseAction::Fatal,
            "close code {code} must be fatal"
        );
    }
}

#[test]
fn session_invalidating_codes_force_reidentify() {
    for code in [4003u16, 4007, 4009] {
        assert_eq!(
            classify_close_code(code),
            CloseAction::Reidentify,
            "close code {code} must clear the session and re-identify"
        );
    }
}

#[test]
fn transient_codes_resume() {
    for code in [4000u16, 4001, 4002, 4005, 4008, 1000, 1001, 1006, 9999] {
        assert_eq!(
            classify_close_code(code),
            CloseAction::Resume,
            "close code {code} should be a resumable reconnect"
        );
    }
}

#[test]
fn rest_auth_failures_are_fatal() {
    assert!(rest_status_is_fatal(401));
    assert!(rest_status_is_fatal(403));
    assert!(!rest_status_is_fatal(429));
    assert!(!rest_status_is_fatal(500));
    assert!(!rest_status_is_fatal(200));
}

#[test]
fn backoff_doubles_and_caps() {
    let mut b = Backoff::new(Duration::from_secs(1), Duration::from_secs(60));
    assert_eq!(b.advance(), Duration::from_secs(1));
    assert_eq!(b.advance(), Duration::from_secs(2));
    assert_eq!(b.advance(), Duration::from_secs(4));
    assert_eq!(b.advance(), Duration::from_secs(8));
    assert_eq!(b.advance(), Duration::from_secs(16));
    assert_eq!(b.advance(), Duration::from_secs(32));
    assert_eq!(b.advance(), Duration::from_secs(60)); // capped
    assert_eq!(b.advance(), Duration::from_secs(60)); // stays capped
}

#[test]
fn backoff_reset_returns_to_base() {
    let mut b = Backoff::new(Duration::from_secs(1), Duration::from_secs(60));
    b.advance();
    b.advance();
    b.reset();
    assert_eq!(b.advance(), Duration::from_secs(1));
}

#[test]
fn budget_proceeds_when_remaining_above_threshold() {
    let reset = Duration::from_secs(3600);
    assert_eq!(
        classify_identify_budget(500, reset, IDENTIFY_BUDGET_SAFETY_THRESHOLD),
        IdentifyBudget::Proceed
    );
    // Exactly one above the threshold still proceeds.
    assert_eq!(
        classify_identify_budget(
            IDENTIFY_BUDGET_SAFETY_THRESHOLD + 1,
            reset,
            IDENTIFY_BUDGET_SAFETY_THRESHOLD
        ),
        IdentifyBudget::Proceed
    );
}

#[test]
fn budget_exhausted_at_or_below_threshold() {
    let reset = Duration::from_secs(7200);
    // At the threshold: treat as exhausted (safety margin).
    assert_eq!(
        classify_identify_budget(
            IDENTIFY_BUDGET_SAFETY_THRESHOLD,
            reset,
            IDENTIFY_BUDGET_SAFETY_THRESHOLD
        ),
        IdentifyBudget::Exhausted { wait: reset }
    );
    // Fully drained.
    assert_eq!(
        classify_identify_budget(0, reset, IDENTIFY_BUDGET_SAFETY_THRESHOLD),
        IdentifyBudget::Exhausted { wait: reset }
    );
}

#[test]
fn budget_wait_is_capped_for_the_in_process_sleep() {
    let long = Duration::from_secs(24 * 3600);
    assert_eq!(
        capped_budget_wait(long),
        identify_budget_max_sleep(),
        "a huge reset_after is capped to the max sleep"
    );
    let short = Duration::from_secs(30);
    assert_eq!(
        capped_budget_wait(short),
        short,
        "a short reset_after is used as-is"
    );
}

// ---- further cases

#[test]
fn max_sleep_is_fifteen_minutes() {
    assert_eq!(identify_budget_max_sleep(), Duration::from_secs(900));
    assert_eq!(capped_budget_wait(Duration::from_secs(900)), Duration::from_secs(900));
    assert_eq!(capped_budget_wait(Duration::from_secs(901)), Duration::from_secs(900));
}

#[test]
fn close_codes_next_to_fatal_ones_resume() {
    assert_eq!(classify_close_code(4015), CloseAction::Resume);
    assert_eq!(classify_close_code(4006), CloseAction::Resume);
    assert_eq!(classify_close_code(0), CloseAction::Resume);
    assert_eq!(classify_close_code(u16::MAX), CloseAction::Resume);
}

#[test]
fn delay_schedule_from_base_doubles_until_cap() {
    // min(base * 2^k, cap) from the second advance on
    let mut b = Backoff::new(Duration::from_millis(300), Duration::from_secs(5));
    let expected = [300u64, 600, 1200, 2400, 4800, 5000, 5000];
    for ms in expected {
        assert_eq!(b.advance(), Duration::from_millis(ms));
    }
}

#[test]
fn base_above_cap_is_handed_out_once() {
    let mut b = Backoff::new(Duration::from_secs(10), Duration::from_secs(3));
    assert_eq!(b.advance(), Duration::from_secs(10));
    assert_eq!(b.advance(), Duration::from_secs(3));
    assert_eq!(b.advance(), Duration::from_secs(3));
}

#[test]
fn reset_restarts_the_schedule() {
    let mut b = Backoff::new(Duration::from_secs(2), Duration::from_secs(100));
    for _ in 0..5 {
        b.advance();
    }
    b.reset();
    assert_eq!(b.advance(), Duration::from_secs(2));
    assert_eq!(b.advance(), Duration::from_secs(4));
}

#[test]
fn resume_reconnect_only_adds_jitter() {
    // a random draw of 0.5 gives 500 ms of jitter
    assert_eq!(
        reconnect_delay_with_jitter(false, Duration::zero(), 0, 0),
        Duration::zero()
    );
    assert_eq!(
        reconnect_delay_with_jitter(false, Duration::zero(), 500, 2000),
        Duration::from_millis(500)
    );
    assert_eq!(
        reconnect_delay_with_jitter(false, Duration::from_secs(8), 1000, 4000),
        Duration::from_millis(9000)
    );
}

#[test]
fn identify_reconnect_waits_at_least_the_floor() {
    assert_eq!(
        reconnect_delay_with_jitter(true, Duration::zero(), 0, 0),
        Duration::from_secs(1)
    );
    assert_eq!(
        reconnect_delay_with_jitter(true, Duration::zero(), 1000, 4000),
        Duration::from_secs(5)
    );
    assert_eq!(
        reconnect_delay_with_jitter(true, Duration::from_millis(200), 0, 0),
        Duration::from_secs(1)
    );
    assert_eq!(
        reconnect_delay_with_jitter(true, Duration::from_secs(30), 0, 0),
        Duration::from_secs(30)
    );
}

#[test]
fn jitter_on_the_longest_backoff_saturates() {
    assert_eq!(
        reconnect_delay_with_jitter(false, Duration::max_value(), 1000, 0),
        Duration::max_value()
    );
}

#[test]
fn duration_parts() {
    let d = Duration::from_millis(1500);
    assert_eq!(d.as_secs(), 1);
    assert_eq!(d.subsec_nanos(), 500_000_000);
    assert_eq!(d.as_millis(), 1500);
    assert_eq!(d.as_nanos(), 1_500_000_000);
    assert_eq!(Duration::from_nanos(7).as_nanos(), 7);
    assert_eq!(Duration::from_secs(2).checked_mul(3), Some(Duration::from_secs(6)));
    assert_eq!(Duration::max_value().checked_mul(2), None);
    assert_eq!(Duration::from_secs(1).min(Duration::from_secs(2)), Duration::from_secs(1));
    assert_eq!(Duration::from_secs(1).max(Duration::from_secs(2)), Duration::from_secs(2));
}

#[test]
fn any_calls_keep_delays_between_base_and_cap() {
    let base = Duration::from_millis(100);
    let cap = Duration::from_millis(1000);
    let mut b = Backoff::new(base, cap);
    let calls = [true, true, true, false, true, true, true, true, true, false, false, true];
    let mut last: Option<Duration> = None;
    for advance in calls {
        if advance {
            let d = b.advance();
            assert!(d.as_nanos() >= base.as_nanos() && d.as_nanos() <= cap.as_nanos());
            if let Some(prev) = last {
                assert!(d.as_nanos() >= prev.as_nanos());
            }
            let next = b.current();
            assert_eq!(next.as_nanos(), (2 * d.as_nanos()).min(cap.as_nanos()));
            last = Some(d);
        } else {
            b.reset();
            last = None;
        }
    }
}

#[test]
fn jittered_delay_never_undercuts_backoff() {
    let longest = Duration::max_value();
    let d = reconnect_delay_with_jitter(false, longest, 999, 0);
    assert!(d.as_nanos() >= longest.as_nanos());
    let d = reconnect_delay_with_jitter(true, Duration::from_secs(30), 0, 4000);
    assert_eq!(d.as_nanos(), Duration::from_secs(30).as_nanos());
}
