//! The background refresh schedule: a refresh 60 seconds after a success,
//! and after failures a delay that starts at 30 seconds and doubles up to
//! 30 minutes. The schedule keeps a due time on the wall clock, so a refresh
//! that fell due while the machine slept happens at the next check.

use vstd::prelude::*;

verus! {

/// Seconds to the next refresh after a success.
pub open spec fn success_delay() -> nat {
    60
}

/// The longest delay, in seconds.
pub open spec fn max_delay() -> nat {
    1800
}

/// Seconds to the next refresh after `failures` consecutive failures
/// (`failures >= 1`): 30, doubled per further failure, at most 30 minutes.
pub open spec fn failure_delay(failures: nat) -> nat
    decreases failures,
{
    if failures <= 1 {
        30
    } else {
        let doubled = 2 * failure_delay((failures - 1) as nat);
        if doubled < max_delay() {
            doubled
        } else {
            max_delay()
        }
    }
}

/// Seconds to the next refresh, given the consecutive failures so far
/// (0 right after a success).
pub open spec fn refresh_delay(failures: nat) -> nat {
    if failures == 0 {
        success_delay()
    } else {
        failure_delay(failures)
    }
}

/// Seconds until the next refresh.
pub fn refresh_delay_secs(consecutive_failures: u32) -> (r: u64)
    ensures
        r == refresh_delay(consecutive_failures as nat),
{
    if consecutive_failures == 0 {
        return 60;
    }
    let mut delay: u64 = 30;
    let mut k: u32 = 1;
    while k < consecutive_failures && delay < 1800
        invariant
            1 <= k <= consecutive_failures,
            delay == failure_delay(k as nat),
            delay <= 1800,
        decreases consecutive_failures - k,
    {
        delay = if 2 * delay < 1800 {
            2 * delay
        } else {
            1800
        };
        k = k + 1;
    }
    proof {
        if delay == 1800 {
            lemma_delay_stays_at_max(k as nat, consecutive_failures as nat);
        }
    }
    delay
}

/// Once the failure delay has reached its maximum it stays there.
proof fn lemma_delay_stays_at_max(k: nat, m: nat)
    requires
        1 <= k <= m,
        failure_delay(k) == max_delay(),
    ensures
        failure_delay(m) == max_delay(),
    decreases m - k,
{
    if k < m {
        assert(failure_delay(k + 1) == max_delay());
        lemma_delay_stays_at_max(k + 1, m);
    }
}

/// The poller's state: consecutive failures and the wall-clock second at
/// which the next refresh falls due.
#[derive(Clone, Copy)]
pub struct RefreshSchedule {
    pub consecutive_failures: u32,
    pub due_at: u64,
}

/// A schedule whose first refresh is due at once.
pub fn initial_schedule() -> (r: RefreshSchedule)
    ensures
        r.consecutive_failures == 0,
        r.due_at == 0,
{
    RefreshSchedule { consecutive_failures: 0, due_at: 0 }
}

/// Whether a refresh is due at wall-clock second `now`.
pub fn refresh_due(schedule: RefreshSchedule, now: u64) -> (r: bool)
    ensures
        r == (now >= schedule.due_at),
{
    now >= schedule.due_at
}

/// The schedule after a refresh attempt that ended at `now`: a success resets
/// the failures, a failure adds one (saturating), and the next refresh falls
/// due after the matching delay (saturating at the largest second).
pub fn after_attempt(schedule: RefreshSchedule, succeeded: bool, now: u64) -> (r: RefreshSchedule)
    ensures
        r.consecutive_failures == if succeeded {
            0
        } else if schedule.consecutive_failures == u32::MAX {
            u32::MAX as int
        } else {
            schedule.consecutive_failures + 1
        },
        r.due_at == if now + refresh_delay(r.consecutive_failures as nat) <= u64::MAX {
            now + refresh_delay(r.consecutive_failures as nat)
        } else {
            u64::MAX as int
        },
{
    let failures: u32 = if succeeded {
        0
    } else if schedule.consecutive_failures == u32::MAX {
        u32::MAX
    } else {
        schedule.consecutive_failures + 1
    };
    let delay = refresh_delay_secs(failures);
    let due_at = if now <= u64::MAX - delay {
        now + delay
    } else {
        u64::MAX
    };
    RefreshSchedule { consecutive_failures: failures, due_at }
}

/// After a failure the delay is between 30 seconds and 30 minutes, it never
/// shrinks with further failures, and from the seventh failure on it is 30
/// minutes.
pub proof fn lemma_backoff_bounds(failures: nat)
    requires
        failures >= 1,
    ensures
        30 <= failure_delay(failures) <= max_delay(),
        failure_delay(failures) <= failure_delay(failures + 1),
        failures >= 7 ==> failure_delay(failures) == max_delay(),
    decreases failures,
{
    if failures > 1 {
        lemma_backoff_bounds((failures - 1) as nat);
    }
    if failures == 7 {
        assert(failure_delay(1) == 30);
        assert(failure_delay(2) == 60);
        assert(failure_delay(3) == 120);
        assert(failure_delay(4) == 240);
        assert(failure_delay(5) == 480);
        assert(failure_delay(6) == 960);
    }
}

} // verus!
