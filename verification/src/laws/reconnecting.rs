//! How a pump gets a lost session back.

use crate::pump;
use crate::pump::{ActionView, ReconnectPolicy, RetryPhase, RetryView, WorkerView};
use vstd::arithmetic::{div_mod, power2};
use vstd::prelude::*;

verus! {

/// The smaller of two numbers.
pub open spec fn lesser(left: int, right: int) -> int {
    if left < right {
        left
    } else {
        right
    }
}

/// The first wait is the initial backoff, each further one is twice as long as the one before
/// it, up to the cap, and from the twentieth attempt on they stay as they are.
pub proof fn backoff_doubles(policy: ReconnectPolicy, attempt: u32)
    ensures
        pump::backoff(policy, 0) == lesser(
            policy.initial_backoff_nanos as int,
            policy.max_backoff_nanos as int,
        ),
        attempt < 20 ==> pump::backoff(policy, (attempt + 1) as u32) == lesser(
            2 * pump::backoff(policy, attempt),
            policy.max_backoff_nanos as int,
        ),
        attempt >= 20 ==> pump::backoff(policy, attempt) == pump::backoff(policy, 20),
{
    power2::lemma2_to64();
    assert(pump::backoff_factor(0) == 1);
    assert(policy.initial_backoff_nanos * 1 == policy.initial_backoff_nanos);
    if attempt < 20 {
        power2::lemma_pow2_unfold((attempt + 1) as nat);
        let (first, factor) = (policy.initial_backoff_nanos as int, power2::pow2(attempt as nat));
        assert(first * (2 * factor) == 2 * (first * factor)) by (nonlinear_arith);
    }
}

/// A pump that has a session and is neither paused nor asked for anything pulls frames, and
/// does so again after every frame; one that is paused waits.
pub proof fn streaming_pumps_pull(worker: WorkerView, draining: bool)
    requires
        worker.retry is None,
    ensures
        pump::action_of(worker, false, false, true) is Pull,
        pump::action_of(worker, false, false, false) is Pause,
        pump::after_step(worker, false, false, true) == (WorkerView { draining: false, ..worker }),
{
}

/// A pump that has lost its session, is not paused and has attempts left waits for the initial
/// backoff and then opens its source: it chooses a delay, sleeps it off, and opens.
pub proof fn lost_sessions_are_reopened(
    worker: WorkerView,
    policy: ReconnectPolicy,
    reason: Seq<char>,
    pending: bool,
)
    requires
        worker.reconnect == Some(policy),
        policy.max_attempts != Some(0u32),
    ensures
        pump::action_of(pump::lost(worker, reason), false, pending, true)
            == (ActionView::ChooseDelay {
            capped_nanos: lesser(
                policy.initial_backoff_nanos as int,
                policy.max_backoff_nanos as int,
            ) as u64,
        }),
        pump::waiting(0) == RetryPhase::Opening,
        forall|attempt: u32|
            pump::action_of(
                WorkerView {
                    retry: Some(RetryView { attempt, reason, phase: RetryPhase::Opening }),
                    ..worker
                },
                false,
                pending,
                true,
            ) is Open,
{
    backoff_doubles(policy, 0);
}

/// Where a wait stands after some of its sleeps.
pub open spec fn after_sleeps(worker: WorkerView, sleeps: nat) -> WorkerView
    decreases sleeps,
{
    if sleeps == 0 {
        worker
    } else {
        pump::after_step(after_sleeps(worker, (sleeps - 1) as nat), false, false, true)
    }
}

/// A wait comes to an end: after as many ticks of 100 milliseconds as its nanoseconds make up,
/// the last of them shorter where it does not come out even, the pump opens its source.
pub proof fn waits_end(worker: WorkerView, retry: RetryView, delay: u64, sleeps: nat)
    requires
        worker.reconnect is Some,
        worker.retry == Some(RetryView { phase: pump::waiting(delay), ..retry }),
        sleeps * 100_000_000 >= delay,
        sleeps > 0 ==> (sleeps - 1) * 100_000_000 < delay,
    ensures
        after_sleeps(worker, sleeps).retry == Some(
            RetryView { phase: RetryPhase::Opening, ..retry },
        ),
{
    if sleeps > 0 {
        sleeps_pass(worker, retry, delay, (sleeps - 1) as nat);
    }
}

proof fn sleeps_pass(worker: WorkerView, retry: RetryView, delay: u64, sleeps: nat)
    requires
        worker.reconnect is Some,
        worker.retry == Some(RetryView { phase: pump::waiting(delay), ..retry }),
        sleeps * 100_000_000 < delay,
    ensures
        after_sleeps(worker, sleeps).reconnect is Some,
        after_sleeps(worker, sleeps).retry == Some(
            RetryView { phase: pump::waiting((delay - sleeps * 100_000_000) as u64), ..retry },
        ),
    decreases sleeps,
{
    if sleeps > 0 {
        sleeps_pass(worker, retry, delay, (sleeps - 1) as nat);
    }
}

/// Between two seeds in a row a jittered backoff grows by a nanosecond, and after twice the
/// magnitude it starts over; it starts at the backoff less the magnitude.
pub proof fn jitter_runs_through_its_range(capped: u64, magnitude: u64, seed: u64)
    requires
        0 < magnitude <= capped,
        capped + magnitude <= i64::MAX,
        seed + magnitude * 2 <= u64::MAX,
    ensures
        pump::jittered(capped, magnitude, 0) == capped - magnitude,
        seed < magnitude * 2 - 1 ==> pump::jittered(capped, magnitude, (seed + 1) as u64)
            == pump::jittered(capped, magnitude, seed) + 1,
        pump::jittered(capped, magnitude, (seed + magnitude * 2) as u64) == pump::jittered(
            capped,
            magnitude,
            seed,
        ),
        pump::jittered(capped, 0, seed) == capped,
{
    let span = magnitude * 2;
    div_mod::lemma_mod_bound(seed as int, span);
    div_mod::lemma_mod_add_multiples_vanish(seed as int, span);
    div_mod::lemma_small_mod(0, span as nat);
    if seed < span - 1 {
        div_mod::lemma_small_mod(seed as nat, span as nat);
        div_mod::lemma_small_mod((seed + 1) as nat, span as nat);
    }
}

/// A session has stalled once no frame has come for longer than the policy allows, and not a
/// nanosecond earlier.
pub proof fn stalls_are_measured_from_the_last_frame(
    worker: WorkerView,
    now: u64,
    allowed: u64,
)
    ensures
        pump::quiet_for(worker, now) > allowed <==> now > worker.last_frame_at + allowed,
{
}

/// Requests that are being worked off are worked off to the last, even once the pump was told
/// to end; one that comes after that is not taken up.
pub proof fn requests_are_worked_off(worker: WorkerView, active: bool)
    requires
        worker.retry is None,
    ensures
        worker.draining ==> pump::action_of(worker, true, true, active) is Capture,
        !worker.draining ==> pump::action_of(worker, true, true, active) is Stop,
        pump::action_of(worker, true, false, active) is Stop,
        pump::after_step(worker, false, true, active).draining,
        !pump::after_step(worker, false, false, active).draining,
{
}

} // verus!
