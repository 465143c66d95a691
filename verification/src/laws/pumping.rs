//! What holds of the pump and of the queue that feeds it: pausing, single frames, reconnecting,
//! ending, and falling behind.

use crate::camera;
use crate::camera::FRAME_QUEUE_CAPACITY;
use crate::pump;
use crate::pump::{ActionView, ReconnectPolicy, RetryPhase, WorkerView};
use vstd::arithmetic::{mul, power2};
use vstd::prelude::*;

verus! {

/// A paused pump pulls no frames for its sink.
pub proof fn paused_pump_pulls_nothing(worker: WorkerView, shutdown: bool, pending: bool)
    ensures
        pump::action_of(worker, shutdown, pending, false) !is Pull,
{
}

/// A single frame can be had whether the pump is streaming or paused, as long as it has a
/// session and has not been told to end.
pub proof fn single_frames_work_while_paused(worker: WorkerView, active: bool)
    requires
        worker.retry is None,
    ensures
        pump::action_of(worker, false, true, active) is Capture,
{
}

/// Between sessions no frame is pulled, neither for the sink nor for a request.
pub proof fn no_frames_between_sessions(
    worker: WorkerView,
    shutdown: bool,
    pending: bool,
    active: bool,
)
    requires
        worker.retry is Some,
    ensures
        pump::action_of(worker, shutdown, pending, active) !is Pull,
        pump::action_of(worker, shutdown, pending, active) !is Capture,
{
}

/// A request that waits while the pump backs off is refused, not left waiting: whenever the
/// worker decides or sleeps between sessions, it refuses what waits first.
pub proof fn requests_are_refused_while_backing_off(
    worker: WorkerView,
    pending: bool,
    active: bool,
)
    requires
        worker.retry is Some,
    ensures
        pump::action_of(worker, false, pending, active) !is Open ==> pump::refuses(worker, false),
{
}

/// A pump without a policy, and so every USB pump, never tries to get a session back, and
/// stays so whatever it does.
pub proof fn without_a_policy_nothing_is_reopened(
    worker: WorkerView,
    shutdown: bool,
    pending: bool,
    active: bool,
)
    requires
        worker.valid(),
        worker.reconnect is None,
    ensures
        match pump::action_of(worker, shutdown, pending, active) {
            ActionView::Stop | ActionView::Capture | ActionView::Pause | ActionView::Pull => true,
            _ => false,
        },
        pump::after_step(worker, shutdown, pending, active).valid(),
        pump::after_step(worker, shutdown, pending, active).reconnect is None,
{
}

/// A pump that is told to end does so with its next action, once the requests that it is
/// working off are done.
pub proof fn shutdown_ends_the_pump(worker: WorkerView, pending: bool, active: bool)
    ensures
        !(worker.draining && pending && worker.retry is None) ==> pump::action_of(
            worker,
            true,
            pending,
            active,
        ) is Stop,
{
}

/// A pump that is not told to end stops by itself only by giving up, and it gives up only
/// once the policy's attempts are used up.
pub proof fn giving_up_takes_all_attempts(worker: WorkerView, pending: bool, active: bool)
    requires
        worker.valid(),
    ensures
        pump::action_of(worker, false, pending, active) !is Stop,
        pump::action_of(worker, false, pending, active) is GiveUp ==> {
            &&& worker.reconnect->0.max_attempts is Some
            &&& worker.retry->0.attempt >= worker.reconnect->0.max_attempts->0
        },
{
}

/// No attempt is started beyond the policy's bound.
pub proof fn attempts_are_bounded(worker: WorkerView, shutdown: bool, pending: bool, active: bool)
    requires
        worker.valid(),
        pump::action_of(worker, shutdown, pending, active) is ChooseDelay,
    ensures
        worker.reconnect->0.max_attempts matches Some(max) ==> worker.retry->0.attempt < max,
{
}

/// Each sleep between sessions is at least a nanosecond and at most a tick long, and takes
/// exactly its length off what is left to wait.
pub proof fn sleeps_use_up_the_delay(worker: WorkerView, pending: bool, active: bool)
    requires
        worker.retry matches Some(retry) && (retry.phase matches RetryPhase::Waiting {
            remaining_nanos,
        } && remaining_nanos > 0),
    ensures
        pump::action_of(worker, false, pending, active) matches ActionView::Wait { nanos } && {
            let left = worker.retry->0.phase->remaining_nanos;
            &&& 0 < nanos <= 100_000_000
            &&& nanos <= left
            &&& pump::after_step(worker, false, pending, active).retry matches Some(next)
                && next.phase == pump::waiting((left - nanos) as u64)
        },
{
}

/// The backoff never exceeds the policy's cap.
pub proof fn backoff_is_capped(policy: ReconnectPolicy, attempt: u32)
    ensures
        0 <= pump::backoff(policy, attempt) <= policy.max_backoff_nanos,
{
    assert(0 <= policy.initial_backoff_nanos * pump::backoff_factor(attempt)) by (nonlinear_arith)
        requires
            0 <= policy.initial_backoff_nanos,
            0 <= pump::backoff_factor(attempt),
    ;
}

/// The backoff never shrinks from one attempt to a later one.
pub proof fn backoff_never_shrinks(policy: ReconnectPolicy, earlier: u32, later: u32)
    requires
        earlier <= later,
    ensures
        pump::backoff(policy, earlier) <= pump::backoff(policy, later),
{
    let a = if earlier < 20 {
        earlier as nat
    } else {
        20
    };
    let b = if later < 20 {
        later as nat
    } else {
        20
    };
    if a < b {
        power2::lemma_pow2_strictly_increases(a, b);
    }
    mul::lemma_mul_inequality(
        power2::pow2(a) as int,
        power2::pow2(b) as int,
        policy.initial_backoff_nanos as int,
    );
    mul::lemma_mul_is_commutative(
        power2::pow2(a) as int,
        policy.initial_backoff_nanos as int,
    );
    mul::lemma_mul_is_commutative(
        power2::pow2(b) as int,
        policy.initial_backoff_nanos as int,
    );
}

/// Jitter moves a backoff by no more than its magnitude, to either side, as long as the two
/// keep within 292 years.
pub proof fn jitter_is_symmetric_and_bounded(capped: u64, magnitude: u64, seed: u64)
    requires
        magnitude > 0 ==> capped <= i64::MAX && magnitude * 2 <= i64::MAX + 1,
    ensures
        0 <= pump::jittered(capped, magnitude, seed),
        capped - magnitude <= pump::jittered(capped, magnitude, seed) <= capped + magnitude,
{
    if magnitude > 0 {
        vstd::arithmetic::div_mod::lemma_mod_bound(seed as int, magnitude * 2);
    }
}

/// Setting out on an action changes neither the policy nor the time of the last frame.
pub proof fn steps_keep_policy_and_time(worker: WorkerView, shutdown: bool, pending: bool, active: bool)
    requires
        worker.valid(),
    ensures
        pump::after_step(worker, shutdown, pending, active).valid(),
        pump::after_step(worker, shutdown, pending, active).reconnect == worker.reconnect,
        pump::after_step(worker, shutdown, pending, active).last_frame_at == worker.last_frame_at,
{
}

/// What a queue holds once `items` were offered to it in turn and none was read.
pub open spec fn offered_all<T>(queue: Seq<T>, items: Seq<T>) -> Seq<T>
    decreases items.len(),
{
    if items.len() == 0 {
        queue
    } else {
        camera::offered(offered_all(queue, items.drop_last()), items.last())
    }
}

/// A full queue drops its oldest frame for a new one, and one with room drops nothing.
pub proof fn full_queues_drop_the_oldest<T>(queue: Seq<T>, item: T)
    requires
        queue.len() <= FRAME_QUEUE_CAPACITY,
    ensures
        camera::offered(queue, item) == if queue.len() == FRAME_QUEUE_CAPACITY {
            queue.drop_first().push(item)
        } else {
            queue.push(item)
        },
        camera::offered(queue, item).len() <= FRAME_QUEUE_CAPACITY,
{
    reveal_with_fuel(camera::offered, 2);
}

/// A reader that has fallen behind finds the most recent frames, oldest first: of all frames
/// offered to an empty queue, the last ones wait, as many as the queue takes.
pub proof fn slow_readers_find_the_latest<T>(items: Seq<T>)
    ensures
        offered_all(Seq::empty(), items) == items.subrange(
            if items.len() > FRAME_QUEUE_CAPACITY {
                items.len() - FRAME_QUEUE_CAPACITY
            } else {
                0
            },
            items.len() as int,
        ),
    decreases items.len(),
{
    if items.len() > 0 {
        let shorter = items.drop_last();
        slow_readers_find_the_latest(shorter);
        full_queues_drop_the_oldest(offered_all(Seq::empty(), shorter), items.last());
    }
    assert(offered_all(Seq::empty(), items) =~= items.subrange(
        if items.len() > FRAME_QUEUE_CAPACITY {
            items.len() - FRAME_QUEUE_CAPACITY
        } else {
            0
        },
        items.len() as int,
    ));
}

} // verus!
