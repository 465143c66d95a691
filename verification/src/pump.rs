//! Long-running background pump that pulls frames from a camera and hands
//! each one to a caller-provided sink.
//!
//! The pump owns the camera, so all frame I/O is serialized through a single
//! worker. The functions here are the worker's decisions: what to do next, given what it
//! observes, and what an outcome means. Callers can:
//! - Pause and resume streaming without closing the camera.
//! - Grab a single fresh frame on demand whether the pump is streaming or
//!   paused. The camera stays warm so latency is one
//!   frame interval plus up to 20ms of pause-wake.
//! - Stop the pump deterministically.
//!
//! # Pause semantics
//!
//! A paused pump does no per-frame work: it pulls no frames and calls no sink. The
//! OS-level camera pipeline, however, keeps
//! running: AVFoundation still delivers sample buffers, Media Foundation's
//! source reader still decodes, V4L2 still DMAs frames into userspace, and
//! they land in a bounded internal channel and get dropped when it
//! overflows.
//!
//! Times are nanoseconds on a clock that never goes back.

use crate::error::Error;
use crate::source::CameraSource;
use crate::text::append;
use crate::types::Frame;
use vstd::prelude::*;

verus! {

/// How long a paused worker sleeps before it looks again: 20 milliseconds.
pub const PAUSED_POLL_INTERVAL_NANOS: u64 = 20_000_000;

/// How long a worker between sessions sleeps at most before it looks again: 100
/// milliseconds.
pub const BACKOFF_TICK_NANOS: u64 = 100_000_000;

/// How many requests for a single frame may wait at a time.
pub const COMMAND_QUEUE_CAPACITY: usize = 16;

/// The attempt from which on the backoff no longer doubles.
pub const MAX_BACKOFF_SHIFT: u32 = 20;

/// Policy controlling automatic RTSP session re-establishment by a pump.
///
/// Applies only to a pump with a `CameraSource::Rtsp` source. USB sources ignore the
/// policy; their hotplug monitor handles device-loss.
#[derive(Clone, Copy, Debug, PartialEq, Eq, Structural)]
#[non_exhaustive]
pub struct ReconnectPolicy {
    /// Initial backoff duration after the first failure, in nanoseconds.
    pub initial_backoff_nanos: u64,
    /// Cap on backoff between attempts, in nanoseconds.
    pub max_backoff_nanos: u64,
    /// Upper bound on retry attempts. `None` means retry forever.
    pub max_attempts: Option<u32>,
    /// Fractional jitter (0.0..1.0) applied symmetrically to each backoff, as the bits of a
    /// 32-bit float.
    pub jitter_bits: u32,
    /// How long without a frame before the pump decides the session has stalled, in
    /// nanoseconds.
    pub stall_timeout_nanos: u64,
}

impl Default for ReconnectPolicy {
    fn default() -> (policy: ReconnectPolicy)
        ensures
            policy.initial_backoff_nanos == 1_000_000_000,
            policy.max_backoff_nanos == 30_000_000_000,
            policy.max_attempts is None,
            policy.jitter_bits == 0x3e4c_cccd,
            policy.stall_timeout_nanos == 15_000_000_000,
    {
        ReconnectPolicy {
            initial_backoff_nanos: 1_000_000_000,
            max_backoff_nanos: 30_000_000_000,
            max_attempts: None,
            jitter_bits: 0x3e4c_cccd,
            stall_timeout_nanos: 15_000_000_000,
        }
    }
}

/// Lifecycle events emitted on the optional status channel of a pump.
#[derive(Clone, Debug)]
#[non_exhaustive]
pub enum PumpStatus {
    /// The pump is opening the initial session.
    Connecting,
    /// The pump has an active session and is delivering frames.
    Connected,
    /// The pump is between sessions and waiting before attempt `attempt`.
    Reconnecting {
        /// Zero-based attempt counter; `0` for the first retry after failure.
        attempt: u32,
        /// Duration the pump will wait before the next attempt to open, in nanoseconds.
        next_delay_nanos: u64,
        /// Short machine-diagnosable identifier for why the previous session ended.
        reason: String,
    },
    /// The pump hit the policy's `max_attempts` cap and stopped.
    GaveUp {
        /// Short machine-diagnosable identifier for the last failure.
        reason: String,
    },
}

/// Where a worker between sessions stands.
#[derive(Clone, Copy, Debug, PartialEq, Eq, Structural)]
pub enum RetryPhase {
    /// About to decide whether and when to try again.
    Deciding,
    /// Waiting this much longer before it tries again.
    Waiting {
        /// Nanoseconds left.
        remaining_nanos: u64,
    },
    /// About to try.
    Opening,
}

/// A worker's attempts to get a session back.
#[derive(Debug)]
pub struct Retry {
    /// Attempts that have failed.
    pub attempt: u32,
    /// Why the previous session, or the previous attempt, ended.
    pub reason: String,
    /// Where the next attempt stands.
    pub phase: RetryPhase,
}

/// A pump's worker.
#[derive(Debug)]
pub struct PumpWorker {
    /// The policy by which a lost session is re-established, or `None` where it is not.
    pub reconnect: Option<ReconnectPolicy>,
    /// When the last frame came, or when the worker last was in no position to expect one.
    pub last_frame_at: u64,
    /// Whether the worker is working off requests for single frames.
    pub draining: bool,
    /// The attempts to get a session back, while there is none.
    pub retry: Option<Retry>,
}

/// What a worker does next.
#[derive(Debug)]
pub enum PumpAction {
    /// End.
    Stop,
    /// Take one request off the queue, pull a frame for it, and report what came.
    Capture,
    /// Sleep for the pause interval.
    Pause,
    /// Pull a frame, and report what came.
    Pull,
    /// Say that no further attempt is made, and end.
    GiveUp {
        /// Why.
        reason: String,
    },
    /// Choose how long to wait before the next attempt, and report it.
    ChooseDelay {
        /// The backoff before jitter.
        capped_nanos: u64,
    },
    /// Sleep.
    Wait {
        /// For how long.
        nanos: u64,
    },
    /// Open the source, and report what came of it.
    Open,
}

/// What a worker does next, and whether it first refuses the requests that wait for a single
/// frame.
#[derive(Debug)]
pub struct PumpStep {
    /// Whether every request that waits is answered with nothing first.
    pub refuse_pending: bool,
    /// What follows.
    pub action: PumpAction,
}

/// A [`Retry`] with its text as characters.
pub struct RetryView {
    pub attempt: u32,
    pub reason: Seq<char>,
    pub phase: RetryPhase,
}

/// A [`PumpWorker`] with its text as characters.
pub struct WorkerView {
    pub reconnect: Option<ReconnectPolicy>,
    pub last_frame_at: u64,
    pub draining: bool,
    pub retry: Option<RetryView>,
}

/// A [`PumpAction`] with its text as characters.
pub enum ActionView {
    Stop,
    Capture,
    Pause,
    Pull,
    GiveUp { reason: Seq<char> },
    ChooseDelay { capped_nanos: u64 },
    Wait { nanos: u64 },
    Open,
}

/// A [`PumpStatus`] with its text as characters.
pub enum StatusView {
    Connecting,
    Connected,
    Reconnecting { attempt: u32, next_delay_nanos: u64, reason: Seq<char> },
    GaveUp { reason: Seq<char> },
}

impl View for Retry {
    type V = RetryView;

    open spec fn view(&self) -> RetryView {
        RetryView { attempt: self.attempt, reason: self.reason@, phase: self.phase }
    }
}

impl View for PumpWorker {
    type V = WorkerView;

    open spec fn view(&self) -> WorkerView {
        WorkerView {
            reconnect: self.reconnect,
            last_frame_at: self.last_frame_at,
            draining: self.draining,
            retry: match self.retry {
                None => None,
                Some(retry) => Some(retry@),
            },
        }
    }
}

impl View for PumpAction {
    type V = ActionView;

    open spec fn view(&self) -> ActionView {
        match self {
            PumpAction::Stop => ActionView::Stop,
            PumpAction::Capture => ActionView::Capture,
            PumpAction::Pause => ActionView::Pause,
            PumpAction::Pull => ActionView::Pull,
            PumpAction::GiveUp { reason } => ActionView::GiveUp { reason: reason@ },
            PumpAction::ChooseDelay { capped_nanos } => ActionView::ChooseDelay {
                capped_nanos: *capped_nanos,
            },
            PumpAction::Wait { nanos } => ActionView::Wait { nanos: *nanos },
            PumpAction::Open => ActionView::Open,
        }
    }
}

impl View for PumpStatus {
    type V = StatusView;

    open spec fn view(&self) -> StatusView {
        match self {
            PumpStatus::Connecting => StatusView::Connecting,
            PumpStatus::Connected => StatusView::Connected,
            PumpStatus::Reconnecting { attempt, next_delay_nanos, reason } => {
                StatusView::Reconnecting {
                    attempt: *attempt,
                    next_delay_nanos: *next_delay_nanos,
                    reason: reason@,
                }
            },
            PumpStatus::GaveUp { reason } => StatusView::GaveUp { reason: reason@ },
        }
    }
}

impl WorkerView {
    /// A worker tries to get a session back only by a policy.
    pub open spec fn valid(self) -> bool {
        self.retry is Some ==> self.reconnect is Some
    }
}

/// Twice over, as often as `attempt` says, but no more than twenty times.
pub open spec fn backoff_factor(attempt: u32) -> nat {
    vstd::arithmetic::power2::pow2(
        if attempt < MAX_BACKOFF_SHIFT {
            attempt as nat
        } else {
            MAX_BACKOFF_SHIFT as nat
        },
    )
}

/// How long to wait before attempt `attempt`, before jitter: the initial backoff, doubled
/// for each attempt that failed, up to the cap.
pub open spec fn backoff(policy: ReconnectPolicy, attempt: u32) -> int {
    let scaled = policy.initial_backoff_nanos * backoff_factor(attempt);
    if scaled < policy.max_backoff_nanos {
        scaled
    } else {
        policy.max_backoff_nanos as int
    }
}

/// What a worker that has a session does next.
///
/// Requests for a single frame come before everything but the end, and the end waits until
/// those that are being worked off are done.
pub open spec fn streaming_action(
    draining: bool,
    shutdown: bool,
    pending: bool,
    active: bool,
) -> ActionView {
    if pending && (draining || !shutdown) {
        ActionView::Capture
    } else if shutdown {
        ActionView::Stop
    } else if !active {
        ActionView::Pause
    } else {
        ActionView::Pull
    }
}

/// What a worker between sessions does next.
pub open spec fn retry_action(
    policy: ReconnectPolicy,
    retry: RetryView,
    shutdown: bool,
    active: bool,
) -> ActionView {
    if shutdown {
        ActionView::Stop
    } else {
        match retry.phase {
            RetryPhase::Deciding => if !active {
                ActionView::Pause
            } else if policy.max_attempts matches Some(max) && retry.attempt >= max {
                ActionView::GiveUp { reason: "max_attempts_reached:"@ + retry.reason }
            } else {
                ActionView::ChooseDelay { capped_nanos: backoff(policy, retry.attempt) as u64 }
            },
            RetryPhase::Waiting { remaining_nanos } => ActionView::Wait {
                nanos: if remaining_nanos < BACKOFF_TICK_NANOS {
                    remaining_nanos
                } else {
                    BACKOFF_TICK_NANOS
                },
            },
            RetryPhase::Opening => ActionView::Open,
        }
    }
}

/// Where the next attempt stands with `remaining` nanoseconds to wait.
pub open spec fn waiting(remaining: u64) -> RetryPhase {
    if remaining == 0 {
        RetryPhase::Opening
    } else {
        RetryPhase::Waiting { remaining_nanos: remaining }
    }
}

/// What a worker does next.
pub open spec fn action_of(
    worker: WorkerView,
    shutdown: bool,
    pending: bool,
    active: bool,
) -> ActionView {
    match worker.retry {
        None => streaming_action(worker.draining, shutdown, pending, active),
        Some(retry) => retry_action(worker.reconnect->0, retry, shutdown, active),
    }
}

/// Whether a worker first refuses the requests that wait: between sessions it does, whenever
/// it decides or waits.
pub open spec fn refuses(worker: WorkerView, shutdown: bool) -> bool {
    match worker.retry {
        None => false,
        Some(retry) => match retry.phase {
            RetryPhase::Deciding => true,
            RetryPhase::Waiting { .. } => !shutdown,
            RetryPhase::Opening => false,
        },
    }
}

/// A worker once it has set out on its next action.
pub open spec fn after_step(
    worker: WorkerView,
    shutdown: bool,
    pending: bool,
    active: bool,
) -> WorkerView {
    match worker.retry {
        None => WorkerView {
            draining: streaming_action(worker.draining, shutdown, pending, active) is Capture,
            ..worker
        },
        Some(retry) => match retry_action(worker.reconnect->0, retry, shutdown, active) {
            ActionView::Wait { nanos } => WorkerView {
                retry: Some(
                    RetryView {
                        phase: waiting((retry.phase->remaining_nanos - nanos) as u64),
                        ..retry
                    },
                ),
                ..worker
            },
            _ => worker,
        },
    }
}

/// How long ago the last frame came.
pub open spec fn quiet_for(worker: WorkerView, now: u64) -> int {
    if now > worker.last_frame_at {
        now - worker.last_frame_at
    } else {
        0
    }
}

/// A worker that has lost its session.
pub open spec fn lost(worker: WorkerView, reason: Seq<char>) -> WorkerView {
    WorkerView {
        retry: Some(RetryView { attempt: 0, reason, phase: RetryPhase::Deciding }),
        ..worker
    }
}

/// Whether a source is a network stream, the kind that is re-opened when it is lost.
pub fn source_is_rtsp(source: &CameraSource) -> (rtsp: bool)
    ensures
        rtsp == (source is Rtsp),
{
    matches!(source, CameraSource::Rtsp { .. })
}

/// The worker of a pump whose session was just opened.
///
/// The session is re-established after a failure where the source is an RTSP one and there
/// is a policy. Non-RTSP sources ignore the policy.
pub fn spawn_with_policy(source: &CameraSource, policy: Option<ReconnectPolicy>, now: u64) -> (worker:
    PumpWorker)
    ensures
        worker@ == (WorkerView {
            reconnect: if source is Rtsp {
                policy
            } else {
                None
            },
            last_frame_at: now,
            draining: false,
            retry: None,
        }),
        worker@.valid(),
{
    PumpWorker {
        reconnect: if source_is_rtsp(source) {
            policy
        } else {
            None
        },
        last_frame_at: now,
        draining: false,
        retry: None,
    }
}

/// Statuses with their texts as characters.
pub open spec fn status_views(statuses: Seq<PumpStatus>) -> Seq<StatusView> {
    statuses.map_values(|status: PumpStatus| status@)
}

/// How a pump starts, given what came of opening its source for the first time, and the
/// statuses that are emitted on the way.
///
/// A pump whose source could not be opened does not start: the failure is handed on as it is,
/// and nothing is re-opened. Re-opening is for sessions that had been established.
pub fn first_opened(
    source: &CameraSource,
    policy: Option<ReconnectPolicy>,
    opened: Result<(), Error>,
    now: u64,
) -> (start: (Result<PumpWorker, Error>, Vec<PumpStatus>))
    ensures
        match opened {
            Err(error) => {
                &&& start.0 == Err::<PumpWorker, Error>(error)
                &&& status_views(start.1@) == seq![StatusView::Connecting]
            },
            Ok(_) => {
                &&& start.0 matches Ok(worker) && worker@.valid() && worker@ == (WorkerView {
                    reconnect: if source is Rtsp {
                        policy
                    } else {
                        None
                    },
                    last_frame_at: now,
                    draining: false,
                    retry: None,
                })
                &&& status_views(start.1@) == seq![StatusView::Connecting, StatusView::Connected]
            },
        },
{
    let mut statuses: Vec<PumpStatus> = Vec::new();
    statuses.push(PumpStatus::Connecting);
    match opened {
        Err(error) => {
            assert(status_views(statuses@) =~= seq![StatusView::Connecting]);
            (Err(error), statuses)
        },
        Ok(_) => {
            statuses.push(PumpStatus::Connected);
            assert(status_views(statuses@) =~= seq![StatusView::Connecting, StatusView::Connected]);
            (Ok(spawn_with_policy(source, policy, now)), statuses)
        },
    }
}

/// The worker of a pump that never re-opens its camera.
pub fn spawn(now: u64) -> (worker: PumpWorker)
    ensures
        worker@ == (WorkerView {
            reconnect: None,
            last_frame_at: now,
            draining: false,
            retry: None,
        }),
        worker@.valid(),
{
    PumpWorker { reconnect: None, last_frame_at: now, draining: false, retry: None }
}

/// The backoff before attempt `attempt`, before jitter.
pub fn capped_backoff(policy: &ReconnectPolicy, attempt: u32) -> (nanos: u64)
    ensures
        nanos == backoff(*policy, attempt),
{
    let shift: u32 = if attempt < MAX_BACKOFF_SHIFT {
        attempt
    } else {
        MAX_BACKOFF_SHIFT
    };
    let mut factor: u64 = 1;
    let mut i: u32 = 0;
    proof {
        vstd::arithmetic::power2::lemma2_to64();
    }
    while i < shift
        invariant
            i <= shift <= 20,
            factor == vstd::arithmetic::power2::pow2(i as nat),
            vstd::arithmetic::power2::pow2(20) == 0x10_0000,
        decreases shift - i,
    {
        proof {
            vstd::arithmetic::power2::lemma_pow2_unfold((i + 1) as nat);
            if i + 1 < 20 {
                vstd::arithmetic::power2::lemma_pow2_strictly_increases((i + 1) as nat, 20);
            }
        }
        factor = factor * 2;
        i = i + 1;
    }
    proof {
        if shift < 20 {
            vstd::arithmetic::power2::lemma_pow2_strictly_increases(shift as nat, 20);
        }
        assert(policy.initial_backoff_nanos * factor <= u64::MAX * 0x10_0000) by (nonlinear_arith)
            requires
                0 <= policy.initial_backoff_nanos <= u64::MAX,
                0 <= factor <= 0x10_0000,
        ;
        assert(0 <= policy.initial_backoff_nanos * factor) by (nonlinear_arith)
            requires
                0 <= policy.initial_backoff_nanos,
                0 <= factor,
        ;
    }
    let scaled: u128 = policy.initial_backoff_nanos as u128 * factor as u128;
    if scaled < policy.max_backoff_nanos as u128 {
        scaled as u64
    } else {
        policy.max_backoff_nanos
    }
}

/// A count of nanoseconds as a signed number of 64 bits. One past 292 years is negative.
pub open spec fn signed(nanos: u64) -> int {
    if nanos <= i64::MAX {
        nanos as int
    } else {
        nanos - 0x1_0000_0000_0000_0000
    }
}

/// How far `seed` moves a backoff: somewhere between `-magnitude` and `magnitude - 1`.
pub open spec fn jitter_offset(magnitude: u64, seed: u64) -> int {
    signed((seed as int % (magnitude * 2)) as u64) - signed(magnitude)
}

/// A backoff with jitter: moved as `seed` says, but not below zero.
pub open spec fn jittered(capped: u64, magnitude: u64, seed: u64) -> int {
    if magnitude == 0 {
        capped as int
    } else {
        let moved = signed(capped) + jitter_offset(magnitude, seed);
        if moved < 0 {
            0
        } else {
            moved
        }
    }
}

fn to_signed(nanos: u64) -> (same: i64)
    ensures
        same == signed(nanos),
{
    assert(nanos > 0x7fff_ffff_ffff_ffff ==> (nanos as i64) == nanos - 0x1_0000_0000_0000_0000)
        by (bit_vector);
    nanos as i64
}

/// Spread a backoff by `magnitude` to either side. `seed` is any number that varies.
pub fn compute_backoff(capped: u64, magnitude: u64, seed: u64) -> (nanos: u64)
    requires
        magnitude * 2 <= u64::MAX,
        magnitude > 0 ==> i64::MIN <= jitter_offset(magnitude, seed) <= i64::MAX,
        magnitude > 0 ==> i64::MIN <= signed(capped) + jitter_offset(magnitude, seed) <= i64::MAX,
    ensures
        nanos == jittered(capped, magnitude, seed),
{
    if magnitude == 0 {
        return capped;
    }
    let offset: i64 = to_signed(seed % (magnitude * 2)) - to_signed(magnitude);
    let moved: i64 = to_signed(capped) + offset;
    if moved < 0 {
        0
    } else {
        moved as u64
    }
}

/// Decide what a worker does next.
///
/// `shutdown` says whether the pump was told to end, `pending` whether a request for a
/// single frame waits, and `active` whether the pump is streaming rather than paused.
pub fn next_step(worker: &mut PumpWorker, shutdown: bool, pending: bool, active: bool) -> (step:
    PumpStep)
    requires
        old(worker)@.valid(),
    ensures
        step.action@ == action_of(old(worker)@, shutdown, pending, active),
        step.refuse_pending == refuses(old(worker)@, shutdown),
        final(worker)@ == after_step(old(worker)@, shutdown, pending, active),
        final(worker)@.valid(),
{
    let (policy, retry) = match (&worker.reconnect, &mut worker.retry) {
        (Some(policy), Some(retry)) => (*policy, retry),
        _ => {
            let capture = pending && (worker.draining || !shutdown);
            worker.draining = capture;
            let action = if capture {
                PumpAction::Capture
            } else if shutdown {
                PumpAction::Stop
            } else if !active {
                PumpAction::Pause
            } else {
                PumpAction::Pull
            };
            return PumpStep { refuse_pending: false, action };
        },
    };
    match retry.phase {
        RetryPhase::Deciding => {
            let exhausted = match policy.max_attempts {
                Some(max) => retry.attempt >= max,
                None => false,
            };
            let action = if shutdown {
                PumpAction::Stop
            } else if !active {
                PumpAction::Pause
            } else if exhausted {
                PumpAction::GiveUp {
                    reason: append("max_attempts_reached:".to_owned(), retry.reason.as_str()),
                }
            } else {
                PumpAction::ChooseDelay { capped_nanos: capped_backoff(&policy, retry.attempt) }
            };
            PumpStep { refuse_pending: true, action }
        },
        RetryPhase::Waiting { remaining_nanos } => {
            if shutdown {
                return PumpStep { refuse_pending: false, action: PumpAction::Stop };
            }
            let nanos: u64 = if remaining_nanos < BACKOFF_TICK_NANOS {
                remaining_nanos
            } else {
                BACKOFF_TICK_NANOS
            };
            retry.phase = phase_for(remaining_nanos - nanos);
            PumpStep { refuse_pending: true, action: PumpAction::Wait { nanos } }
        },
        RetryPhase::Opening => {
            let action = if shutdown {
                PumpAction::Stop
            } else {
                PumpAction::Open
            };
            PumpStep { refuse_pending: false, action }
        },
    }
}

fn phase_for(remaining: u64) -> (phase: RetryPhase)
    ensures
        phase == waiting(remaining),
{
    if remaining == 0 {
        RetryPhase::Opening
    } else {
        RetryPhase::Waiting { remaining_nanos: remaining }
    }
}

/// Take note that a pause is over. While there is a session, no frame was expected during
/// it.
pub fn paused(worker: &mut PumpWorker, now: u64)
    requires
        old(worker)@.valid(),
    ensures
        final(worker)@ == (WorkerView {
            last_frame_at: if old(worker)@.retry is None {
                now
            } else {
                old(worker)@.last_frame_at
            },
            ..old(worker)@
        }),
{
    if worker.retry.is_none() {
        worker.last_frame_at = now;
    }
}

/// Who gets a captured frame.
#[derive(Debug)]
pub struct Captured {
    /// What the sink gets.
    pub deliver: Option<Frame>,
    /// What the request is answered with.
    pub reply: Option<Frame>,
}

/// Take in what pulling a frame for a request gave: the sink gets the frame as well as
/// whoever asked, and a failure is answered with nothing.
pub fn frame_captured(worker: &mut PumpWorker, result: Result<Frame, Error>, now: u64) -> (captured:
    Captured)
    requires
        old(worker)@.valid(),
    ensures
        match result {
            Ok(frame) => {
                &&& captured.deliver matches Some(delivered) && delivered@ == frame@
                &&& captured.reply matches Some(reply) && reply@ == frame@
                &&& final(worker)@ == (WorkerView { last_frame_at: now, ..old(worker)@ })
            },
            Err(_) => {
                &&& captured.deliver is None
                &&& captured.reply is None
                &&& final(worker)@ == old(worker)@
            },
        },
{
    match result {
        Ok(frame) => {
            worker.last_frame_at = now;
            Captured { deliver: Some(frame.clone()), reply: Some(frame) }
        },
        Err(_) => Captured { deliver: None, reply: None },
    }
}

/// What pulling a frame leads to.
#[derive(Debug)]
pub enum Pulled {
    /// The sink gets a frame.
    Deliver(Frame),
    /// Nothing; the worker goes on.
    Nothing,
    /// The worker ends.
    Stop,
}

/// Take in what pulling a frame gave.
///
/// A frame goes to the sink. No frame in time is no failure, unless none came for longer
/// than the policy allows. A failure ends the worker, or the session where there is a
/// policy to get it back.
pub fn frame_pulled(worker: &mut PumpWorker, result: Result<Frame, Error>, now: u64) -> (pulled:
    Pulled)
    requires
        old(worker)@.valid(),
        old(worker)@.retry is None,
    ensures
        final(worker)@.valid(),
        match result {
            Ok(frame) => pulled == Pulled::Deliver(frame) && final(worker)@ == (WorkerView {
                last_frame_at: now,
                ..old(worker)@
            }),
            Err(Error::Timeout) => pulled is Nothing && final(worker)@ == (match old(worker)@.reconnect {
                Some(policy) => if quiet_for(old(worker)@, now) > policy.stall_timeout_nanos {
                    lost(old(worker)@, "stall_timeout_exceeded"@)
                } else {
                    old(worker)@
                },
                None => old(worker)@,
            }),
            Err(_) => match old(worker)@.reconnect {
                Some(_) => pulled is Nothing && final(worker)@ == lost(
                    old(worker)@,
                    "next_frame_error"@,
                ),
                None => pulled is Stop && final(worker)@ == old(worker)@,
            },
        },
{
    match result {
        Ok(frame) => {
            worker.last_frame_at = now;
            Pulled::Deliver(frame)
        },
        Err(Error::Timeout) => {
            if let Some(policy) = &worker.reconnect {
                let quiet: u64 = if now > worker.last_frame_at {
                    now - worker.last_frame_at
                } else {
                    0
                };
                if quiet > policy.stall_timeout_nanos {
                    worker.retry = Some(
                        Retry {
                            attempt: 0,
                            reason: "stall_timeout_exceeded".to_owned(),
                            phase: RetryPhase::Deciding,
                        },
                    );
                }
            }
            Pulled::Nothing
        },
        Err(_) => {
            if worker.reconnect.is_none() {
                return Pulled::Stop;
            }
            worker.retry = Some(
                Retry {
                    attempt: 0,
                    reason: "next_frame_error".to_owned(),
                    phase: RetryPhase::Deciding,
                },
            );
            Pulled::Nothing
        },
    }
}

/// Take in how long to wait before the next attempt, and say what to report of it.
pub fn delay_chosen(worker: &mut PumpWorker, delay_nanos: u64) -> (status: PumpStatus)
    requires
        old(worker)@.valid(),
        old(worker)@.retry is Some,
    ensures
        status@ == (StatusView::Reconnecting {
            attempt: old(worker)@.retry->0.attempt,
            next_delay_nanos: delay_nanos,
            reason: old(worker)@.retry->0.reason,
        }),
        final(worker)@ == (WorkerView {
            retry: Some(RetryView { phase: waiting(delay_nanos), ..old(worker)@.retry->0 }),
            ..old(worker)@
        }),
        final(worker)@.valid(),
{
    match &mut worker.retry {
        Some(retry) => {
            retry.phase = phase_for(delay_nanos);
            PumpStatus::Reconnecting {
                attempt: retry.attempt,
                next_delay_nanos: delay_nanos,
                reason: retry.reason.clone(),
            }
        },
        None => PumpStatus::Connecting,
    }
}

/// Take in that the source was opened again, and say what to report of it.
pub fn reopened(worker: &mut PumpWorker, now: u64) -> (status: PumpStatus)
    requires
        old(worker)@.valid(),
    ensures
        status@ is Connected,
        final(worker)@ == (WorkerView { retry: None, last_frame_at: now, ..old(worker)@ }),
        final(worker)@.valid(),
{
    worker.retry = None;
    worker.last_frame_at = now;
    PumpStatus::Connected
}

/// Take in that the source could not be opened.
pub fn open_failed(worker: &mut PumpWorker, error: &Error)
    requires
        old(worker)@.valid(),
        old(worker)@.retry is Some,
    ensures
        final(worker)@ == (WorkerView {
            retry: Some(
                RetryView {
                    attempt: if old(worker)@.retry->0.attempt < u32::MAX {
                        (old(worker)@.retry->0.attempt + 1) as u32
                    } else {
                        u32::MAX
                    },
                    reason: "open_failed:"@ + error@.text(),
                    phase: RetryPhase::Deciding,
                },
            ),
            ..old(worker)@
        }),
        final(worker)@.valid(),
{
    let attempt: u32 = match &worker.retry {
        Some(retry) => retry.attempt.saturating_add(1),
        None => 0,
    };
    worker.retry = Some(
        Retry {
            attempt,
            reason: append("open_failed:".to_owned(), error.message().as_str()),
            phase: RetryPhase::Deciding,
        },
    );
}

} // verus!
