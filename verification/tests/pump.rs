use bytes::Bytes;
use cameras::error::Error;
use cameras::pump::{
    capped_backoff, compute_backoff, delay_chosen, first_opened, frame_captured, frame_pulled, next_step,
    open_failed, paused, reopened, source_is_rtsp, spawn, spawn_with_policy, PumpAction,
    PumpStatus, PumpWorker, Pulled, ReconnectPolicy, BACKOFF_TICK_NANOS,
};
use cameras::source::CameraSource;
use cameras::types::{Device, DeviceId, Frame, FrameQuality, PixelFormat, Position, Transport};
use std::time::Duration;

const SECOND: u64 = 1_000_000_000;

fn rtsp() -> CameraSource {
    CameraSource::Rtsp { url: "rtsp://host/stream".into(), credentials: None }
}

fn usb() -> CameraSource {
    CameraSource::Usb(Device {
        id: DeviceId("/dev/video0".into()),
        name: "Webcam".into(),
        position: Position::External,
        transport: Transport::Usb,
    })
}

fn frame() -> Frame {
    Frame {
        width: 1,
        height: 1,
        stride: 0,
        timestamp: Duration::ZERO,
        pixel_format: PixelFormat::Rgb8,
        quality: FrameQuality::Intact,
        plane_primary: Bytes::from(vec![1, 2, 3]),
        plane_secondary: Bytes::new(),
    }
}

fn policy(max_attempts: Option<u32>) -> ReconnectPolicy {
    let mut policy = ReconnectPolicy::default();
    policy.max_attempts = max_attempts;
    policy
}

fn lost_worker(max_attempts: Option<u32>) -> PumpWorker {
    let mut worker = spawn_with_policy(&rtsp(), Some(policy(max_attempts)), 0);
    let pulled = frame_pulled(&mut worker, Err(Error::StreamEnded), SECOND);
    assert!(matches!(pulled, Pulled::Nothing));
    worker
}

#[test]
fn the_default_policy_is_patient() {
    let policy = ReconnectPolicy::default();
    assert_eq!(policy.initial_backoff_nanos, SECOND);
    assert_eq!(policy.max_backoff_nanos, 30 * SECOND);
    assert_eq!(policy.max_attempts, None);
    assert_eq!(f32::from_bits(policy.jitter_bits), 0.2);
    assert_eq!(policy.stall_timeout_nanos, 15 * SECOND);
}

#[test]
fn the_backoff_doubles_up_to_its_cap() {
    let policy = ReconnectPolicy::default();
    assert_eq!(capped_backoff(&policy, 0), SECOND);
    assert_eq!(capped_backoff(&policy, 3), 8 * SECOND);
    assert_eq!(capped_backoff(&policy, 5), 30 * SECOND);
    assert_eq!(capped_backoff(&policy, u32::MAX), 30 * SECOND);
}

#[test]
fn the_backoff_stops_doubling_after_twenty_attempts() {
    let mut policy = ReconnectPolicy::default();
    policy.initial_backoff_nanos = 1;
    policy.max_backoff_nanos = u64::MAX;
    assert_eq!(capped_backoff(&policy, 20), 1 << 20);
    assert_eq!(capped_backoff(&policy, 21), 1 << 20);
}

#[test]
fn jitter_moves_the_backoff_either_way() {
    assert_eq!(compute_backoff(1000, 0, 12345), 1000);
    assert_eq!(compute_backoff(1000, 200, 0), 800);
    assert_eq!(compute_backoff(1000, 200, 399), 1199);
    assert_eq!(compute_backoff(1000, 200, 400), 800);
    assert_eq!(compute_backoff(100, 200, 0), 0);
    assert_eq!(compute_backoff(u64::MAX, 1, 0), 0);
}

#[test]
fn an_active_pump_pulls_and_a_paused_one_rests() {
    let mut worker = spawn(0);
    assert!(matches!(next_step(&mut worker, false, false, true).action, PumpAction::Pull));
    assert!(matches!(next_step(&mut worker, false, false, false).action, PumpAction::Pause));
    paused(&mut worker, 7);
    assert_eq!(worker.last_frame_at, 7);
    assert!(matches!(next_step(&mut worker, true, false, true).action, PumpAction::Stop));
}

#[test]
fn requests_are_served_while_paused() {
    let mut worker = spawn(0);
    let step = next_step(&mut worker, false, true, false);
    assert!(!step.refuse_pending);
    assert!(matches!(step.action, PumpAction::Capture));
    let captured = frame_captured(&mut worker, Ok(frame()), 5);
    assert_eq!(captured.deliver.unwrap().plane_primary[2], 3);
    assert_eq!(captured.reply.unwrap().plane_primary[2], 3);
    assert_eq!(worker.last_frame_at, 5);
    let failed = frame_captured(&mut worker, Err(Error::Timeout), 9);
    assert!(failed.deliver.is_none() && failed.reply.is_none());
    assert_eq!(worker.last_frame_at, 5);
}

#[test]
fn requests_that_are_being_served_are_finished_before_the_end() {
    let mut worker = spawn(0);
    assert!(matches!(next_step(&mut worker, false, true, true).action, PumpAction::Capture));
    assert!(matches!(next_step(&mut worker, true, true, true).action, PumpAction::Capture));
    assert!(matches!(next_step(&mut worker, true, false, true).action, PumpAction::Stop));
    assert!(matches!(next_step(&mut worker, true, true, true).action, PumpAction::Stop));
}

#[test]
fn pulled_frames_are_delivered() {
    let mut worker = spawn(0);
    assert!(matches!(frame_pulled(&mut worker, Ok(frame()), 3), Pulled::Deliver(_)));
    assert_eq!(worker.last_frame_at, 3);
}

#[test]
fn without_a_policy_a_failure_is_the_end() {
    let mut worker = spawn(0);
    assert!(matches!(
        frame_pulled(&mut worker, Err(Error::Timeout), 100 * SECOND),
        Pulled::Nothing
    ));
    assert!(worker.retry.is_none());
    assert!(matches!(frame_pulled(&mut worker, Err(Error::StreamEnded), 0), Pulled::Stop));
}

#[test]
fn only_network_sources_reconnect() {
    assert!(source_is_rtsp(&rtsp()));
    assert!(!source_is_rtsp(&usb()));
    let worker = spawn_with_policy(&usb(), Some(policy(None)), 0);
    assert!(worker.reconnect.is_none());
    let worker = spawn_with_policy(&rtsp(), Some(policy(None)), 0);
    assert!(worker.reconnect.is_some());
}

#[test]
fn a_stalled_session_is_lost() {
    let mut worker = spawn_with_policy(&rtsp(), Some(policy(None)), 0);
    frame_pulled(&mut worker, Err(Error::Timeout), 15 * SECOND);
    assert!(worker.retry.is_none());
    frame_pulled(&mut worker, Err(Error::Timeout), 15 * SECOND + 1);
    assert_eq!(worker.retry.unwrap().reason, "stall_timeout_exceeded");
}

#[test]
fn a_lost_session_is_reopened_after_the_delay() {
    let mut worker = lost_worker(None);
    let step = next_step(&mut worker, false, true, true);
    assert!(step.refuse_pending);
    match step.action {
        PumpAction::ChooseDelay { capped_nanos } => assert_eq!(capped_nanos, SECOND),
        other => panic!("expected a delay, got {other:?}"),
    }
    match delay_chosen(&mut worker, BACKOFF_TICK_NANOS + 5) {
        PumpStatus::Reconnecting { attempt, next_delay_nanos, reason } => {
            assert_eq!(attempt, 0);
            assert_eq!(next_delay_nanos, BACKOFF_TICK_NANOS + 5);
            assert_eq!(reason, "next_frame_error");
        }
        other => panic!("expected a report, got {other:?}"),
    }
    let mut slept = 0;
    loop {
        match next_step(&mut worker, false, false, true).action {
            PumpAction::Wait { nanos } => slept += nanos,
            PumpAction::Open => break,
            other => panic!("expected to wait, got {other:?}"),
        }
    }
    assert_eq!(slept, BACKOFF_TICK_NANOS + 5);
    assert!(matches!(reopened(&mut worker, 99), PumpStatus::Connected));
    assert!(worker.retry.is_none());
    assert_eq!(worker.last_frame_at, 99);
}

#[test]
fn a_pump_gives_up_after_the_allowed_attempts() {
    let mut worker = lost_worker(Some(1));
    assert!(matches!(
        next_step(&mut worker, false, false, true).action,
        PumpAction::ChooseDelay { .. }
    ));
    delay_chosen(&mut worker, 0);
    assert!(matches!(next_step(&mut worker, false, false, true).action, PumpAction::Open));
    open_failed(&mut worker, &Error::DeviceInUse);
    match next_step(&mut worker, false, false, true).action {
        PumpAction::GiveUp { reason } => {
            assert_eq!(reason, "max_attempts_reached:open_failed:device is already in use");
        }
        other => panic!("expected to give up, got {other:?}"),
    }
}

#[test]
fn a_paused_pump_does_not_reconnect() {
    let mut worker = lost_worker(Some(0));
    let step = next_step(&mut worker, false, false, false);
    assert!(step.refuse_pending);
    assert!(matches!(step.action, PumpAction::Pause));
    let before = worker.last_frame_at;
    paused(&mut worker, 500);
    assert_eq!(worker.last_frame_at, before);
    assert!(matches!(
        next_step(&mut worker, false, false, true).action,
        PumpAction::GiveUp { .. }
    ));
    assert!(matches!(next_step(&mut worker, true, false, true).action, PumpAction::Stop));
}

#[test]
fn a_failed_first_open_is_handed_on() {
    let refused = Error::Backend { platform: "rtsp", message: "invalid RTSP URL: x".into() };
    let (worker, statuses) = first_opened(&rtsp(), Some(policy(None)), Err(refused), 7);
    match worker {
        Err(error) => assert_eq!(error.message(), "rtsp: invalid RTSP URL: x"),
        Ok(_) => panic!("expected a failure"),
    }
    assert_eq!(statuses.len(), 1);
    assert!(matches!(statuses[0], PumpStatus::Connecting));
    let (worker, statuses) = first_opened(&rtsp(), Some(policy(None)), Ok(()), 7);
    let worker = worker.unwrap();
    assert_eq!(worker.last_frame_at, 7);
    assert!(worker.reconnect.is_some());
    assert_eq!(statuses.len(), 2);
    assert!(matches!(statuses[0], PumpStatus::Connecting));
    assert!(matches!(statuses[1], PumpStatus::Connected));
    assert!(first_opened(&usb(), Some(policy(None)), Ok(()), 0).0.unwrap().reconnect.is_none());
}
