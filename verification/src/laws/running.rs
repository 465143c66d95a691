//! What holds of streams that run: what becomes of each frame, and when a session ends.

use crate::analysis;
use crate::analysis::Ring;
use crate::autofocus;
use crate::autofocus::{AutofocusAction, AutofocusPhase, AutofocusState};
use crate::camera;
use crate::camera::{FrameSlot, OfferStep};
use crate::channel::Received;
use crate::controls;
use crate::decode;
use crate::decode::{Decoded, OutputQueue, VideoCodec};
use crate::discover;
use crate::discover::{ChannelScan, DiscoverEvent};
use crate::error::Error;
use crate::pump;
use crate::pump::{Captured, Pulled, PumpStatus, PumpWorker, ReconnectPolicy};
use crate::rtsp;
use crate::rtsp::VideoParameters;
use crate::session;
use crate::session::UseDiscovery;
use crate::source::CameraSource;
use crate::streaming;
use crate::streaming::{Packet, PacketAction, RtspSession, SessionAction, SessionPhase};
use crate::types::{Frame, FrameQuality, PixelFormat};
use crate::wire;
use crate::wire::{DescribeResult, ProbeError};
use std::time::Duration;
use vstd::prelude::*;

verus! {

/// A frame that was pulled goes to the sink as it is, and counts as a sign of life.
pub proof fn pulled_frames_reach_the_sink(frame: Frame, now: u64)
    ensures
        forall|worker: &mut PumpWorker, pulled: Pulled| #[trigger]
            call_ensures(pump::frame_pulled, (worker, Ok::<Frame, Error>(frame), now), pulled) ==> {
                &&& pulled == Pulled::Deliver(frame)
                &&& final(worker).last_frame_at == now
                &&& final(worker).retry is Some == worker.retry is Some
            },
{
}

/// A session is given up for stalled exactly where no frame has come for longer than the
/// policy allows; until then, and without a policy, waiting in vain changes nothing.
pub proof fn stalled_sessions_are_lost(now: u64)
    ensures
        forall|worker: &mut PumpWorker, pulled: Pulled| #[trigger]
            call_ensures(
                pump::frame_pulled,
                (worker, Err::<Frame, Error>(Error::Timeout), now),
                pulled,
            ) && worker.retry is None ==> {
                &&& pulled is Nothing
                &&& final(worker).retry is Some <==> (worker.reconnect matches Some(policy) && now
                    > worker.last_frame_at + policy.stall_timeout_nanos)
                &&& final(worker).reconnect == worker.reconnect
            },
{
}

/// A failure ends the pump where there is no policy, and the session where there is one.
pub proof fn failures_end_pump_or_session(error: Error, now: u64)
    requires
        !(error is Timeout),
    ensures
        forall|worker: &mut PumpWorker, pulled: Pulled| #[trigger]
            call_ensures(pump::frame_pulled, (worker, Err::<Frame, Error>(error), now), pulled)
                && worker.retry is None ==> {
                &&& pulled is Stop <==> worker.reconnect is None
                &&& final(worker).retry is Some <==> worker.reconnect is Some
                &&& final(worker).retry matches Some(retry) ==> retry.attempt == 0
            },
{
}

/// Whoever asks for a single frame gets the one that was pulled, and so does the sink.
pub proof fn captured_frames_reach_both(frame: Frame, now: u64)
    ensures
        forall|worker: &mut PumpWorker, captured: Captured| #[trigger]
            call_ensures(pump::frame_captured, (worker, Ok::<Frame, Error>(frame), now), captured)
                ==> {
                &&& captured.deliver matches Some(delivered) && delivered@ == frame@
                &&& captured.reply matches Some(reply) && reply@ == frame@
            },
{
}

/// Each attempt that fails counts as one more, and each that succeeds ends the counting.
pub proof fn attempts_are_counted(error: Error, now: u64)
    ensures
        forall|worker: &mut PumpWorker| #[trigger]
            call_ensures(pump::open_failed, (worker, &error), ()) ==> (worker.retry matches Some(
                before,
            ) ==> final(worker).retry matches Some(after) && (before.attempt < u32::MAX
                ==> after.attempt == before.attempt + 1)),
        forall|worker: &mut PumpWorker, status: pump::PumpStatus| #[trigger]
            call_ensures(pump::reopened, (worker, now), status) ==> final(worker).retry is None
                && final(worker).last_frame_at == now && status is Connected,
{
}

/// Three frames wait for a slow reader, and the next one drives out the oldest.
pub proof fn three_frames_wait<T>(first: T, second: T, third: T, next: T)
    ensures
        camera::offered(seq![first, second], third) == seq![first, second, third],
        camera::offered(seq![first, second, third], next) == seq![second, third, next],
        forall|waiting: usize, step: OfferStep| #[trigger]
            call_ensures(camera::offer_step, (waiting,), step) ==> (step == OfferStep::Send
                <==> waiting < 3),
{
    reveal_with_fuel(camera::offered, 3);
    assert(camera::offered(seq![first, second], third) =~= seq![first, second, third]);
    assert(seq![first, second, third].drop_first() =~= seq![second, third]);
    assert(camera::offered(seq![first, second, third], next) =~= seq![second, third, next]);
}

/// Waiting for a frame gives what was sent, a timeout where nothing was, and the end of the
/// stream where nothing will be.
pub proof fn readers_get_what_was_sent(
    received: Received<Result<Frame, Error>>,
    outcome: Result<Frame, Error>,
)
    requires
        call_ensures(camera::frame_outcome, (received,), outcome),
    ensures
        received matches Received::Item(item) ==> outcome == item,
        received is TimedOut ==> outcome == Err::<Frame, Error>(Error::Timeout),
        received is Disconnected ==> outcome == Err::<Frame, Error>(Error::StreamEnded),
{
}

/// A published frame is the one that is taken, once.
pub proof fn the_latest_frame_is_taken_once(frame: Frame)
    ensures
        forall|slot: &mut FrameSlot| #[trigger]
            call_ensures(camera::publish_frame, (slot, frame), ()) ==> final(slot).frame == Some(
                frame,
            ),
        forall|slot: &mut FrameSlot, taken: Option<Frame>| #[trigger]
            call_ensures(camera::take_frame, (slot,), taken) ==> taken == slot.frame && final(slot).frame is None,
{
}

/// The sharpest frame of a ring is one that no other scores more than, and the latest of those.
pub proof fn the_sharpest_frame_is_found(ring: Ring, scores: &[u32], sharpest: Option<Frame>)
    requires
        scores@.len() == ring.frames@.len(),
        call_ensures(analysis::take_sharpest, (&ring, scores), sharpest),
    ensures
        sharpest is None <==> ring.frames@.len() == 0,
        sharpest matches Some(frame) ==> exists|index: int|
            {
                &&& 0 <= index < scores@.len()
                &&& frame@ == (#[trigger] ring.frames@[index])@
                &&& forall|i: int|
                    0 <= i < scores@.len() ==> scores@[i] <= scores@[index] && (i > index
                        ==> scores@[i] < scores@[index])
            },
{
    if let Some(frame) = sharpest {
        let index = choose|index: int|
            #[trigger] analysis::is_last_highest(scores@, index) && frame@
                == ring.frames@[index]@;
        assert(frame@ == ring.frames@[index]@);
    }
}

/// A decoder's frames are handed out in the order in which they came; the first of its failures
/// is handed out before them, and once.
pub proof fn decoded_frames_come_out_in_order(frame: Frame, status: i32)
    ensures
        forall|queue: &mut OutputQueue| #[trigger]
            call_ensures(decode::record_output, (queue, Decoded::Image(frame)), ()) ==> final(queue).frames@ == queue.frames@.push(frame),
        forall|queue: &mut OutputQueue| #[trigger]
            call_ensures(decode::record_output, (queue, Decoded::Failed(status)), ()) ==> final(queue).error is Some && (queue.error is Some ==> final(queue).error == queue.error),
        forall|queue: &mut OutputQueue, output: Result<Vec<Frame>, Error>| #[trigger]
            call_ensures(decode::take_output, (queue,), output) ==> {
                &&& final(queue).error is None
                &&& output is Err <==> queue.error is Some
                &&& output matches Ok(frames) ==> frames@ == queue.frames@ && final(queue).frames@.len() == 0
                &&& output is Err ==> final(queue).frames@ == queue.frames@
            },
{
}

/// A playable channel is a camera more, at its own number and path; any other answer ends the
/// search.
pub proof fn playable_channels_are_cameras(sdp: String, error: ProbeError)
    ensures
        forall|scan: &mut ChannelScan| #[trigger]
            call_ensures(
                discover::channel_answered,
                (scan, Ok::<DescribeResult, ProbeError>(DescribeResult::Playable { sdp })),
                (),
            ) ==> {
                let cameras = final(scan).cameras@;
                &&& cameras.len() == scan.found + 1
                &&& cameras.last().channel == Some((scan.found + 1) as u32)
                &&& cameras.last().host == scan.addr.ip
                &&& cameras.last().source matches CameraSource::Rtsp { url, credentials }
                    && credentials is None && url@ == wire::url_written(
                    scan.addr,
                    discover::channel_path_written((scan.found + 1) as u32),
                )
            },
        forall|scan: &mut ChannelScan| #[trigger]
            call_ensures(
                discover::channel_answered,
                (scan, Err::<DescribeResult, ProbeError>(error)),
                (),
            ) ==> final(scan).finished && final(scan).cameras == scan.cameras,
        forall|scan: &mut ChannelScan| #[trigger]
            call_ensures(
                discover::channel_answered,
                (scan, Ok::<DescribeResult, ProbeError>(DescribeResult::NotFound)),
                (),
            ) ==> final(scan).finished && final(scan).cameras == scan.cameras,
{
}

/// JPEG streams are passed on as they are, and streams of the two video codecs are decoded to
/// BGRA; no other encoding is delivered.
pub proof fn encodings_are_delivered(encoding: Seq<char>)
    ensures
        rtsp::delivery("jpeg"@) == Some((PixelFormat::Mjpeg, None::<VideoCodec>)),
        rtsp::delivery("h264"@) == Some((PixelFormat::Bgra8, Some(VideoCodec::H264))),
        rtsp::delivery("h265"@) == Some((PixelFormat::Bgra8, Some(VideoCodec::H265))),
        rtsp::delivery("hevc"@) == Some((PixelFormat::Bgra8, Some(VideoCodec::H265))),
        rtsp::delivery(encoding) is Some ==> encoding == "jpeg"@ || encoding == "h264"@ || encoding
            == "h265"@ || encoding == "hevc"@,
{
    reveal_strlit("jpeg");
    reveal_strlit("h264");
    reveal_strlit("h265");
    reveal_strlit("hevc");
    assert("jpeg"@[0] != "h264"@[0]);
    assert("jpeg"@[0] != "h265"@[0]);
    assert("jpeg"@[0] != "hevc"@[0]);
    assert("h264"@[3] != "h265"@[3]);
    assert("h264"@[1] != "hevc"@[1]);
}

/// A stream that ends or fails is over, and one that is only silent goes on.
pub proof fn silence_is_no_end(message: String)
    ensures
        forall|session: &mut RtspSession, action: PacketAction| #[trigger]
            call_ensures(streaming::packet_arrived, (session, Packet::TimedOut), action) ==> action
                is Continue && *final(session) == *session,
        forall|session: &mut RtspSession, action: PacketAction| #[trigger]
            call_ensures(streaming::packet_arrived, (session, Packet::Ended), action) ==> action
                is Stop && final(session).phase == SessionPhase::Over,
        forall|session: &mut RtspSession, action: PacketAction| #[trigger]
            call_ensures(streaming::packet_arrived, (session, Packet::Failed(message)), action)
                ==> action is Fail && final(session).phase == SessionPhase::Over,
{
}

/// A session comes up step by step: what is set up is played, what plays is taken apart, and
/// then whoever opened it is told what it delivers. A failure on the way is reported, and ends
/// it.
pub proof fn sessions_come_up_in_order(message: String)
    ensures
        forall|session: &mut RtspSession, action: SessionAction| #[trigger]
            call_ensures(streaming::started, (session, Ok::<(), String>(())), action) ==> action
                is Demux && final(session).phase == SessionPhase::Demuxing,
        forall|session: &mut RtspSession, action: SessionAction| #[trigger]
            call_ensures(streaming::demuxed, (session, Ok::<(), String>(())), action) ==> action
                == SessionAction::Report(session.config) && final(session).phase
                == SessionPhase::Reporting,
        forall|session: &mut RtspSession, action: SessionAction| #[trigger]
            call_ensures(streaming::reported, (session, true), action) ==> action is Stream
                && final(session).phase == SessionPhase::Streaming,
        forall|session: &mut RtspSession, action: SessionAction| #[trigger]
            call_ensures(streaming::started, (session, Err::<(), String>(message)), action)
                ==> action is Fail && final(session).phase == SessionPhase::Over,
        forall|session: &mut RtspSession, action: SessionAction| #[trigger]
            call_ensures(streaming::demuxed, (session, Err::<(), String>(message)), action)
                ==> action is Fail && final(session).phase == SessionPhase::Over,
{
}

/// What a stream's parameters say of its size is what it delivers; what they leave open stays
/// as it was, and so does its pixel format.
pub proof fn parameters_are_applied(parameters: VideoParameters)
    ensures
        forall|session: &mut RtspSession, action: SessionAction| #[trigger]
            call_ensures(
                streaming::set_up,
                (session, Ok::<Option<VideoParameters>, String>(Some(parameters))),
                action,
            ) ==> {
                &&& action is Play
                &&& final(session).config.resolution.width == parameters.dimensions.0
                &&& final(session).config.resolution.height == parameters.dimensions.1
                &&& final(session).config.pixel_format == session.config.pixel_format
                &&& parameters.interval is None ==> final(session).config.framerate
                    == session.config.framerate
                &&& parameters.interval matches Some(interval) ==> final(session).config.framerate
                    == rtsp::whole_rate(interval) as u32
            },
        forall|session: &mut RtspSession, action: SessionAction| #[trigger]
            call_ensures(
                streaming::set_up,
                (session, Ok::<Option<VideoParameters>, String>(None)),
                action,
            ) ==> action is Play && final(session).config == session.config,
{
}

/// The lens gets 150 milliseconds to settle before a frame is measured, and no less.
pub proof fn lenses_settle_before_they_are_measured(now: u64)
    ensures
        forall|state: &mut AutofocusState, action: AutofocusAction| #[trigger]
            call_ensures(autofocus::tick_autofocus, (state, now), action) ==> (
            state.phase matches AutofocusPhase::Settle { since } ==> action
                == AutofocusAction::Wait && (final(state).phase == AutofocusPhase::Sample
                <==> now >= since + 150_000_000)),
{
}

/// A sweep moves and measures the step behind those that it has measured.
pub proof fn sweeps_go_step_by_step(now: u64, score: Option<u32>)
    ensures
        forall|state: &mut AutofocusState, action: AutofocusAction| #[trigger]
            call_ensures(autofocus::tick_autofocus, (state, now), action) && state.valid() ==> {
                &&& state.phase is Apply ==> action == (AutofocusAction::Move {
                    step: state.scores@.len() as u32,
                })
                &&& state.phase is Sample ==> action == (AutofocusAction::Measure {
                    step: state.scores@.len() as u32,
                })
            },
        forall|state: &mut AutofocusState| #[trigger]
            call_ensures(autofocus::step_measured, (state, score), ()) ==> final(state).scores@
                == state.scores@.push(score) && (final(state).phase is Finalize
                <==> final(state).scores@.len() >= state.total_samples),
{
}

/// Decoded frames are delivered in order, none is lost, and each carries the time of what it
/// was decoded from and whether packets were lost before it. A failure ends the session.
pub proof fn decoded_frames_are_delivered(
    given: Vec<Frame>,
    error: Error,
    loss: u16,
    timestamp: Duration,
)
    ensures
        forall|session: &mut RtspSession, frames: Result<Vec<Frame>, Error>| #[trigger]
            call_ensures(
                streaming::frames_decoded,
                (session, Ok::<Vec<Frame>, Error>(given), loss, timestamp),
                frames,
            ) ==> {
                &&& *final(session) == *session
                &&& frames matches Ok(list) && list@.len() == given@.len() && forall|i: int|
                    0 <= i < list@.len() ==> {
                        let (sent, came) = ((#[trigger] list@[i])@, given@[i]@);
                        &&& sent.timestamp == timestamp
                        &&& sent.width == came.width && sent.height == came.height
                        &&& sent.quality == FrameQuality::Intact <==> loss == 0
                        &&& came.pixel_format == session.config.pixel_format ==> sent.plane_primary
                            == came.plane_primary && sent.plane_secondary == came.plane_secondary
                            && sent.stride == came.stride && sent.pixel_format == came.pixel_format
                    }
            },
        forall|session: &mut RtspSession, frames: Result<Vec<Frame>, Error>| #[trigger]
            call_ensures(
                streaming::frames_decoded,
                (session, Err::<Vec<Frame>, Error>(error), loss, timestamp),
                frames,
            ) ==> frames == Err::<Vec<Frame>, Error>(error) && final(session).phase
                == SessionPhase::Over,
{
}

/// A stream that needs no decoder is passed on byte for byte, and one that does is handed to
/// the decoder byte for byte.
pub proof fn packets_are_passed_on(loss: u16, timestamp: Duration, data: Vec<u8>)
    ensures
        forall|session: &mut RtspSession, action: PacketAction| #[trigger]
            call_ensures(
                streaming::packet_arrived,
                (session, Packet::Video { parameters: None, loss, timestamp, data }),
                action,
            ) ==> {
                &&& *final(session) == *session
                &&& session.codec is Some ==> action == (PacketAction::Decode {
                    data,
                    timestamp,
                    loss,
                })
                &&& session.codec is None ==> (action matches PacketAction::Deliver(frame)
                    && frame@.plane_primary == data@ && frame@.timestamp == timestamp
                    && frame@.width == session.config.resolution.width && frame@.height
                    == session.config.resolution.height && frame@.pixel_format
                    == session.config.pixel_format && (frame@.quality == FrameQuality::Intact
                    <==> loss == 0))
            },
{
}

/// A policy is for network streams: a pump of any other source never gets its session back. A
/// source that cannot be opened at first starts no pump.
pub proof fn only_network_streams_are_reopened(
    source: CameraSource,
    policy: ReconnectPolicy,
    now: u64,
    worker: PumpWorker,
    error: Error,
    start: (Result<PumpWorker, Error>, Vec<PumpStatus>),
)
    requires
        call_ensures(pump::spawn_with_policy, (&source, Some(policy), now), worker),
        call_ensures(
            pump::first_opened,
            (&source, Some(policy), Err::<(), Error>(error), now),
            start,
        ),
    ensures
        worker.reconnect == if source is Rtsp {
            Some(policy)
        } else {
            None
        },
        worker.retry is None,
        worker.last_frame_at == now,
        start.0 == Err::<PumpWorker, Error>(error),
{
}

/// Of several requests that wait, the latest is carried out.
pub proof fn the_latest_request_counts<T>(first: T, newer: Vec<T>, latest: T)
    requires
        call_ensures(controls::latest_request::<T>, (first, newer), latest),
    ensures
        newer@.len() == 0 ==> latest == first,
        newer@.len() > 0 ==> latest == newer@[newer@.len() - 1],
{
}

/// What a worker of an earlier scan reports is not taken in; what one of the current scan does
/// is: its cameras are appended, its progress replaces the one before, and its end is noted.
pub proof fn late_reports_are_ignored(id: u64, event: DiscoverEvent)
    ensures
        forall|state: &mut UseDiscovery| #[trigger]
            call_ensures(session::take_reported, (state, id, event), ()) ==> {
                &&& id != state.scan_id ==> *final(state) == *state
                &&& id == state.scan_id ==> match event {
                    DiscoverEvent::CameraFound(camera) => final(state).cameras@
                        == state.cameras@.push(camera),
                    DiscoverEvent::Progress { scanned, total } => final(state).scanned == scanned
                        && final(state).total == total && final(state).cameras == state.cameras,
                    DiscoverEvent::Done => !final(state).running && final(state).cameras
                        == state.cameras,
                    DiscoverEvent::HostUnmatched { host, server } => final(state).unmatched_hosts@
                        == state.unmatched_hosts@.push((host, server)),
                    _ => final(state).cameras == state.cameras && final(state).running
                        == state.running,
                }
            },
        forall|state: &mut UseDiscovery, begun: u64| #[trigger]
            call_ensures(session::begin_scan, (state,), begun) ==> begun != state.scan_id && final(state).scan_id == begun && final(state).cameras@.len() == 0,
        forall|state: &mut UseDiscovery| #[trigger]
            call_ensures(session::cancel_scan, (state,), ()) ==> final(state).scan_id
                != state.scan_id && !final(state).running && final(state).cameras
                == state.cameras,
{
}

} // verus!
