//! The course of an RTSP session: from asking a server what it has to delivering frames.
//!
//! Whoever runs the session talks to the server and to the decoder, reports what came of
//! each step, and does what it is told next. A session that fails before it streams reports
//! one failure and is over.

use crate::decode;
use crate::decode::{as_announced, VideoCodec};
use crate::error::{Error, ErrorView};
use crate::pick;
use crate::rtsp;
use crate::rtsp::{
    applied_config, delivery_of, find_video_stream, passthrough_frame, session_error, stamp_frame,
    SessionStage, VideoParameters,
};
use crate::types::{Frame, FrameView, PixelFormat, StreamConfig};
use std::time::Duration;
use vstd::prelude::*;

verus! {

/// How long a running session waits for a packet before it looks whether it should end.
pub const PACKET_TIMEOUT_MILLIS: u64 = 500;

/// How far a session has come.
#[derive(Clone, Copy, Debug, PartialEq, Eq, Structural)]
pub enum SessionPhase {
    /// The server was asked for a description.
    Describing,
    /// A decoder is being made.
    Preparing,
    /// The stream is being set up.
    SettingUp,
    /// The stream is being started.
    Starting,
    /// The stream is being taken apart.
    Demuxing,
    /// Whoever opened the session is being told that it runs.
    Reporting,
    /// Packets arrive.
    Streaming,
    /// The session is over.
    Over,
}

/// A session with a server.
#[derive(Clone, Copy, Debug)]
pub struct RtspSession {
    /// How far it has come.
    pub phase: SessionPhase,
    /// Place of the video among the server's streams, once it is known.
    pub video_index: usize,
    /// The codec that decodes the video, or `None` where it is passed on as it is.
    pub codec: Option<VideoCodec>,
    /// What the stream delivers, as far as it is known, and what was asked for otherwise.
    pub config: StreamConfig,
}

/// What a session does next.
#[derive(Debug)]
pub enum SessionAction {
    /// Make a decoder.
    MakeDecoder {
        /// Place of the stream whose parameters the decoder needs.
        video_index: usize,
        /// For which codec.
        codec: VideoCodec,
    },
    /// Set up a stream.
    SetUp {
        /// Its place.
        video_index: usize,
    },
    /// Start playing.
    Play,
    /// Take the stream apart.
    Demux,
    /// Tell whoever opened the session what it delivers.
    Report(StreamConfig),
    /// Tell whoever opened the session that it failed, and end.
    Fail(Error),
    /// Wait for packets.
    Stream,
    /// End.
    Stop,
}

/// A session that has just asked for a description.
pub fn begin_session(requested: StreamConfig) -> (session: RtspSession)
    ensures
        session.phase == SessionPhase::Describing,
        session.video_index == 0,
        session.codec is None,
        session.config == requested,
{
    RtspSession { phase: SessionPhase::Describing, video_index: 0, codec: None, config: requested }
}

/// A failure of a session in some stage.
pub open spec fn stage_failure(stage: SessionStage, description: Seq<char>) -> ErrorView {
    ErrorView::Backend { platform: "rtsp"@, message: rtsp::stage_prefix(stage) + description }
}

/// Whether a session has ended with a failure, without anything else having changed.
pub open spec fn failed(
    before: RtspSession,
    after: RtspSession,
    action: SessionAction,
    error: ErrorView,
) -> bool {
    &&& after == (RtspSession { phase: SessionPhase::Over, ..before })
    &&& action matches SessionAction::Fail(reported) && reported@ == error
}

/// A server's streams: what each carries, and how it is encoded.
#[derive(Debug)]
pub struct Description {
    /// What each stream carries.
    pub media: Vec<String>,
    /// How each stream is encoded, in the same order.
    pub encodings: Vec<String>,
}

/// Whether `index` is the first of a server's streams that carries video.
pub open spec fn is_first_video(description: Description, index: int) -> bool {
    pick::is_first(
        description.media@.len() as int,
        rtsp::is_video(description.media@),
        index,
    )
}

/// Take in a server's description: the first video stream is played, if its encoding can be
/// delivered.
pub fn described(session: &mut RtspSession, answer: Result<Description, String>) -> (action:
    SessionAction)
    requires
        old(session).phase == SessionPhase::Describing,
        answer matches Ok(description) ==> description.media@.len()
            == description.encodings@.len(),
    ensures
        match answer {
            Err(message) => failed(
                *old(session),
                *final(session),
                action,
                stage_failure(SessionStage::Describe, message@),
            ),
            Ok(description) => if pick::none_pass(
                description.media@.len() as int,
                rtsp::is_video(description.media@),
            ) {
                failed(
                    *old(session),
                    *final(session),
                    action,
                    ErrorView::Backend {
                        platform: "rtsp"@,
                        message: "RTSP source has no video streams"@,
                    },
                )
            } else {
                exists|index: int|
                    {
                        &&& #[trigger] is_first_video(description, index)
                        &&& match rtsp::delivery(description.encodings@[index]@) {
                            None => failed(
                                *old(session),
                                *final(session),
                                action,
                                ErrorView::Backend {
                                    platform: "rtsp"@,
                                    message: "unsupported RTSP encoding '"@
                                        + description.encodings@[index]@ + "'"@,
                                },
                            ),
                            Some((pixel_format, codec)) => {
                                &&& final(session).video_index == index
                                &&& final(session).codec == codec
                                &&& final(session).config == (StreamConfig {
                                    pixel_format,
                                    ..old(session).config
                                })
                                &&& match codec {
                                    Some(codec) => final(session).phase == SessionPhase::Preparing
                                        && action == (SessionAction::MakeDecoder {
                                        video_index: index as usize,
                                        codec,
                                    }),
                                    None => final(session).phase == SessionPhase::SettingUp
                                        && action == (SessionAction::SetUp {
                                        video_index: index as usize,
                                    }),
                                }
                            },
                        }
                    }
            },
        },
{
    let description = match answer {
        Ok(description) => description,
        Err(message) => {
            session.phase = SessionPhase::Over;
            return SessionAction::Fail(session_error(SessionStage::Describe, message.as_str()));
        },
    };
    let video_index: usize = match find_video_stream(&description.media) {
        Ok(index) => index,
        Err(error) => {
            session.phase = SessionPhase::Over;
            return SessionAction::Fail(error);
        },
    };
    assert(is_first_video(description, video_index as int));
    assert(rtsp::is_video(description.media@)(video_index as int));
    let (pixel_format, codec) = match delivery_of(&description.encodings[video_index]) {
        Ok(delivery) => delivery,
        Err(error) => {
            session.phase = SessionPhase::Over;
            return SessionAction::Fail(error);
        },
    };
    session.video_index = video_index;
    session.codec = codec;
    session.config.pixel_format = pixel_format;
    match codec {
        Some(codec) => {
            session.phase = SessionPhase::Preparing;
            SessionAction::MakeDecoder { video_index, codec }
        },
        None => {
            session.phase = SessionPhase::SettingUp;
            SessionAction::SetUp { video_index }
        },
    }
}

/// Take in what came of making a decoder.
pub fn decoder_made(session: &mut RtspSession, made: Result<(), Error>) -> (action: SessionAction)
    requires
        old(session).phase == SessionPhase::Preparing,
    ensures
        match made {
            Ok(_) => {
                &&& *final(session) == (RtspSession {
                    phase: SessionPhase::SettingUp,
                    ..*old(session)
                })
                &&& action == (SessionAction::SetUp { video_index: old(session).video_index })
            },
            Err(error) => failed(*old(session), *final(session), action, error@),
        },
{
    match made {
        Ok(_) => {
            session.phase = SessionPhase::SettingUp;
            SessionAction::SetUp { video_index: session.video_index }
        },
        Err(error) => {
            session.phase = SessionPhase::Over;
            SessionAction::Fail(error)
        },
    }
}

/// What a stream delivers once its parameters are looked at again.
pub open spec fn with_parameters(
    config: StreamConfig,
    parameters: Option<VideoParameters>,
) -> StreamConfig {
    match parameters {
        None => config,
        Some(known) => StreamConfig {
            resolution: crate::types::Resolution {
                width: known.dimensions.0,
                height: known.dimensions.1,
            },
            framerate: match known.interval {
                Some(interval) => rtsp::whole_rate(interval) as u32,
                None => config.framerate,
            },
            pixel_format: config.pixel_format,
        },
    }
}

/// Take in what came of setting up the stream, and what its parameters say, if there are
/// any.
pub fn set_up(session: &mut RtspSession, answer: Result<Option<VideoParameters>, String>) -> (action:
    SessionAction)
    requires
        old(session).phase == SessionPhase::SettingUp,
    ensures
        match answer {
            Ok(parameters) => {
                &&& *final(session) == (RtspSession {
                    phase: SessionPhase::Starting,
                    config: with_parameters(old(session).config, parameters),
                    ..*old(session)
                })
                &&& action == SessionAction::Play
            },
            Err(message) => failed(
                *old(session),
                *final(session),
                action,
                stage_failure(SessionStage::Setup, message@),
            ),
        },
{
    match answer {
        Ok(parameters) => {
            session.config = applied_config(
                session.config,
                parameters,
                session.config.pixel_format,
            );
            session.phase = SessionPhase::Starting;
            SessionAction::Play
        },
        Err(message) => {
            session.phase = SessionPhase::Over;
            SessionAction::Fail(session_error(SessionStage::Setup, message.as_str()))
        },
    }
}

/// Take in what came of starting the stream.
pub fn started(session: &mut RtspSession, answer: Result<(), String>) -> (action: SessionAction)
    requires
        old(session).phase == SessionPhase::Starting,
    ensures
        match answer {
            Ok(_) => {
                &&& *final(session) == (RtspSession {
                    phase: SessionPhase::Demuxing,
                    ..*old(session)
                })
                &&& action == SessionAction::Demux
            },
            Err(message) => failed(
                *old(session),
                *final(session),
                action,
                stage_failure(SessionStage::Play, message@),
            ),
        },
{
    match answer {
        Ok(_) => {
            session.phase = SessionPhase::Demuxing;
            SessionAction::Demux
        },
        Err(message) => {
            session.phase = SessionPhase::Over;
            SessionAction::Fail(session_error(SessionStage::Play, message.as_str()))
        },
    }
}

/// Take in what came of taking the stream apart.
pub fn demuxed(session: &mut RtspSession, answer: Result<(), String>) -> (action: SessionAction)
    requires
        old(session).phase == SessionPhase::Demuxing,
    ensures
        match answer {
            Ok(_) => {
                &&& *final(session) == (RtspSession {
                    phase: SessionPhase::Reporting,
                    ..*old(session)
                })
                &&& action == SessionAction::Report(old(session).config)
            },
            Err(message) => failed(
                *old(session),
                *final(session),
                action,
                stage_failure(SessionStage::Demux, message@),
            ),
        },
{
    match answer {
        Ok(_) => {
            session.phase = SessionPhase::Reporting;
            SessionAction::Report(session.config)
        },
        Err(message) => {
            session.phase = SessionPhase::Over;
            SessionAction::Fail(session_error(SessionStage::Demux, message.as_str()))
        },
    }
}

/// Take in whether anyone was left to hear that the session runs.
pub fn reported(session: &mut RtspSession, heard: bool) -> (action: SessionAction)
    requires
        old(session).phase == SessionPhase::Reporting,
    ensures
        *final(session) == (RtspSession {
            phase: if heard {
                SessionPhase::Streaming
            } else {
                SessionPhase::Over
            },
            ..*old(session)
        }),
        action == (if heard {
            SessionAction::Stream
        } else {
            SessionAction::Stop
        }),
{
    if heard {
        session.phase = SessionPhase::Streaming;
        SessionAction::Stream
    } else {
        session.phase = SessionPhase::Over;
        SessionAction::Stop
    }
}

/// What came of waiting for a packet.
#[derive(Debug)]
pub enum Packet {
    /// Nothing, in the time allowed.
    TimedOut,
    /// Nothing, and nothing will: the server ended the stream.
    Ended,
    /// The stream failed.
    Failed(String),
    /// Something other than video.
    Other,
    /// A video frame, encoded.
    Video {
        /// The stream's parameters, where they are new and known.
        parameters: Option<VideoParameters>,
        /// Number of packets lost before it.
        loss: u16,
        /// When it is shown.
        timestamp: Duration,
        /// Its bytes.
        data: Vec<u8>,
    },
}

/// What a packet leads to.
#[derive(Debug)]
pub enum PacketAction {
    /// Wait for the next one.
    Continue,
    /// Hand a frame to the reader.
    Deliver(Frame),
    /// Hand bytes to the decoder.
    Decode {
        /// The bytes.
        data: Vec<u8>,
        /// When they are shown.
        timestamp: Duration,
        /// Number of packets lost before them.
        loss: u16,
    },
    /// Hand a failure to the reader, and end.
    Fail(Error),
    /// End.
    Stop,
}

/// Take in a packet.
///
/// A frame that is passed on as it is has the size that the stream last announced.
pub fn packet_arrived(session: &mut RtspSession, packet: Packet) -> (action: PacketAction)
    requires
        old(session).phase == SessionPhase::Streaming,
    ensures
        match packet {
            Packet::TimedOut => action is Continue && *final(session) == *old(session),
            Packet::Other => action is Continue && *final(session) == *old(session),
            Packet::Ended => action is Stop && *final(session) == (RtspSession {
                phase: SessionPhase::Over,
                ..*old(session)
            }),
            Packet::Failed(message) => {
                &&& action matches PacketAction::Fail(error) && error@ == (ErrorView::Backend {
                    platform: "rtsp"@,
                    message: message@,
                })
                &&& *final(session) == (RtspSession { phase: SessionPhase::Over, ..*old(session) })
            },
            Packet::Video { parameters, loss, timestamp, data } => {
                &&& *final(session) == (RtspSession {
                    config: with_parameters(old(session).config, parameters),
                    ..*old(session)
                })
                &&& match old(session).codec {
                    Some(_) => action == (PacketAction::Decode { data, timestamp, loss }),
                    None => action matches PacketAction::Deliver(frame) && frame@ == (FrameView {
                        width: final(session).config.resolution.width,
                        height: final(session).config.resolution.height,
                        stride: 0,
                        timestamp,
                        pixel_format: old(session).config.pixel_format,
                        quality: rtsp::quality_after(loss),
                        plane_primary: data@,
                        plane_secondary: Seq::empty(),
                    }),
                }
            },
        },
        final(session).config.pixel_format == old(session).config.pixel_format,
{
    match packet {
        Packet::TimedOut => PacketAction::Continue,
        Packet::Other => PacketAction::Continue,
        Packet::Ended => {
            session.phase = SessionPhase::Over;
            PacketAction::Stop
        },
        Packet::Failed(message) => {
            session.phase = SessionPhase::Over;
            PacketAction::Fail(Error::Backend { platform: "rtsp", message })
        },
        Packet::Video { parameters, loss, timestamp, data } => {
            let pixel_format: PixelFormat = session.config.pixel_format;
            session.config = applied_config(session.config, parameters, pixel_format);
            if session.codec.is_some() {
                return PacketAction::Decode { data, timestamp, loss };
            }
            PacketAction::Deliver(
                passthrough_frame(
                    session.config.resolution,
                    pixel_format,
                    loss,
                    timestamp,
                    data.as_slice(),
                ),
            )
        },
    }
}

/// A decoded frame as it is delivered: in the pixel format that was announced, where it can be
/// had in that one, and marked with a time and a quality.
pub open spec fn delivered(
    frame: Frame,
    format: PixelFormat,
    loss: u16,
    timestamp: Duration,
) -> FrameView {
    FrameView {
        timestamp,
        quality: rtsp::quality_after(loss),
        ..decode::announced(frame@, format)
    }
}

/// Take in what a decoder made of the bytes it was handed: frames, in order, each marked with
/// the time and the quality of the bytes, or a failure, which ends the session. A frame is
/// brought into the session's pixel format where it can be, and is delivered as it came where
/// not.
pub fn frames_decoded(
    session: &mut RtspSession,
    decoded: Result<Vec<Frame>, Error>,
    loss: u16,
    timestamp: Duration,
) -> (frames: Result<Vec<Frame>, Error>)
    requires
        old(session).phase == SessionPhase::Streaming,
    ensures
        match decoded {
            Ok(given) => {
                &&& *final(session) == *old(session)
                &&& frames matches Ok(list) && list@.len() == given@.len() && forall|i: int|
                    0 <= i < list@.len() ==> {
                        &&& (#[trigger] list@[i])@ == delivered(
                            given@[i],
                            old(session).config.pixel_format,
                            loss,
                            timestamp,
                        )
                        &&& decode::deliverable(given@[i]@, old(session).config.pixel_format)
                            ==> list@[i]@.pixel_format == old(session).config.pixel_format
                    }
            },
            Err(error) => {
                &&& *final(session) == (RtspSession { phase: SessionPhase::Over, ..*old(session) })
                &&& frames == Err::<Vec<Frame>, Error>(error)
            },
        },
{
    let given = match decoded {
        Ok(given) => given,
        Err(error) => {
            session.phase = SessionPhase::Over;
            return Err(error);
        },
    };
    let format: PixelFormat = session.config.pixel_format;
    let mut list: Vec<Frame> = Vec::new();
    let mut i: usize = 0;
    while i < given.len()
        invariant
            i <= given.len(),
            list@.len() == i,
            old(session).phase == SessionPhase::Streaming,
            *session == *old(session),
            format == old(session).config.pixel_format,
            decoded == Ok::<Vec<Frame>, Error>(given),
            forall|j: int|
                0 <= j < i ==> (#[trigger] list@[j])@ == delivered(
                    given@[j],
                    format,
                    loss,
                    timestamp,
                ),
        decreases given.len() - i,
    {
        list.push(stamp_frame(as_announced(given[i].clone(), format), loss, timestamp));
        i = i + 1;
    }
    Ok(list)
}

} // verus!
