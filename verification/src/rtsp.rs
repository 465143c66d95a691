//! RTSP network camera backend: what a session's descriptions and frames mean.
//!
//! Codec support:
//!
//! - **MJPEG**: passthrough. Frames arrive as [`PixelFormat::Mjpeg`] and decode
//!   via [`crate::convert::to_rgb8`].
//! - **H.264 / H.265**: hardware-accelerated native platform decoder, BGRA
//!   output.

use crate::buffer;
use crate::decode::{no_bytes, VideoCodec};
use crate::error::{backend_error, Error, ErrorView};
use crate::negotiation;
use crate::negotiation::round_framerate;
use crate::text::append;
use crate::types::{Frame, FrameQuality, FrameView, PixelFormat, Resolution, StreamConfig};
use std::time::Duration;
use vstd::prelude::*;

verus! {

/// How long a session may take to come up, in milliseconds.
pub const HANDSHAKE_TIMEOUT_MILLIS: u64 = 15000;

/// What is wrong with a text as a URL, if anything.
pub uninterp spec fn url_fault(text: Seq<char>) -> Option<Seq<char>>;

/// `url::Url::parse`: nothing where the text is a URL, and the error's description where it
/// is not. The same text always gives the same result.
#[verifier::external_body]
fn parse_url(text: &str) -> (fault: Option<String>)
    ensures
        match fault {
            None => url_fault(text@) is None,
            Some(description) => url_fault(text@) == Some(description@),
        },
{
    url::Url::parse(text).err().map(|error| error.to_string())
}

/// Whether a check of a URL came out as expected, given what is wrong with it.
pub open spec fn is_url_outcome(outcome: Result<(), Error>, fault: Option<Seq<char>>) -> bool {
    match fault {
        None => outcome is Ok,
        Some(description) => outcome matches Err(error) && error@ == (ErrorView::Backend {
            platform: "rtsp"@,
            message: "invalid RTSP URL: "@ + description,
        }),
    }
}

/// Decide what a fault in a URL means.
pub fn url_outcome(fault: Option<String>) -> (outcome: Result<(), Error>)
    ensures
        is_url_outcome(
            outcome,
            match fault {
                None => None,
                Some(description) => Some(description@),
            },
        ),
{
    match fault {
        None => Ok(()),
        Some(description) => Err(
            Error::Backend {
                platform: "rtsp",
                message: append("invalid RTSP URL: ".to_owned(), description.as_str()),
            },
        ),
    }
}

/// Check that a stream's URL is one, before anything is opened.
pub fn check_url(url: &str) -> (outcome: Result<(), Error>)
    ensures
        is_url_outcome(outcome, url_fault(url@)),
{
    url_outcome(parse_url(url))
}

/// The step of a session that failed.
#[derive(Clone, Copy, Debug, PartialEq, Eq, Structural)]
pub enum SessionStage {
    /// Asking for the description.
    Describe,
    /// Setting up the stream.
    Setup,
    /// Starting to play.
    Play,
    /// Taking the stream apart.
    Demux,
    /// Starting the runtime.
    Runtime,
}

/// How a failure in a step starts.
pub open spec fn stage_prefix(stage: SessionStage) -> Seq<char> {
    match stage {
        SessionStage::Describe => "DESCRIBE failed: "@,
        SessionStage::Setup => "SETUP failed: "@,
        SessionStage::Play => "PLAY failed: "@,
        SessionStage::Demux => "demuxer: "@,
        SessionStage::Runtime => "tokio runtime: "@,
    }
}

/// A failure in a step of a session.
pub fn session_error(stage: SessionStage, description: &str) -> (error: Error)
    ensures
        error@ == (ErrorView::Backend {
            platform: "rtsp"@,
            message: stage_prefix(stage) + description@,
        }),
{
    let prefix = match stage {
        SessionStage::Describe => "DESCRIBE failed: ",
        SessionStage::Setup => "SETUP failed: ",
        SessionStage::Play => "PLAY failed: ",
        SessionStage::Demux => "demuxer: ",
        SessionStage::Runtime => "tokio runtime: ",
    };
    Error::Backend { platform: "rtsp", message: append(prefix.to_owned(), description) }
}

/// Whether a stream of a session carries video.
pub open spec fn is_video(media: Seq<String>) -> spec_fn(int) -> bool {
    |i: int| media[i]@ == "video"@
}

/// The first stream that carries video, given the kinds of a session's streams.
pub fn find_video_stream(media: &Vec<String>) -> (place: Result<usize, Error>)
    ensures
        match place {
            Ok(index) => crate::pick::is_first(
                media@.len() as int,
                is_video(media@),
                index as int,
            ),
            Err(error) => crate::pick::none_pass(media@.len() as int, is_video(media@)) && error@
                == (ErrorView::Backend {
                platform: "rtsp"@,
                message: "RTSP source has no video streams"@,
            }),
        },
{
    let video = "video".to_owned();
    let ghost test = is_video(media@);
    let mut i: usize = 0;
    while i < media.len()
        invariant
            i <= media.len(),
            video@ == "video"@,
            test == is_video(media@),
            forall|j: int| 0 <= j < i ==> !#[trigger] test(j),
        decreases media.len() - i,
    {
        assert(test(i as int) == (media@[i as int]@ == "video"@));
        if media[i] == video {
            return Ok(i);
        }
        i = i + 1;
    }
    Err(backend_error("rtsp", "RTSP source has no video streams"))
}

/// How a stream of some encoding is delivered: its pixel format, and the codec that decodes
/// it, if it is decoded at all.
pub open spec fn delivery(encoding: Seq<char>) -> Option<(PixelFormat, Option<VideoCodec>)> {
    if encoding == "jpeg"@ {
        Some((PixelFormat::Mjpeg, None))
    } else if encoding == "h264"@ {
        Some((PixelFormat::Bgra8, Some(VideoCodec::H264)))
    } else if encoding == "h265"@ || encoding == "hevc"@ {
        Some((PixelFormat::Bgra8, Some(VideoCodec::H265)))
    } else {
        None
    }
}

/// Decide how a stream of some encoding is delivered.
pub fn delivery_of(encoding: &String) -> (outcome: Result<
    (PixelFormat, Option<VideoCodec>),
    Error,
>)
    ensures
        match outcome {
            Ok(found) => delivery(encoding@) == Some(found),
            Err(error) => delivery(encoding@) is None && error@ == (ErrorView::Backend {
                platform: "rtsp"@,
                message: "unsupported RTSP encoding '"@ + encoding@ + "'"@,
            }),
        },
{
    if *encoding == "jpeg".to_owned() {
        Ok((PixelFormat::Mjpeg, None))
    } else if *encoding == "h264".to_owned() {
        Ok((PixelFormat::Bgra8, Some(VideoCodec::H264)))
    } else if *encoding == "h265".to_owned() || *encoding == "hevc".to_owned() {
        Ok((PixelFormat::Bgra8, Some(VideoCodec::H265)))
    } else {
        let message = append("unsupported RTSP encoding '".to_owned(), encoding.as_str());
        Err(Error::Backend { platform: "rtsp", message: append(message, "'") })
    }
}

/// What a stream's parameters say of its video.
#[derive(Clone, Copy, Debug)]
pub struct VideoParameters {
    /// Width and height.
    pub dimensions: (u32, u32),
    /// How long a frame lasts, as numerator and denominator of a number of seconds, if it is
    /// known. At 15 frames per second this may be `(1, 15)`.
    pub interval: Option<(u32, u32)>,
}

/// The framerate, in whole frames per second, of a stream whose frames last
/// `interval.0 / interval.1` seconds. A numerator of zero counts as one.
pub open spec fn whole_rate(interval: (u32, u32)) -> int {
    negotiation::rounded(
        interval.1,
        if interval.0 < 1 {
            1
        } else {
            interval.0
        },
    )
}

fn whole_framerate(interval: (u32, u32)) -> (fps: u32)
    ensures
        fps == whole_rate(interval),
{
    let numerator: u32 = if interval.0 < 1 {
        1
    } else {
        interval.0
    };
    round_framerate(interval.1, numerator)
}

/// The configuration that a stream is played with: what its parameters say, and what was
/// asked for where they do not.
pub fn applied_config(
    requested: StreamConfig,
    parameters: Option<VideoParameters>,
    pixel_format: PixelFormat,
) -> (applied: StreamConfig)
    ensures
        applied.pixel_format == pixel_format,
        match parameters {
            None => applied.resolution == requested.resolution && applied.framerate
                == requested.framerate,
            Some(known) => {
                &&& applied.resolution.width == known.dimensions.0
                &&& applied.resolution.height == known.dimensions.1
                &&& applied.framerate == (match known.interval {
                    Some(interval) => whole_rate(interval),
                    None => requested.framerate as int,
                })
            },
        },
{
    match parameters {
        None => StreamConfig {
            resolution: requested.resolution,
            framerate: requested.framerate,
            pixel_format,
        },
        Some(known) => StreamConfig {
            resolution: Resolution { width: known.dimensions.0, height: known.dimensions.1 },
            framerate: match known.interval {
                Some(interval) => whole_framerate(interval),
                None => requested.framerate,
            },
            pixel_format,
        },
    }
}

/// Whether a frame can be trusted, given the number of packets lost before it.
pub open spec fn quality_after(loss: u16) -> FrameQuality {
    if loss > 0 {
        FrameQuality::Recovering
    } else {
        FrameQuality::Intact
    }
}

/// Whether a frame can be trusted, given the number of packets lost before it.
pub fn frame_quality(loss: u16) -> (quality: FrameQuality)
    ensures
        quality == quality_after(loss),
{
    if loss > 0 {
        FrameQuality::Recovering
    } else {
        FrameQuality::Intact
    }
}

/// The frame of a stream that is passed on as it is.
pub fn passthrough_frame(
    resolution: Resolution,
    pixel_format: PixelFormat,
    loss: u16,
    timestamp: Duration,
    data: &[u8],
) -> (frame: Frame)
    ensures
        frame@.width == resolution.width,
        frame@.height == resolution.height,
        frame@.stride == 0,
        frame@.timestamp == timestamp,
        frame@.pixel_format == pixel_format,
        frame@.quality == quality_after(loss),
        frame@.plane_primary == data@,
        frame@.plane_secondary == Seq::<u8>::empty(),
{
    Frame {
        width: resolution.width,
        height: resolution.height,
        stride: 0,
        timestamp,
        pixel_format,
        quality: frame_quality(loss),
        plane_primary: buffer::copy_from_slice(data),
        plane_secondary: no_bytes(),
    }
}

/// A decoded frame, marked with the time and the quality of what it was decoded from.
pub fn stamp_frame(frame: Frame, loss: u16, timestamp: Duration) -> (stamped: Frame)
    ensures
        stamped@ == (FrameView { timestamp, quality: quality_after(loss), ..frame@ }),
{
    let mut stamped = frame;
    stamped.timestamp = timestamp;
    stamped.quality = frame_quality(loss);
    stamped
}

} // verus!
