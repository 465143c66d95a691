use bytes::Bytes;
use cameras::decode::VideoCodec;
use cameras::error::Error;
use cameras::rtsp::VideoParameters;
use cameras::streaming::{
    begin_session, decoder_made, demuxed, described, frames_decoded, packet_arrived, reported,
    set_up, started, Description, Packet, PacketAction, RtspSession, SessionAction, SessionPhase,
};
use cameras::types::{Frame, FrameQuality, PixelFormat, Resolution, StreamConfig};
use std::time::Duration;

fn requested() -> StreamConfig {
    StreamConfig {
        resolution: Resolution { width: 640, height: 480 },
        framerate: 15,
        pixel_format: PixelFormat::Yuyv,
    }
}

fn description(streams: &[(&str, &str)]) -> Description {
    Description {
        media: streams.iter().map(|(media, _)| media.to_string()).collect(),
        encodings: streams.iter().map(|(_, encoding)| encoding.to_string()).collect(),
    }
}

fn streaming(encoding: &str) -> RtspSession {
    let mut session = begin_session(requested());
    let action = described(&mut session, Ok(description(&[("video", encoding)])));
    if matches!(action, SessionAction::MakeDecoder { .. }) {
        decoder_made(&mut session, Ok(()));
    }
    let known = VideoParameters { dimensions: (1920, 1080), interval: Some((1, 25)) };
    set_up(&mut session, Ok(Some(known)));
    started(&mut session, Ok(()));
    demuxed(&mut session, Ok(()));
    assert!(matches!(reported(&mut session, true), SessionAction::Stream));
    session
}

fn failure(action: SessionAction) -> String {
    match action {
        SessionAction::Fail(error) => error.message(),
        other => panic!("expected a failure, got {other:?}"),
    }
}

#[test]
fn a_session_goes_through_its_stages() {
    let mut session = begin_session(requested());
    let streams = description(&[("audio", "aac"), ("video", "h264"), ("video", "jpeg")]);
    match described(&mut session, Ok(streams)) {
        SessionAction::MakeDecoder { video_index, codec } => {
            assert_eq!(video_index, 1);
            assert_eq!(codec, VideoCodec::H264);
        }
        other => panic!("expected a decoder, got {other:?}"),
    }
    assert!(matches!(
        decoder_made(&mut session, Ok(())),
        SessionAction::SetUp { video_index: 1 }
    ));
    let known = VideoParameters { dimensions: (1920, 1080), interval: Some((1, 25)) };
    assert!(matches!(set_up(&mut session, Ok(Some(known))), SessionAction::Play));
    assert!(matches!(started(&mut session, Ok(())), SessionAction::Demux));
    match demuxed(&mut session, Ok(())) {
        SessionAction::Report(config) => {
            assert_eq!(config.resolution, Resolution { width: 1920, height: 1080 });
            assert_eq!(config.framerate, 25);
            assert_eq!(config.pixel_format, PixelFormat::Bgra8);
        }
        other => panic!("expected a report, got {other:?}"),
    }
    assert!(matches!(reported(&mut session, false), SessionAction::Stop));
    assert_eq!(session.phase, SessionPhase::Over);
}

#[test]
fn streams_without_a_codec_need_no_decoder() {
    let mut session = begin_session(requested());
    let action = described(&mut session, Ok(description(&[("video", "jpeg")])));
    assert!(matches!(action, SessionAction::SetUp { video_index: 0 }));
    set_up(&mut session, Ok(None));
    assert_eq!(session.config.resolution, requested().resolution);
    assert_eq!(session.config.pixel_format, PixelFormat::Mjpeg);
}

#[test]
fn every_stage_can_fail() {
    let mut session = begin_session(requested());
    assert_eq!(failure(described(&mut session, Err("x".into()))), "rtsp: DESCRIBE failed: x");
    let mut session = begin_session(requested());
    let audio = description(&[("audio", "aac")]);
    assert_eq!(
        failure(described(&mut session, Ok(audio))),
        "rtsp: RTSP source has no video streams"
    );
    let mut session = begin_session(requested());
    let exotic = description(&[("video", "vp8")]);
    assert_eq!(
        failure(described(&mut session, Ok(exotic))),
        "rtsp: unsupported RTSP encoding 'vp8'"
    );
    let mut session = begin_session(requested());
    described(&mut session, Ok(description(&[("video", "h265")])));
    assert_eq!(
        failure(decoder_made(&mut session, Err(Error::DeviceInUse))),
        "device is already in use"
    );
    let mut session = begin_session(requested());
    described(&mut session, Ok(description(&[("video", "jpeg")])));
    let mut other = session;
    assert_eq!(failure(set_up(&mut session, Err("x".into()))), "rtsp: SETUP failed: x");
    assert_eq!(session.phase, SessionPhase::Over);
    set_up(&mut other, Ok(None));
    let mut last = other;
    assert_eq!(failure(started(&mut other, Err("x".into()))), "rtsp: PLAY failed: x");
    started(&mut last, Ok(()));
    assert_eq!(failure(demuxed(&mut last, Err("x".into()))), "rtsp: demuxer: x");
}

#[test]
fn jpegs_are_passed_on_with_the_latest_size() {
    let mut session = streaming("jpeg");
    let packet = Packet::Video {
        parameters: Some(VideoParameters { dimensions: (320, 240), interval: None }),
        loss: 1,
        timestamp: Duration::from_millis(40),
        data: vec![1, 2, 3],
    };
    match packet_arrived(&mut session, packet) {
        PacketAction::Deliver(frame) => {
            assert_eq!((frame.width, frame.height), (320, 240));
            assert_eq!(frame.quality, FrameQuality::Recovering);
            assert_eq!(frame.pixel_format, PixelFormat::Mjpeg);
            assert_eq!(frame.plane_primary[..], [1, 2, 3]);
        }
        other => panic!("expected a frame, got {other:?}"),
    }
    assert_eq!(session.config.framerate, 25);
}

#[test]
fn encoded_video_goes_to_the_decoder() {
    let mut session = streaming("h264");
    let packet = Packet::Video {
        parameters: None,
        loss: 0,
        timestamp: Duration::from_millis(40),
        data: vec![1, 2, 3],
    };
    assert!(matches!(
        packet_arrived(&mut session, packet),
        PacketAction::Decode { loss: 0, .. }
    ));
    let raw = Frame {
        width: 1,
        height: 1,
        stride: 4,
        timestamp: Duration::ZERO,
        pixel_format: PixelFormat::Bgra8,
        quality: FrameQuality::Intact,
        plane_primary: Bytes::from(vec![9; 4]),
        plane_secondary: Bytes::new(),
    };
    let frames =
        frames_decoded(&mut session, Ok(vec![raw.clone(), raw]), 2, Duration::from_millis(40))
            .unwrap();
    assert_eq!(frames.len(), 2);
    assert_eq!(frames[1].quality, FrameQuality::Recovering);
    assert_eq!(frames[1].timestamp, Duration::from_millis(40));
    let ended = frames_decoded(&mut session, Err(Error::StreamEnded), 0, Duration::ZERO);
    assert!(matches!(ended, Err(Error::StreamEnded)));
    assert_eq!(session.phase, SessionPhase::Over);
}

#[test]
fn streams_end_or_fail() {
    let mut session = streaming("jpeg");
    assert!(matches!(packet_arrived(&mut session, Packet::TimedOut), PacketAction::Continue));
    assert!(matches!(packet_arrived(&mut session, Packet::Other), PacketAction::Continue));
    assert!(matches!(packet_arrived(&mut session, Packet::Ended), PacketAction::Stop));
    let mut session = streaming("jpeg");
    match packet_arrived(&mut session, Packet::Failed("reset".into())) {
        PacketAction::Fail(error) => assert_eq!(error.message(), "rtsp: reset"),
        other => panic!("expected a failure, got {other:?}"),
    }
}

#[test]
fn decoded_frames_have_the_announced_format() {
    let mut session = streaming("h265");
    assert_eq!(session.config.pixel_format, PixelFormat::Bgra8);
    let raw = Frame {
        width: 2,
        height: 2,
        stride: 2,
        timestamp: Duration::ZERO,
        pixel_format: PixelFormat::Nv12,
        quality: FrameQuality::Intact,
        plane_primary: Bytes::from(vec![235, 16, 16, 235]),
        plane_secondary: Bytes::from(vec![128, 128]),
    };
    let frames = frames_decoded(&mut session, Ok(vec![raw.clone()]), 0, Duration::ZERO).unwrap();
    assert_eq!(frames[0].pixel_format, PixelFormat::Bgra8);
    assert_eq!(frames[0].stride, 8);
    assert_eq!(
        frames[0].plane_primary[..],
        [255, 255, 255, 255, 0, 0, 0, 255, 0, 0, 0, 255, 255, 255, 255, 255]
    );
    assert!(frames[0].plane_secondary.is_empty());
    let mut other = raw.clone();
    other.pixel_format = PixelFormat::Yuyv;
    let mut short = raw;
    short.plane_secondary = Bytes::new();
    let kept = frames_decoded(&mut session, Ok(vec![other, short]), 1, Duration::ZERO).unwrap();
    assert_eq!(kept[0].pixel_format, PixelFormat::Yuyv);
    assert_eq!(kept[0].plane_primary[..], [235, 16, 16, 235]);
    assert_eq!(kept[0].quality, FrameQuality::Recovering);
    assert_eq!(kept[1].pixel_format, PixelFormat::Nv12);
    assert_eq!(session.phase, SessionPhase::Streaming);
}
