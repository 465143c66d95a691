use bytes::Bytes;
use cameras::convert::to_rgb8;
use cameras::decode::{
    as_announced, biplanar_layout, can_convert_sample, nv12_frame_size, nv12_size_fits, nv12_stride,
    nv12_to_bgra, packed_length, parameter_sets, parse_avcc, parse_hvcc, record_output, sample_to_bgra, select_output_type, take_output, transform_step,
    Decoded, OutputQueue, TransformOutput, TransformStep, VideoCodec,
};
use cameras::error::Error;
use cameras::rtsp::{
    applied_config, check_url, delivery_of, find_video_stream, frame_quality, passthrough_frame,
    session_error, stamp_frame, url_outcome, SessionStage, VideoParameters,
};
use cameras::types::{Frame, FrameQuality, PixelFormat, Resolution, StreamConfig};
use std::time::Duration;

fn frame(value: u8) -> Frame {
    Frame {
        width: 1,
        height: 1,
        stride: 4,
        timestamp: Duration::ZERO,
        pixel_format: PixelFormat::Bgra8,
        quality: FrameQuality::Intact,
        plane_primary: Bytes::from(vec![value; 4]),
        plane_secondary: Bytes::new(),
    }
}

#[test]
fn avcc_records_hold_sequence_and_picture_sets() {
    let record = [1, 100, 0, 31, 0xff, 0xe1, 0, 3, 7, 8, 9, 1, 0, 2, 5, 6];
    let (sets, sizes) = parse_avcc(&record).unwrap();
    assert_eq!(sets, vec![vec![7, 8, 9], vec![5, 6]]);
    assert_eq!(sizes, vec![3, 2]);
    assert_eq!(parameter_sets(VideoCodec::H264, &record).unwrap().0, sets);
    let longer = [1, 100, 0, 31, 0xff, 0x41, 0, 3, 7, 8, 9, 1, 0, 2, 5, 6, 0xfd, 0xf8, 0xf8, 0];
    assert_eq!(parse_avcc(&longer).unwrap().0, sets);
}

#[test]
fn broken_avcc_records_are_refused() {
    let short = parse_avcc(&[1, 2, 3]).unwrap_err();
    assert_eq!(short.message(), "macos: AVCC record too short");
    let empty = parse_avcc(&[1, 100, 0, 31, 0xff, 0xe0, 0]).unwrap_err();
    assert_eq!(empty.message(), "macos: AVCC record produced no parameter sets");
    let cut = parse_avcc(&[1, 100, 0, 31, 0xff, 0xe1, 0, 1, 7]).unwrap_err();
    assert_eq!(cut.message(), "macos: AVCC record missing PPS count");
}

#[test]
fn hvcc_records_hold_arrays_of_sets() {
    let mut record = vec![0; 22];
    record.push(2);
    record.extend_from_slice(&[0x20, 0, 1, 0, 2, 1, 2]);
    record.extend_from_slice(&[0x21, 0, 2, 0, 1, 3, 0, 1, 4]);
    let (sets, sizes) = parse_hvcc(&record).unwrap();
    assert_eq!(sets, vec![vec![1, 2], vec![3], vec![4]]);
    assert_eq!(sizes, vec![2, 1, 1]);
    assert_eq!(parameter_sets(VideoCodec::H265, &record).unwrap().1, sizes);
    assert!(parse_hvcc(&record[..22]).is_err());
    record.extend_from_slice(&[0x22, 0, 1, 0]);
    assert_eq!(parse_hvcc(&record).unwrap().0, sets);
    assert!(parse_hvcc(&[0; 23]).is_err());
}

#[test]
fn the_first_decoding_failure_is_reported_once() {
    let mut queue = OutputQueue::default();
    record_output(&mut queue, Decoded::Image(frame(1)));
    record_output(&mut queue, Decoded::Failed(-12909));
    record_output(&mut queue, Decoded::Failed(-1));
    record_output(&mut queue, Decoded::Nothing);
    let failure = take_output(&mut queue).unwrap_err();
    assert_eq!(failure.message(), "macos: VideoToolbox decode callback status: -12909");
    record_output(&mut queue, Decoded::Image(frame(2)));
    let frames = take_output(&mut queue).unwrap();
    assert_eq!(frames.len(), 2);
    assert_eq!(frames[1].plane_primary[0], 2);
    assert!(take_output(&mut queue).unwrap().is_empty());
}

#[test]
fn planes_are_laid_out_by_their_strides() {
    let layout = biplanar_layout(64, 4, 64, 2).unwrap();
    assert_eq!((layout.stride, layout.y_len, layout.uv_len), (64, 256, 128));
    assert!(biplanar_layout(64, 4, 32, 2).is_none());
    assert!(biplanar_layout(0, 4, 0, 2).is_none());
    assert_eq!(packed_length(8, 3), Some(24));
    assert_eq!(packed_length(0, 3), None);
    assert_eq!(nv12_stride(17), 32);
    assert_eq!(nv12_stride(16), 16);
    assert_eq!(nv12_frame_size(17, 4), 32 * 6);
    assert!(nv12_size_fits(65536, 43690));
    assert!(!nv12_size_fits(65536, 43691));
    assert!(!nv12_size_fits(u32::MAX, 0));
}

#[test]
fn samples_with_half_a_chroma_row_are_not_converted() {
    assert!(can_convert_sample(&[0; 96], 16, 4, 16));
    assert!(can_convert_sample(&[0; 48], 16, 4, 16));
    assert!(!can_convert_sample(&[0; 64], 16, 3, 16));
    assert!(can_convert_sample(&[0; 48], 16, 3, 16));
    assert!(!can_convert_sample(&[0; 96], 17, 4, 16));
}

#[test]
fn decoded_samples_become_bgra() {
    let mut sample = vec![0; 96];
    sample[0] = 235;
    sample[1] = 16;
    sample[64..].fill(128);
    let bgra = sample_to_bgra(&sample[..], 2, 4, 16);
    assert_eq!(bgra.len(), 32);
    assert_eq!(bgra[..8], [255, 255, 255, 255, 0, 0, 0, 255]);
    assert_eq!(sample_to_bgra(&sample[..50], 2, 3, 16), vec![0; 24]);
}

#[test]
fn transforms_are_driven_by_their_output() {
    let sample = vec![128; 96];
    match transform_step(TransformOutput::Sample(sample), 2, 4, 16, Duration::from_millis(7)) {
        TransformStep::Deliver(frame) => {
            assert_eq!(frame.stride, 8);
            assert_eq!(frame.timestamp, Duration::from_millis(7));
        }
        other => panic!("expected a frame, got {other:?}"),
    }
    let step = |output| transform_step(output, 2, 4, 16, Duration::ZERO);
    assert!(matches!(step(TransformOutput::NeedMoreInput), TransformStep::Drained));
    assert!(matches!(step(TransformOutput::Empty), TransformStep::Drained));
    assert!(matches!(step(TransformOutput::StreamChange), TransformStep::Reconfigure));
    match step(TransformOutput::Failed("0x1".into())) {
        TransformStep::Fail(error) => {
            assert_eq!(error.message(), "windows: ProcessOutput failed: 0x1");
        }
        other => panic!("expected a failure, got {other:?}"),
    }
    assert_eq!(select_output_type(&vec![None, Some(false), Some(true)]), Some(2));
    assert_eq!(select_output_type(&vec![Some(false)]), None);
}

#[test]
fn addresses_are_checked_before_connecting() {
    assert!(check_url("rtsp://camera.local:554/stream?channel=1").is_ok());
    let failure = check_url("no url at all").unwrap_err();
    assert_eq!(failure.message(), "rtsp: invalid RTSP URL: relative URL without a base");
    assert!(url_outcome(None).is_ok());
    let given = url_outcome(Some("empty host".into())).unwrap_err();
    assert_eq!(given.message(), "rtsp: invalid RTSP URL: empty host");
}

#[test]
fn sessions_name_the_stage_that_failed() {
    let stages = [
        (SessionStage::Describe, "rtsp: DESCRIBE failed: x"),
        (SessionStage::Setup, "rtsp: SETUP failed: x"),
        (SessionStage::Play, "rtsp: PLAY failed: x"),
        (SessionStage::Demux, "rtsp: demuxer: x"),
        (SessionStage::Runtime, "rtsp: tokio runtime: x"),
    ];
    for (stage, message) in stages {
        assert_eq!(session_error(stage, "x").message(), message);
    }
}

#[test]
fn the_first_video_stream_is_taken() {
    let media: Vec<String> = vec!["audio".into(), "video".into(), "video".into()];
    assert_eq!(find_video_stream(&media).unwrap(), 1);
    let failure = find_video_stream(&vec!["audio".to_string()]).unwrap_err();
    assert_eq!(failure.message(), "rtsp: RTSP source has no video streams");
}

#[test]
fn encodings_decide_how_frames_are_delivered() {
    let jpeg = delivery_of(&"jpeg".to_string()).unwrap();
    assert!(matches!(jpeg, (PixelFormat::Mjpeg, None)));
    assert!(matches!(delivery_of(&"h264".to_string()).unwrap().1, Some(VideoCodec::H264)));
    assert!(matches!(delivery_of(&"hevc".to_string()).unwrap().1, Some(VideoCodec::H265)));
    let failure = delivery_of(&"vp8".to_string()).unwrap_err();
    assert!(matches!(failure, Error::Backend { .. }));
    assert_eq!(failure.message(), "rtsp: unsupported RTSP encoding 'vp8'");
}

#[test]
fn streams_say_what_they_deliver() {
    let requested = StreamConfig {
        resolution: Resolution { width: 640, height: 480 },
        framerate: 15,
        pixel_format: PixelFormat::Yuyv,
    };
    let known = VideoParameters { dimensions: (1920, 1080), interval: Some((1, 25)) };
    let applied = applied_config(requested, Some(known), PixelFormat::Bgra8);
    assert_eq!(applied.resolution, Resolution { width: 1920, height: 1080 });
    assert_eq!(applied.framerate, 25);
    let ntsc = VideoParameters { interval: Some((1001, 30000)), ..known };
    assert_eq!(applied_config(requested, Some(ntsc), PixelFormat::Bgra8).framerate, 30);
    let unknown = VideoParameters { interval: None, ..known };
    assert_eq!(applied_config(requested, Some(unknown), PixelFormat::Bgra8).framerate, 15);
    let silent = applied_config(requested, None, PixelFormat::Mjpeg);
    assert_eq!(silent, StreamConfig { pixel_format: PixelFormat::Mjpeg, ..requested });
}

#[test]
fn lost_packets_show_in_the_quality() {
    assert_eq!(frame_quality(0), FrameQuality::Intact);
    assert_eq!(frame_quality(3), FrameQuality::Recovering);
    let size = Resolution { width: 2, height: 1 };
    let passed = passthrough_frame(size, PixelFormat::Mjpeg, 1, Duration::ZERO, &[1, 2]);
    assert_eq!(passed.quality, FrameQuality::Recovering);
    assert_eq!(passed.plane_primary[..], [1, 2]);
    let stamped = stamp_frame(frame(5), 2, Duration::from_secs(1));
    assert_eq!(stamped.quality, FrameQuality::Recovering);
    assert_eq!(stamped.timestamp, Duration::from_secs(1));
}

#[test]
fn bgra_and_rgb_show_the_same_colors() {
    let luma = [10, 60, 0, 110, 160, 0];
    let chroma = [90, 200, 0];
    let mut bgra = vec![7; 18];
    nv12_to_bgra(&luma, &chroma, 3, 2, 2, &mut bgra);
    let rgb = to_rgb8(&Frame {
        width: 2,
        height: 2,
        stride: 3,
        timestamp: Duration::ZERO,
        pixel_format: PixelFormat::Nv12,
        quality: FrameQuality::Intact,
        plane_primary: Bytes::from(luma.to_vec()),
        plane_secondary: Bytes::from(chroma.to_vec()),
    })
    .unwrap();
    for place in 0..4 {
        assert_eq!(bgra[4 * place], rgb[3 * place + 2]);
        assert_eq!(bgra[4 * place + 1], rgb[3 * place + 1]);
        assert_eq!(bgra[4 * place + 2], rgb[3 * place]);
        assert_eq!(bgra[4 * place + 3], 255);
    }
    assert_eq!(bgra[16..], [7, 7]);
}

#[test]
fn frames_in_the_announced_format_are_left_alone() {
    let same = as_announced(frame(5), PixelFormat::Bgra8);
    assert_eq!(same.plane_primary[..], [5; 4]);
    let other = as_announced(frame(5), PixelFormat::Nv12);
    assert_eq!(other.pixel_format, PixelFormat::Bgra8);
    assert_eq!(other.plane_primary[..], [5; 4]);
    let mut short = frame(5);
    short.pixel_format = PixelFormat::Nv12;
    let kept = as_announced(short, PixelFormat::Bgra8);
    assert_eq!(kept.pixel_format, PixelFormat::Nv12);
    assert_eq!(kept.plane_primary[..], [5; 4]);
}
