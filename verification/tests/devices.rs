use cameras::backend::{
    apply_controls, control_capabilities, devices, monitor, open, open_source, probe,
    read_controls, Driver,
};
use cameras::camera::{frame_outcome, handshake_outcome, next_frame, try_next_frame, Camera};
use cameras::channel::Received;
use cameras::controls::Controls;
use cameras::error::Error;
use cameras::linux;
use cameras::macos;
use cameras::monitor::{
    event_outcome, initial_events, known_devices, monitor_started, next_event, poll_changes, try_next_event,
    DeviceMonitor,
};
use cameras::negotiation::{
    applied_config, best_format, pack_u32_pair, pick_native_mode, resolution_distance,
    round_framerate, supports_framerate, unpack_u32_pair, NativeMatch, NativeMode,
};
use cameras::source::{source_label, CameraSource};
use cameras::types::{
    Capabilities, Credentials, Device, DeviceEvent, DeviceId, FormatDescriptor, FrameRate,
    FramerateRange, PixelFormat, Position, Resolution, StreamConfig, Transport,
};
use cameras::windows;
use std::collections::hash_map::DefaultHasher;
use std::hash::{Hash, Hasher};
use std::time::Duration;

fn device(id: &str, name: &str) -> Device {
    Device {
        id: DeviceId(id.into()),
        name: name.into(),
        position: Position::External,
        transport: Transport::Usb,
    }
}

fn rtsp(url: &str, login: Option<(&str, &str)>) -> CameraSource {
    CameraSource::Rtsp {
        url: url.into(),
        credentials: login.map(|(username, password)| Credentials {
            username: username.into(),
            password: password.into(),
        }),
    }
}

fn hash_of(source: &CameraSource) -> u64 {
    let mut hasher = DefaultHasher::new();
    source.hash(&mut hasher);
    hasher.finish()
}

fn config(width: u32, height: u32, framerate: u32, pixel_format: PixelFormat) -> StreamConfig {
    StreamConfig { resolution: Resolution { width, height }, framerate, pixel_format }
}

fn descriptor(width: u32, height: u32, min: u64, max: u64, format: PixelFormat) -> FormatDescriptor {
    FormatDescriptor {
        resolution: Resolution { width, height },
        framerate_range: FramerateRange {
            min: FrameRate { numerator: min, denominator: 1 },
            max: FrameRate { numerator: max, denominator: 1 },
        },
        pixel_format: format,
    }
}

#[test]
fn sources_are_known_by_their_device_or_address() {
    let first = CameraSource::Usb(device("/dev/video0", "Front"));
    let renamed = CameraSource::Usb(device("/dev/video0", "Renamed"));
    assert!(first == renamed);
    assert_eq!(hash_of(&first), hash_of(&renamed));
    assert!(first != CameraSource::Usb(device("/dev/video1", "Front")));
    let open = rtsp("rtsp://host/1", None);
    let locked = rtsp("rtsp://host/1", Some(("admin", "secret")));
    assert!(open == open.clone());
    assert!(open != locked);
    assert!(locked != rtsp("rtsp://host/1", Some(("admin", "other"))));
    assert_eq!(hash_of(&locked), hash_of(&locked.clone()));
    assert_ne!(hash_of(&open), hash_of(&locked));
    assert_ne!(hash_of(&open), hash_of(&rtsp("rtsp://host/2", None)));
    assert!(first != open);
}

#[test]
fn sources_are_labelled_by_name_or_url() {
    assert_eq!(source_label(&CameraSource::Usb(device("/dev/video0", "Front"))), "Front");
    assert_eq!(source_label(&rtsp("rtsp://host/1", Some(("a", "b")))), "rtsp://host/1");
}

#[test]
fn errors_describe_themselves() {
    let backend = Error::Backend { platform: "linux", message: "ioctl".into() };
    let unsupported = Error::Unsupported { platform: "linux", reason: "zoom" };
    let missing = Error::BackendNotImplemented { platform: "unknown" };
    assert_eq!(Error::PermissionDenied.message(), "camera permission denied");
    assert_eq!(Error::DeviceNotFound("x".into()).message(), "device not found: x");
    assert_eq!(Error::DeviceInUse.message(), "device is already in use");
    assert_eq!(Error::FormatNotSupported.message(), "requested format is not supported");
    assert_eq!(Error::Timeout.message(), "timed out waiting for frame");
    assert_eq!(Error::StreamEnded.message(), "camera stream ended");
    assert_eq!(Error::MjpegDecode("bad".into()).message(), "mjpeg decode failed: bad");
    assert_eq!(Error::InvalidSubnet("bad".into()).message(), "invalid subnet: bad");
    assert_eq!(missing.message(), "unknown backend not implemented yet");
    assert_eq!(backend.message(), "linux: ioctl");
    assert_eq!(unsupported.message(), "linux: unsupported (zoom)");
}

#[test]
fn platforms_without_a_backend_refuse_everything() {
    let camera = device("x", "x");
    let wanted = config(640, 480, 30, PixelFormat::Bgra8);
    assert!(matches!(devices::<Driver>(), Err(Error::BackendNotImplemented { platform: "unknown" })));
    assert!(matches!(probe::<Driver>(&camera), Err(Error::BackendNotImplemented { .. })));
    assert!(matches!(open::<Driver>(&camera, wanted), Err(Error::BackendNotImplemented { .. })));
    assert!(matches!(
        open_source::<Driver>(rtsp("rtsp://host", None), wanted),
        Err(Error::BackendNotImplemented { .. })
    ));
    assert!(matches!(monitor::<Driver>(), Err(Error::BackendNotImplemented { .. })));
    assert!(matches!(
        control_capabilities::<Driver>(&camera),
        Err(Error::Unsupported { reason: "controls unavailable on this target", .. })
    ));
    assert!(matches!(read_controls::<Driver>(&camera), Err(Error::Unsupported { .. })));
    assert!(matches!(
        apply_controls::<Driver>(&camera, &Controls::default()),
        Err(Error::Unsupported { .. })
    ));
}

#[test]
fn frames_arrive_over_the_channel() {
    let (sender, receiver) = crossbeam_channel::bounded(3);
    let wanted = config(640, 480, 30, PixelFormat::Bgra8);
    let camera = Camera { config: wanted, frame_rx: receiver, handle: () };
    assert!(try_next_frame(&camera).is_none());
    assert!(matches!(next_frame(&camera, Duration::from_millis(1)), Err(Error::Timeout)));
    sender.send(Err(Error::DeviceInUse)).unwrap();
    assert!(matches!(next_frame(&camera, Duration::from_millis(1)), Err(Error::DeviceInUse)));
    drop(sender);
    assert!(matches!(next_frame(&camera, Duration::from_millis(1)), Err(Error::StreamEnded)));
    assert!(matches!(frame_outcome(Received::TimedOut), Err(Error::Timeout)));
}

#[test]
fn handshakes_end_in_a_configuration_or_a_failure() {
    let wanted = config(640, 480, 30, PixelFormat::Bgra8);
    let applied = handshake_outcome(Received::Item(Ok(wanted)), "rtsp", "no answer").unwrap();
    assert_eq!(applied, wanted);
    match handshake_outcome(Received::TimedOut, "rtsp", "no answer") {
        Err(Error::Backend { platform, message }) => {
            assert_eq!(platform, "rtsp");
            assert_eq!(message, "no answer");
        }
        other => panic!("expected a failure, got {other:?}"),
    }
}

#[test]
fn monitors_report_every_change_once() {
    let mut known = known_devices(&vec![device("a", "A"), device("b", "B")]);
    assert_eq!(initial_events(&known).len(), 2);
    assert!(poll_changes(&mut known, &vec![device("b", "B"), device("a", "A")]).is_empty());
    let events = poll_changes(&mut known, &vec![device("b", "B"), device("c", "C")]);
    assert_eq!(events.len(), 2);
    assert!(matches!(&events[0], DeviceEvent::Added(added) if added.name == "C"));
    assert!(matches!(&events[1], DeviceEvent::Removed(id) if id.0 == "a"));
    assert!(poll_changes(&mut known, &vec![device("c", "C"), device("b", "B")]).is_empty());
}

#[test]
fn monitors_wait_for_events() {
    let (sender, receiver) = crossbeam_channel::unbounded();
    let watch = DeviceMonitor { event_rx: receiver, handle: () };
    assert!(try_next_event(&watch).is_none());
    assert!(matches!(
        next_event(&watch, Duration::from_millis(1)),
        Err(Error::Timeout)
    ));
    sender.send(DeviceEvent::Added(device("a", "A"))).unwrap();
    assert!(matches!(
        next_event(&watch, Duration::from_millis(1)),
        Ok(DeviceEvent::Added(_))
    ));
    drop(sender);
    assert!(matches!(
        next_event(&watch, Duration::from_millis(1)),
        Err(Error::StreamEnded)
    ));
    assert!(matches!(event_outcome(Received::TimedOut), Err(Error::Timeout)));
}

#[test]
fn exact_formats_win_over_close_ones() {
    let capabilities = Capabilities {
        formats: vec![
            descriptor(640, 480, 5, 30, PixelFormat::Mjpeg),
            descriptor(1280, 720, 5, 10, PixelFormat::Yuyv),
            descriptor(1280, 720, 5, 30, PixelFormat::Mjpeg),
        ],
    };
    let exact = best_format(&capabilities, &config(1280, 720, 30, PixelFormat::Mjpeg)).unwrap();
    assert_eq!(exact, capabilities.formats[2]);
    let sized = best_format(&capabilities, &config(1280, 720, 60, PixelFormat::Nv12)).unwrap();
    assert_eq!(sized, capabilities.formats[1]);
    let close = best_format(&capabilities, &config(800, 600, 30, PixelFormat::Mjpeg)).unwrap();
    assert_eq!(close, capabilities.formats[0]);
    let nothing = Capabilities { formats: vec![] };
    assert!(best_format(&nothing, &config(1, 1, 1, PixelFormat::Mjpeg)).is_none());
}

#[test]
fn framerates_are_compared_as_fractions() {
    let ntsc = FrameRate { numerator: 30000, denominator: 1001 };
    let range = FramerateRange { min: FrameRate { numerator: 5, denominator: 1 }, max: ntsc };
    assert!(supports_framerate(&range, 29));
    assert!(!supports_framerate(&range, 31));
    assert!(supports_framerate(&range, 5));
    assert!(!supports_framerate(&range, 3));
}

#[test]
fn sizes_and_rates_travel_in_pairs() {
    assert_eq!(pack_u32_pair(1920, 1080), (1920u64 << 32) + 1080);
    assert_eq!(unpack_u32_pair((1920u64 << 32) + 1080), (1920, 1080));
    assert_eq!(round_framerate(30000, 1001), 30);
    assert_eq!(round_framerate(5, 2), 3);
    let small = Resolution { width: 640, height: 480 };
    let large = Resolution { width: 800, height: 600 };
    assert_eq!(resolution_distance(small, large), 280);
}

#[test]
fn native_modes_are_picked_by_size() {
    let modes = vec![
        NativeMode { size: None, rate: Some((30, 1)) },
        NativeMode { size: Some((640, 480)), rate: Some((15, 1)) },
        NativeMode { size: Some((1280, 720)), rate: Some((30, 1)) },
    ];
    let target = Resolution { width: 1280, height: 720 };
    let picked = pick_native_mode(&modes, target).unwrap();
    assert_eq!(picked.resolution, target);
    assert_eq!(picked.framerate, 30);
    assert!(pick_native_mode(&vec![NativeMode { size: None, rate: None }], target).is_none());
    let failure = windows::pick_native_resolution(&vec![], "0x1", target);
    assert_eq!(
        failure.unwrap_err().message(),
        "windows: device has no enumerable video media types (GetNativeMediaType: 0x1)"
    );
}

#[test]
fn what_the_device_reports_is_what_applies() {
    let picked =
        NativeMatch { resolution: Resolution { width: 640, height: 480 }, framerate: 0 };
    let reported =
        applied_config(picked, Some((800, 600)), Some((30000, 1001)), PixelFormat::Yuyv);
    assert_eq!(reported, config(800, 600, 30, PixelFormat::Yuyv));
    let silent = applied_config(picked, None, None, PixelFormat::Yuyv);
    assert_eq!(silent, config(640, 480, 1, PixelFormat::Yuyv));
}

#[test]
fn linux_codes_name_pixel_formats() {
    for format in [
        PixelFormat::Mjpeg,
        PixelFormat::Yuyv,
        PixelFormat::Nv12,
        PixelFormat::Rgb8,
        PixelFormat::Rgba8,
        PixelFormat::Bgra8,
    ] {
        assert_eq!(linux::fourcc_to_pixel_format(linux::pixel_format_to_fourcc(format)), format);
    }
    assert_eq!(linux::fourcc_to_pixel_format(0), PixelFormat::Mjpeg);
}

#[test]
fn linux_intervals_become_rates() {
    let half = linux::Fraction { numerator: 1, denominator: 30 };
    let slow = linux::Fraction { numerator: 1, denominator: 5 };
    let fixed = linux::interval_to_fps_range(&linux::FrameInterval::Discrete(half));
    assert_eq!(fixed.min, FrameRate { numerator: 30, denominator: 1 });
    assert_eq!(fixed.max, fixed.min);
    let range = linux::interval_to_fps_range(&linux::FrameInterval::Stepwise {
        min: half,
        max: slow,
    });
    assert_eq!(range.min, FrameRate { numerator: 5, denominator: 1 });
    assert_eq!(range.max, FrameRate { numerator: 30, denominator: 1 });
    let modes = vec![linux::DriverMode {
        code: linux::YUYV,
        width: 640,
        height: 480,
        interval: linux::FrameInterval::Discrete(half),
    }];
    let formats = linux::format_descriptors(&modes);
    assert_eq!(formats, vec![descriptor(640, 480, 30, 30, PixelFormat::Yuyv)]);
}

#[test]
fn linux_nodes_become_devices() {
    let nodes = vec![
        linux::DeviceNode { index: 0, name: Some("Webcam".into()), path: Some("/dev/video0".into()) },
        linux::DeviceNode { index: 1, name: None, path: Some("/dev/video1".into()) },
        linux::DeviceNode { index: 2, name: Some("Gone".into()), path: None },
    ];
    let found = linux::node_devices(&nodes);
    assert_eq!(found.len(), 2);
    assert_eq!(found[0].name, "Webcam");
    assert_eq!(found[1].id, DeviceId("/dev/video1".into()));
    assert_eq!(found[1].name, "/dev/video1");
}

#[test]
fn linux_buffers_are_cut_into_planes() {
    let data: Vec<u8> = (0..6).collect();
    let (luma, chroma) = linux::split_planes(&data, PixelFormat::Nv12, 2, 2, 0);
    assert_eq!(luma[..], [0, 1, 2, 3]);
    assert_eq!(chroma[..], [4, 5]);
    let (all, rest) = linux::split_planes(&data, PixelFormat::Yuyv, 2, 2, 0);
    assert_eq!(all.len(), 6);
    assert!(rest.is_empty());
    let frame =
        linux::captured_frame(&data, PixelFormat::Nv12, 2, 2, 2, Duration::from_millis(3));
    assert_eq!(frame.plane_secondary[..], [4, 5]);
    assert_eq!(frame.timestamp, Duration::from_millis(3));
}

#[test]
fn linux_failures_are_told_apart() {
    use_error(linux::map_io_error(linux::IoFailure::PermissionDenied, "x".into()), "camera permission denied");
    use_error(linux::map_io_error(linux::IoFailure::NotFound, "x".into()), "device not found: x");
    use_error(linux::map_io_error(linux::IoFailure::Other, "busy".into()), "linux: busy");
    use_error(
        linux::controls_not_implemented("linux"),
        "linux: unsupported (controls not yet implemented)",
    );
}

fn use_error(error: Error, message: &str) {
    assert_eq!(error.message(), message);
}

#[test]
fn windows_subtypes_name_pixel_formats() {
    let kept = [PixelFormat::Mjpeg, PixelFormat::Yuyv, PixelFormat::Nv12, PixelFormat::Bgra8];
    for format in kept {
        assert_eq!(windows::guid_to_pixel_format(windows::pixel_format_to_guid(format)), format);
    }
    let media = windows::descriptor_from_media_type((640, 480), (30, 0), windows::VideoSubtype::Yuy2);
    assert_eq!(media, descriptor(640, 480, 0, 0, PixelFormat::Yuyv));
}

#[test]
fn windows_activations_need_a_link() {
    let named = windows::activation_device(Some("Cam".into()), Some("link".into())).unwrap();
    assert_eq!((named.name.as_str(), named.id.0.as_str()), ("Cam", "link"));
    let nameless = windows::activation_device(None, Some("link".into())).unwrap();
    assert_eq!(nameless.name, "Camera");
    let failure = windows::activation_device(Some("Cam".into()), None).unwrap_err();
    assert_eq!(failure.message(), "windows: missing symbolic link");
}

#[test]
fn windows_streams_are_tried_in_turn() {
    let found = NativeMatch { resolution: Resolution { width: 1, height: 1 }, framerate: 30 };
    let chosen = windows::find_video_stream(
        9,
        Err(Error::Timeout),
        vec![(0, Err(Error::DeviceInUse)), (1, Ok(found)), (2, Ok(found))],
    );
    assert_eq!(chosen.unwrap().0, 1);
    let first = windows::find_video_stream(9, Ok(found), vec![]);
    assert_eq!(first.unwrap().0, 9);
    let none = windows::find_video_stream(9, Err(Error::Timeout), vec![]);
    assert!(matches!(none, Err(Error::FormatNotSupported)));
    let last = windows::find_video_stream(9, Err(Error::Timeout), vec![(0, Err(Error::DeviceInUse))]);
    assert!(matches!(last, Err(Error::DeviceInUse)));
}

#[test]
fn windows_samples_have_strides_and_times() {
    assert_eq!(windows::expected_stride_bytes(PixelFormat::Bgra8, 10), 40);
    assert_eq!(windows::expected_stride_bytes(PixelFormat::Rgb8, 10), 30);
    assert_eq!(windows::expected_stride_bytes(PixelFormat::Yuyv, 10), 20);
    assert_eq!(windows::sample_stride(None, PixelFormat::Yuyv, 10), 20);
    assert_eq!(windows::sample_stride(Some((-64i32) as u32), PixelFormat::Yuyv, 10), 64);
    assert_eq!(windows::sample_length(10, 4), 4);
    assert_eq!(windows::sample_nanos(3), 300);
    assert_eq!(windows::sample_nanos(-3), 0);
    let applied = config(2, 1, 30, PixelFormat::Rgb8);
    let frame = windows::sample_frame(applied, 6, Duration::ZERO, &[1, 2, 3, 4, 5, 6]);
    assert_eq!(frame.plane_primary[..], [1, 2, 3, 4, 5, 6]);
    assert!(windows::com_outcome(0).unwrap());
    assert!(windows::com_outcome(1).unwrap());
    let failure = windows::com_outcome(-2147221008).unwrap_err();
    assert_eq!(failure.message(), "windows: CoInitializeEx failed: 0x800401F0");
}

#[test]
fn macos_codes_name_formats_and_transports() {
    assert_eq!(macos::fourcc_to_pixel_format(macos::VIDEO_RANGE_420), PixelFormat::Nv12);
    assert_eq!(macos::fourcc_to_pixel_format(macos::YUVS), PixelFormat::Yuyv);
    assert_eq!(macos::fourcc_to_pixel_format(macos::JPEG), PixelFormat::Mjpeg);
    assert_eq!(macos::transport_from_code(macos::USB), Transport::Usb);
    assert_eq!(macos::transport_from_code(macos::BUILT_IN), Transport::BuiltIn);
    assert_eq!(macos::transport_from_code(0), Transport::Other);
    let front = macos::device_to_public(
        "id".into(),
        "FaceTime".into(),
        macos::Mounting::Front,
        macos::BUILT_IN,
    );
    assert_eq!(front.position, Position::Front);
}

#[test]
fn macos_formats_and_durations_are_selected() {
    let small = Resolution { width: 640, height: 480 };
    let large = Resolution { width: 1280, height: 720 };
    let choices = vec![
        macos::FormatChoice { resolution: small, supports_framerate: true },
        macos::FormatChoice { resolution: large, supports_framerate: false },
        macos::FormatChoice { resolution: large, supports_framerate: true },
    ];
    assert_eq!(macos::select_format(&choices, large).unwrap(), 2);
    assert!(matches!(macos::select_format(&vec![], large), Err(Error::FormatNotSupported)));
    let ranges = vec![
        macos::RangeChoice { inside: false, distance: 9 },
        macos::RangeChoice { inside: false, distance: 2 },
    ];
    assert_eq!(macos::pick_frame_duration(&ranges), Some(1));
    assert_eq!(macos::pick_frame_duration(&vec![]), None);
}

#[test]
fn macos_access_is_asked_for() {
    assert!(matches!(
        macos::ensure_authorized(macos::Authorization::NotDetermined),
        macos::AccessStep::Ask
    ));
    assert!(matches!(
        macos::ensure_authorized(macos::Authorization::Refused),
        macos::AccessStep::Fail(Error::PermissionDenied)
    ));
    assert!(macos::request_authorization(Some(true)).is_ok());
    assert!(matches!(macos::request_authorization(Some(false)), Err(Error::PermissionDenied)));
    let frame = macos::captured_frame(1, 1, 4, Duration::ZERO, &[1, 2, 3, 4]);
    assert_eq!(frame.pixel_format, PixelFormat::Bgra8);
}

#[test]
fn windows_nv12_samples_have_two_planes() {
    let applied = config(2, 2, 30, PixelFormat::Nv12);
    let frame = windows::sample_frame(applied, 4, Duration::ZERO, &[1, 2, 0, 0, 3, 4, 0, 0, 5, 6, 0, 0]);
    assert_eq!(frame.plane_primary[..], [1, 2, 0, 0, 3, 4, 0, 0]);
    assert_eq!(frame.plane_secondary[..], [5, 6, 0, 0]);
}

#[test]
fn monitors_start_with_what_is_there_or_not_at_all() {
    let (known, events) = monitor_started(Ok(vec![device("a", "A"), device("b", "B")])).unwrap();
    assert_eq!(known.len(), 2);
    assert_eq!(events.len(), 2);
    assert!(matches!(&events[1], DeviceEvent::Added(added) if added.id.0 == "b"));
    assert!(matches!(
        monitor_started(Err(Error::PermissionDenied)),
        Err(Error::PermissionDenied)
    ));
}

#[test]
fn macos_sessions_say_what_they_deliver() {
    let choices = vec![
        macos::FormatChoice {
            resolution: Resolution { width: 640, height: 480 },
            supports_framerate: true,
        },
        macos::FormatChoice {
            resolution: Resolution { width: 1920, height: 1080 },
            supports_framerate: true,
        },
    ];
    let requested = config(1280, 720, 25, PixelFormat::Yuyv);
    let applied = macos::applied_config(&choices, 1, Some((30000, 1001)), requested);
    assert_eq!(applied, config(1920, 1080, 30, PixelFormat::Bgra8));
    let unset = macos::applied_config(&choices, 0, None, requested);
    assert_eq!(unset, config(640, 480, 25, PixelFormat::Bgra8));
}
