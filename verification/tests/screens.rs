use cameras::autofocus::{
    autofocus_label, focus_failed, focus_moved, start_autofocus, step_measured, tick_autofocus, AutofocusAction,
    SETTLE_NANOS,
};
use cameras::controls::{
    auto_lock_hover, bool_field_get, bool_field_set, capability_detail, capability_rows,
    controls_field_get, controls_field_set, focus_controls, is_supported, label, latest_request,
    live_apply_if_enabled, lock_focus, manual_controls, numeric_row, numeric_rows, offers_auto, paired_auto,
    refresh_capabilities, tick_control, AutoMode, Capability, ControlAnswer, ControlCapabilities, ControlField, ControlKind,
    ControlRange, Controls, RowStatus,
};
use cameras::discover::{DiscoverEvent, DiscoveredCamera};
use cameras::error::Error;
use cameras::net::{IpAddr, SocketAddr, Subnet};
use cameras::session::{
    begin_scan, cancel_scan, clear_scan, format_camera_row, poll_discovery, run_discovery,
    scan_launched, scan_status, spawn_error, start_discovery, take_event, take_reported,
    use_discovery, worker_goes_on, WorkerStep,
};
use cameras::source::CameraSource;
use cameras::types::{Device, DeviceId, Position, Rect, Transport};
use cameras::viewer::{
    build_rtsp_source, build_source, capture_status, center_region, connect_enabled,
    connect_label, connect_status, devices_status, parse_targets, placeholder_text,
    refreshed_selection, split_targets, stream_config, CaptureStage, ConnectStage, SourceMode,
};

fn device(id: &str) -> Device {
    Device {
        id: DeviceId(id.into()),
        name: "Webcam".into(),
        position: Position::External,
        transport: Transport::Usb,
    }
}

fn camera(channel: Option<u32>, vendor: Option<&str>) -> DiscoveredCamera {
    DiscoveredCamera {
        source: CameraSource::Rtsp { url: "rtsp://10.0.0.1/1".into(), credentials: None },
        host: IpAddr::V4(0x0a00_0001),
        channel,
        vendor: vendor.map(|name| name.to_string()),
        model: None,
    }
}

fn focus_only() -> ControlCapabilities<i64> {
    ControlCapabilities {
        focus: Some(ControlRange { min: 0, max: 255, step: 5, default: 30 }),
        exposure: None,
        white_balance_temperature: None,
        brightness: None,
        contrast: None,
        saturation: None,
        sharpness: None,
        gain: None,
        backlight_compensation: None,
        pan: None,
        tilt: None,
        zoom: None,
        auto_focus: Some(true),
        auto_exposure: None,
        auto_white_balance: None,
        power_line_frequency: false,
    }
}

#[test]
fn controls_read_back_what_was_set() {
    let mut controls: Controls<i64> = Controls::default();
    controls_field_set(&mut controls, ControlField::Zoom, Some(3));
    controls_field_set(&mut controls, ControlField::Focus, Some(8));
    bool_field_set(&mut controls, AutoMode::Exposure, Some(true));
    assert_eq!(controls_field_get(&controls, ControlField::Zoom), Some(3));
    assert_eq!(controls_field_get(&controls, ControlField::Focus), Some(8));
    assert_eq!(controls_field_get(&controls, ControlField::Pan), None);
    assert_eq!(bool_field_get(&controls, AutoMode::Exposure), Some(true));
    assert_eq!(bool_field_get(&controls, AutoMode::Focus), None);
}

#[test]
fn capabilities_are_shown_for_every_control() {
    let rows = capability_rows(&focus_only());
    assert_eq!(rows.len(), 16);
    assert_eq!(rows.iter().filter(|row| is_supported(&row.1)).count(), 2);
    assert_eq!(label(ControlKind::Number(ControlField::Focus)), "focus");
    assert_eq!(capability_detail(&Capability::<i64>::Toggle(Some(true))), Some("auto toggle supported"));
    assert_eq!(capability_detail(&Capability::<i64>::Toggle(Some(false))), Some("manual only"));
    assert_eq!(capability_detail(&Capability::<i64>::Range(None)), Some("not supported"));
    assert_eq!(capability_detail(&Capability::<i64>::Menu(true)), Some("menu supported"));
    assert_eq!(numeric_rows(&focus_only()).len(), 1);
    assert!(offers_auto(&focus_only(), AutoMode::Focus));
    assert!(!offers_auto(&focus_only(), AutoMode::Exposure));
}

#[test]
fn sliders_are_locked_while_the_camera_decides() {
    let range = focus_only().focus.unwrap();
    let mut current: Controls<i64> = Controls::default();
    let mut pending: Controls<i64> = Controls::default();
    let idle = numeric_row(&range, ControlField::Focus, &current, &pending);
    assert!(!idle.enabled && !idle.locked);
    assert_eq!(idle.value, 30);
    assert!(matches!(idle.status, RowStatus::Unknown));
    controls_field_set(&mut current, ControlField::Focus, Some(77));
    tick_control(&mut pending, ControlField::Focus, true, 77);
    let ticked = numeric_row(&range, ControlField::Focus, &current, &pending);
    assert!(ticked.enabled);
    assert_eq!(ticked.value, 77);
    assert!(matches!(ticked.status, RowStatus::Now(77)));
    bool_field_set(&mut pending, AutoMode::Focus, Some(true));
    assert!(numeric_row(&range, ControlField::Focus, &current, &pending).locked);
    tick_control(&mut pending, ControlField::Focus, false, 77);
    assert_eq!(controls_field_get(&pending, ControlField::Focus), None);
    assert_eq!(paired_auto(ControlField::Focus), Some(AutoMode::Focus));
    assert_eq!(paired_auto(ControlField::Zoom), None);
    assert_eq!(
        auto_lock_hover("auto_focus"),
        "Disabled because auto_focus is set to 'auto'. Change auto_focus to 'leave' or 'manual' to enable this slider."
    );
}

#[test]
fn only_the_latest_change_is_applied() {
    assert_eq!(latest_request(1, vec![2, 3]), 3);
    assert_eq!(latest_request(1, vec![]), 1);
    assert!(live_apply_if_enabled(false, &Some(device("a"))).is_none());
    assert!(live_apply_if_enabled(true, &None).is_none());
    assert_eq!(live_apply_if_enabled(true, &Some(device("a"))).unwrap().id.0, "a");
    let manual: Controls<i64> = manual_controls();
    assert_eq!(bool_field_get(&manual, AutoMode::WhiteBalance), Some(false));
    assert_eq!(controls_field_get(&focus_controls(9i64), ControlField::Focus), Some(9));
}

#[test]
fn a_sweep_locks_the_sharpest_step() {
    let scores = [Some(3), Some(9), None, Some(9), Some(1)];
    let mut state = start_autofocus(scores.len() as u32);
    for (place, score) in scores.iter().enumerate() {
        let step = place as u32;
        assert!(matches!(tick_autofocus(&mut state, 0), AutofocusAction::Move { step: at } if at == step));
        focus_moved(&mut state, 1000);
        assert!(matches!(tick_autofocus(&mut state, 1000 + SETTLE_NANOS - 1), AutofocusAction::Wait));
        assert!(matches!(tick_autofocus(&mut state, 1000 + SETTLE_NANOS), AutofocusAction::Wait));
        assert!(matches!(tick_autofocus(&mut state, 0), AutofocusAction::Measure { step: at } if at == step));
        step_measured(&mut state, *score);
    }
    assert!(matches!(tick_autofocus(&mut state, 0), AutofocusAction::Lock { step: 1, score: 9 }));
    assert_eq!(autofocus_label(None), "Autofocus (sweep)");
    assert_eq!(autofocus_label(Some((2, 5))), "Autofocusing 2/5");
    assert_eq!(autofocus_label(Some((7, 5))), "Autofocusing 5/5");
}

#[test]
fn a_sweep_without_frames_locks_nothing() {
    let mut state = start_autofocus(1);
    tick_autofocus(&mut state, 0);
    focus_moved(&mut state, 0);
    tick_autofocus(&mut state, SETTLE_NANOS);
    step_measured(&mut state, None);
    assert!(matches!(tick_autofocus(&mut state, 0), AutofocusAction::Nothing));
}

#[test]
fn a_scan_collects_what_it_finds() {
    let mut session = start_discovery();
    assert_eq!(scan_status(&session), "scanning...");
    poll_discovery(
        &mut session,
        vec![
            DiscoverEvent::Progress { scanned: 3, total: 10 },
            DiscoverEvent::CameraFound(camera(Some(1), None)),
        ],
    );
    assert_eq!(scan_status(&session), "scanned 3/10");
    poll_discovery(
        &mut session,
        vec![DiscoverEvent::Done, DiscoverEvent::CameraFound(camera(Some(2), None))],
    );
    assert!(session.done);
    assert_eq!(session.cameras.len(), 1);
    let mut empty = start_discovery();
    poll_discovery(&mut empty, vec![DiscoverEvent::Done]);
    assert_eq!(scan_status(&empty), "scan finished");
}

#[test]
fn cameras_are_listed_by_host_and_channel() {
    assert_eq!(
        format_camera_row(&camera(Some(2), Some("Axis"))),
        "10.0.0.1 [Axis] ch2  \u{b7}  rtsp://10.0.0.1/1"
    );
    assert_eq!(
        format_camera_row(&camera(None, None)),
        "10.0.0.1 [?] ch?  \u{b7}  rtsp://10.0.0.1/1"
    );
}

#[test]
fn a_new_scan_makes_the_old_one_stale() {
    let mut state = use_discovery();
    let first = begin_scan(&mut state);
    scan_launched(&mut state, Ok(()));
    assert!(state.running);
    take_event(&mut state, DiscoverEvent::CameraFound(camera(Some(1), None)));
    take_event(&mut state, DiscoverEvent::Progress { scanned: 1, total: 2 });
    take_event(
        &mut state,
        DiscoverEvent::HostUnmatched { host: IpAddr::V4(1), server: "x".into() },
    );
    assert_eq!((state.cameras.len(), state.scanned, state.unmatched_hosts.len()), (1, 1, 1));
    let second = begin_scan(&mut state);
    assert_ne!(first, second);
    assert!(state.cameras.is_empty());
    let event = DiscoverEvent::Progress { scanned: 2, total: 2 };
    assert!(matches!(run_discovery(state.scan_id, first, Ok(event)), WorkerStep::Continue));
    assert!(matches!(
        run_discovery(state.scan_id, first, Ok(DiscoverEvent::Done)),
        WorkerStep::Stop
    ));
    assert!(matches!(
        run_discovery(state.scan_id, second, Ok(DiscoverEvent::Done)),
        WorkerStep::Finish
    ));
    assert!(matches!(
        run_discovery(state.scan_id, second, Err(Error::Timeout)),
        WorkerStep::Continue
    ));
    assert!(matches!(
        run_discovery(state.scan_id, second, Err(Error::StreamEnded)),
        WorkerStep::Abandon
    ));
    assert!(worker_goes_on(2, 2, true));
    assert!(!worker_goes_on(2, 1, true));
}

#[test]
fn a_scan_can_be_cancelled_and_cleared() {
    let mut state = use_discovery();
    let id = begin_scan(&mut state);
    scan_launched(&mut state, Ok(()));
    take_event(&mut state, DiscoverEvent::CameraFound(camera(Some(1), None)));
    cancel_scan(&mut state);
    assert!(!state.running);
    assert_ne!(state.scan_id, id);
    assert_eq!(state.cameras.len(), 1);
    clear_scan(&mut state);
    assert!(state.cameras.is_empty());
    scan_launched(&mut state, Err(spawn_error("no threads")));
    assert_eq!(
        state.error.as_ref().unwrap().message(),
        "discover: worker thread spawn: no threads"
    );
    assert!(!state.running);
}

#[test]
fn the_viewer_builds_the_source_that_was_chosen() {
    let devices = vec![device("a"), device("b")];
    match build_source(SourceMode::Usb, true, &devices, 1, "", "", "") {
        Some(CameraSource::Usb(chosen)) => assert_eq!(chosen.id.0, "b"),
        other => panic!("expected a device, got {other:?}"),
    }
    assert!(build_source(SourceMode::Usb, true, &devices, 2, "", "", "").is_none());
    assert!(build_source(SourceMode::Rtsp, true, &devices, 0, "  ", "", "").is_none());
    assert!(build_source(SourceMode::Rtsp, false, &devices, 0, "rtsp://host", "", "").is_none());
    match build_rtsp_source(true, " rtsp://host ", "admin", "pw") {
        Some(CameraSource::Rtsp { url, credentials }) => {
            assert_eq!(url, "rtsp://host");
            assert_eq!(credentials.unwrap().username, "admin");
        }
        other => panic!("expected a stream, got {other:?}"),
    }
    match build_rtsp_source(true, "rtsp://host", " ", "") {
        Some(CameraSource::Rtsp { credentials, .. }) => assert!(credentials.is_none()),
        other => panic!("expected a stream, got {other:?}"),
    }
}

#[test]
fn the_viewer_says_what_it_does() {
    let source = CameraSource::Usb(device("a"));
    assert_eq!(connect_status(&ConnectStage::Connecting(source.clone())), "Connecting to Webcam...");
    assert_eq!(connect_status(&ConnectStage::Streaming(source)), "Streaming: Webcam");
    assert_eq!(
        connect_status(&ConnectStage::Failed(Error::DeviceInUse)),
        "Open failed: device is already in use"
    );
    assert_eq!(connect_status(&ConnectStage::NoSource(SourceMode::Usb)), "No camera selected");
    assert_eq!(connect_status(&ConnectStage::NoSource(SourceMode::Rtsp)), "RTSP URL is empty");
    assert_eq!(connect_status(&ConnectStage::Disconnected), "Disconnected");
    assert_eq!(devices_status(0), "No cameras detected");
    assert_eq!(devices_status(1), "1 camera available");
    assert_eq!(devices_status(3), "3 cameras available");
    assert!(connect_enabled(SourceMode::Usb, 1, ""));
    assert!(!connect_enabled(SourceMode::Rtsp, 1, " "));
    assert_eq!(refreshed_selection(5, 3), 0);
    assert_eq!(refreshed_selection(2, 3), 2);
    assert_eq!(stream_config().framerate, 30);
    assert_eq!(center_region(101, 50), Rect { x: 25, y: 12, width: 50, height: 25 });
}

#[test]
fn targets_are_blocks_or_endpoints() {
    assert_eq!(split_targets("10.0.0.0/24, 127.0.0.1:554 ,,x\n"), vec!["10.0.0.0/24", "127.0.0.1:554", "x"]);
    assert!(split_targets(" , ").is_empty());
    let endpoint = SocketAddr { ip: IpAddr::V4(0x7f00_0001), port: 554, scope: 0 };
    let pieces = vec![
        ("127.0.0.1:554".to_string(), Some(endpoint)),
        ("10.0.0.0/24".to_string(), None),
    ];
    let (blocks, endpoints) = parse_targets(&pieces).unwrap();
    assert_eq!(blocks, vec![Subnet::V4 { address: 0x0a00_0000, prefix: 24 }]);
    assert_eq!(endpoints, vec![endpoint]);
    assert_eq!(
        parse_targets(&vec![("x".to_string(), None)]).unwrap_err(),
        "could not parse `x` as CIDR or host:port"
    );
    assert_eq!(parse_targets(&vec![]).unwrap_err(), "enter at least one CIDR or host:port");
}

#[test]
fn a_locked_focus_is_kept() {
    let mut pending: Controls<i64> = Controls::default();
    bool_field_set(&mut pending, AutoMode::Focus, Some(true));
    controls_field_set(&mut pending, ControlField::Zoom, Some(2));
    lock_focus(&mut pending, 40);
    assert_eq!(controls_field_get(&pending, ControlField::Focus), Some(40));
    assert_eq!(controls_field_get(&pending, ControlField::Zoom), Some(2));
    assert_eq!(bool_field_get(&pending, AutoMode::Focus), Some(false));
}

#[test]
fn a_new_source_starts_over_with_its_controls() {
    let unknown = refresh_capabilities::<i64>(None);
    assert!(unknown.capabilities.is_none() && unknown.error.is_none());
    let mut current: Controls<i64> = Controls::default();
    controls_field_set(&mut current, ControlField::Focus, Some(12));
    let known = refresh_capabilities(Some(ControlAnswer {
        device: device("a"),
        capabilities: Ok(focus_only()),
        current: Ok(current),
    }));
    assert!(known.capabilities.is_some());
    assert_eq!(controls_field_get(&known.current, ControlField::Focus), Some(12));
    assert_eq!(controls_field_get(&known.pending, ControlField::Focus), None);
    assert_eq!(known.device.unwrap().id.0, "a");
    let failed = refresh_capabilities::<i64>(Some(ControlAnswer {
        device: device("a"),
        capabilities: Err(Error::DeviceInUse),
        current: Err(Error::DeviceInUse),
    }));
    assert_eq!(failed.error.as_deref(), Some("device is already in use"));
    assert!(failed.device.is_none());
}

#[test]
fn viewer_texts_follow_the_state() {
    assert_eq!(connect_label(false), "Connect");
    assert_eq!(connect_label(true), "Reconnect");
    assert_eq!(
        placeholder_text(SourceMode::Rtsp, 0),
        "Enter an RTSP URL and press Connect"
    );
    assert_eq!(
        placeholder_text(SourceMode::Usb, 0),
        "Plug in a camera, grant permission, and press Refresh"
    );
    assert_eq!(
        placeholder_text(SourceMode::Usb, 2),
        "Press Connect to start streaming"
    );
}

#[test]
fn captures_are_reported() {
    assert_eq!(capture_status(&CaptureStage::NoFrame), "No frame to capture");
    assert_eq!(
        capture_status(&CaptureStage::Undecodable(Error::MjpegDecode("bad".to_string()))),
        "Decode failed: mjpeg decode failed: bad"
    );
    assert_eq!(
        capture_status(&CaptureStage::Unsaved("disk full".to_string())),
        "Save failed: disk full"
    );
    assert_eq!(
        capture_status(&CaptureStage::Saved("/tmp/a.png".to_string())),
        "Saved to /tmp/a.png"
    );
}

#[test]
fn a_sweep_ends_where_the_focus_does_not_move() {
    let mut state = start_autofocus(3);
    assert!(matches!(tick_autofocus(&mut state, 0), AutofocusAction::Move { step: 0 }));
    focus_failed(&mut state);
    assert!(matches!(tick_autofocus(&mut state, 0), AutofocusAction::Abandon));
    assert!(matches!(tick_autofocus(&mut state, SETTLE_NANOS), AutofocusAction::Abandon));
}

#[test]
fn what_an_earlier_scan_reports_is_not_taken_in() {
    let mut state = use_discovery();
    let first = begin_scan(&mut state);
    take_reported(&mut state, first, DiscoverEvent::Progress { scanned: 1, total: 9 });
    assert_eq!((state.scanned, state.total), (1, 9));
    let second = begin_scan(&mut state);
    take_reported(&mut state, first, DiscoverEvent::CameraFound(camera(Some(1), None)));
    assert!(state.cameras.is_empty());
    take_reported(&mut state, second, DiscoverEvent::CameraFound(camera(Some(1), None)));
    assert_eq!(state.cameras.len(), 1);
}
