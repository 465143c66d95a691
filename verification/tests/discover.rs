use cameras::channel::Received;
use cameras::discover::{
    axis_gstreamer_profile, axis_matches, axis_profile, build_targets, channel_answered,
    enumerate_channels, expand_subnets, handle_host, host_finished, match_profile, next_channel,
    next_event, next_target, run_scan, scan_permits, stop_channels, target_finished,
    try_next_event, worker_threads, ChannelScan,
    DiscoverConfig, DiscoverEvent, DiscoveredCamera, Discovery, HostAnswer, ScanStep,
    VendorProfile, MAX_HOSTS,
};
use cameras::error::Error;
use cameras::net::{ip_text, parse_subnet, IpAddr, SocketAddr, Subnet};
use cameras::source::CameraSource;
use cameras::wire::{
    bytes_wanted, classify_describe, describe_request, find_header_terminator, header_get,
    options_request, parse_status_and_headers, read_rtsp_response, response_step, rtsp_url,
    DescribeResult, ProbeError, Progress, ReadEvent, RtspResponse,
};

fn subnet(text: &str) -> Subnet {
    parse_subnet(text).unwrap()
}

fn endpoint(a: u8, b: u8, c: u8, d: u8, port: u16) -> SocketAddr {
    SocketAddr { ip: IpAddr::V4(u32::from_be_bytes([a, b, c, d])), port, scope: 0 }
}

fn enumerate_with(
    addr: SocketAddr,
    profile: VendorProfile,
    probe: impl Fn(&str) -> Result<DescribeResult, ProbeError>,
) -> Vec<DiscoveredCamera> {
    let mut scan: ChannelScan = enumerate_channels(addr, profile);
    while let Some(next) = next_channel(&scan) {
        channel_answered(&mut scan, probe(&next.path));
    }
    scan.cameras
}

#[test]
fn subnet_expansion_slash_twenty_four() {
    let net = subnet("192.168.1.0/24");
    let hosts = expand_subnets(&[net], 554).unwrap();
    assert_eq!(hosts.len(), 254);
    assert!(hosts.iter().all(|addr| addr.port == 554));
}

#[test]
fn subnet_expansion_slash_twenty_two() {
    let net = subnet("10.0.0.0/22");
    let hosts = expand_subnets(&[net], 554).unwrap();
    assert_eq!(hosts.len(), 1022);
}

#[test]
fn subnet_expansion_slash_sixteen() {
    let net = subnet("10.0.0.0/16");
    let hosts = expand_subnets(&[net], 554).unwrap();
    assert_eq!(hosts.len(), 65_534);
}

#[test]
fn subnet_expansion_uses_configured_port() {
    let net = subnet("192.168.1.0/30");
    let hosts = expand_subnets(&[net], 8554).unwrap();
    assert!(hosts.iter().all(|addr| addr.port == 8554));
}

#[test]
fn subnet_expansion_rejects_ipv6() {
    let net = subnet("fe80::/64");
    let result = expand_subnets(&[net], 554);
    match result {
        Err(Error::InvalidSubnet(message)) => assert!(message.contains("IPv6")),
        other => panic!("expected InvalidSubnet, got {other:?}"),
    }
}

#[test]
fn subnet_expansion_rejects_over_cap() {
    let a = subnet("10.0.0.0/16");
    let b = subnet("10.1.0.0/16");
    let result = expand_subnets(&[a, b], 554);
    match result {
        Err(Error::InvalidSubnet(message)) => assert!(message.contains("65536")),
        other => panic!("expected InvalidSubnet, got {other:?}"),
    }
}

#[test]
fn default_rtsp_port_is_554() {
    let config = DiscoverConfig::default();
    assert_eq!(config.rtsp_port, 554);
}

#[test]
fn default_endpoints_is_empty() {
    let config = DiscoverConfig::default();
    assert!(config.endpoints.is_empty());
}

#[test]
fn build_targets_endpoint_only() {
    // 127.0.0.1:554 and 127.0.0.1:555
    let config = DiscoverConfig {
        endpoints: vec![endpoint(127, 0, 0, 1, 554), endpoint(127, 0, 0, 1, 555)],
        ..Default::default()
    };
    let targets = build_targets(&config).unwrap();
    assert_eq!(targets.len(), 2);
    assert_eq!(targets[0].port, 554);
    assert_eq!(targets[1].port, 555);
}

#[test]
fn build_targets_mixes_subnets_and_endpoints() {
    let net = subnet("192.168.1.0/30");
    let config = DiscoverConfig {
        subnets: vec![net],
        endpoints: vec![endpoint(127, 0, 0, 1, 9000)],
        ..Default::default()
    };
    let targets = build_targets(&config).unwrap();
    assert_eq!(targets.len(), 3);
    assert_eq!(targets[0].port, 554);
    assert_eq!(targets[1].port, 554);
    assert_eq!(targets[2].port, 9000);
}

#[test]
fn build_targets_combined_cap() {
    let net = subnet("10.0.0.0/16");
    let endpoints: Vec<SocketAddr> = (0..1000u32)
        .map(|i| endpoint(127, 0, 0, ((i % 250) + 1) as u8, (10000 + i) as u16))
        .collect();
    let config = DiscoverConfig { subnets: vec![net], endpoints, ..Default::default() };
    let result = build_targets(&config);
    match result {
        Err(Error::InvalidSubnet(message)) => {
            assert!(message.contains("65536"), "{message}");
            assert!(message.contains("endpoints"), "{message}");
            assert!(message.contains("subnets"), "{message}");
        }
        other => panic!("expected InvalidSubnet, got {other:?}"),
    }
}

#[test]
fn axis_matches_axis_header() {
    assert!(axis_matches("AXIS Communications AB"));
    assert!(axis_matches("axis Q6000-E"));
}

#[test]
fn axis_does_not_match_other_vendors() {
    assert!(!axis_matches("Hikvision"));
    assert!(!axis_matches(""));
    assert!(!axis_matches("Dahua"));
}

#[test]
fn gstreamer_header_matches_axis_gstreamer_profile() {
    let profile = match_profile("GStreamer RTSP server").expect("should match");
    assert_eq!(profile.name, "Axis (GStreamer)");
}

#[test]
fn axis_branded_header_still_matches_axis_profile() {
    let profile = match_profile("AXIS Communications AB").expect("should match");
    assert_eq!(profile.name, "Axis");
}

#[test]
fn enumeration_early_stop_after_two_hits() {
    let profile = axis_profile();
    // 10.0.0.1:554
    let addr = endpoint(10, 0, 0, 1, 554);
    let cameras = enumerate_with(addr, profile, |path| {
        if path.contains("camera=1") || path.contains("camera=2") {
            Ok(DescribeResult::Playable { sdp: "v=0\r\nm=video 0 RTP/AVP 96\r\n".into() })
        } else {
            Ok(DescribeResult::NotFound)
        }
    });
    assert_eq!(cameras.len(), 2);
    assert_eq!(cameras[0].channel, Some(1));
    assert_eq!(cameras[1].channel, Some(2));
}

#[test]
fn enumeration_yields_max_when_all_ok() {
    let profile = axis_profile();
    let max_channels = profile.max_channels;
    let addr = endpoint(10, 0, 0, 1, 554);
    let cameras = enumerate_with(addr, profile, |_path| {
        Ok(DescribeResult::Playable { sdp: "m=video\r\n".into() })
    });
    assert_eq!(cameras.len(), max_channels as usize);
}

#[test]
fn enumeration_immediate_not_found_yields_zero() {
    let profile = axis_profile();
    let addr = endpoint(10, 0, 0, 1, 554);
    let cameras = enumerate_with(addr, profile, |_path| Ok(DescribeResult::NotFound));
    assert!(cameras.is_empty());
}

#[test]
fn enumeration_url_uses_endpoint_port() {
    let profile = axis_profile();
    // 127.0.0.1:555
    let addr = endpoint(127, 0, 0, 1, 555);
    let cameras = enumerate_with(addr, profile, |path| {
        if path.contains("camera=1") {
            Ok(DescribeResult::Playable { sdp: "m=video\r\n".into() })
        } else {
            Ok(DescribeResult::NotFound)
        }
    });
    assert_eq!(cameras.len(), 1);
    let CameraSource::Rtsp { url, .. } = &cameras[0].source else {
        panic!("expected RTSP source");
    };
    assert_eq!(
        url, "rtsp://127.0.0.1:555/axis-media/media.amp?camera=1",
        "URL must use endpoint's port, not 554"
    );
}

#[test]
fn classify_describe_requires_video_media() {
    let audio_only = b"v=0\r\nm=audio 0 RTP/AVP 0\r\n";
    match classify_describe(200, audio_only).unwrap() {
        DescribeResult::Other(200) => {}
        other => panic!("expected Other(200), got {other:?}"),
    }
}

#[test]
fn classify_describe_accepts_video() {
    let body = b"v=0\r\nm=video 0 RTP/AVP 96\r\n";
    match classify_describe(200, body).unwrap() {
        DescribeResult::Playable { .. } => {}
        other => panic!("expected Ok, got {other:?}"),
    }
}

#[test]
fn classify_describe_not_found() {
    let result = classify_describe(404, b"").unwrap();
    assert_eq!(result, DescribeResult::NotFound);
}

#[test]
fn parse_status_and_headers_basic() {
    let raw = b"RTSP/1.0 200 OK\r\nServer: AXIS\r\nContent-Length: 10\r\n";
    let (status, headers) = parse_status_and_headers(raw).unwrap();
    assert_eq!(status, 200);
    assert_eq!(header_get(&headers, "server").as_deref(), Some("AXIS"));
    assert_eq!(header_get(&headers, "content-length").as_deref(), Some("10"));
}

#[test]
fn empty_subnets_returns_empty_hosts() {
    let hosts = expand_subnets(&[], 554).unwrap();
    assert!(hosts.is_empty());
}

#[test]
fn empty_discovery_emits_only_done() {
    let config = DiscoverConfig::default();
    assert!(
        config.subnets.is_empty() && config.endpoints.is_empty(),
        "this test asserts the both-empty invariant; keep Default aligned",
    );
    assert!(build_targets(&config).expect("discover").is_empty());
    let mut discovery = Discovery { done_emitted: false };
    let event = next_event(&mut discovery, Received::Item(DiscoverEvent::Done)).expect("event");
    assert!(matches!(event, DiscoverEvent::Done));
    let again = next_event(&mut discovery, Received::TimedOut).expect("event");
    assert!(matches!(again, DiscoverEvent::Done));
}

#[test]
fn hosts_leave_out_network_and_broadcast() {
    let hosts = expand_subnets(&[subnet("192.168.1.5/30")], 554).unwrap();
    assert_eq!(hosts, vec![endpoint(192, 168, 1, 5, 554), endpoint(192, 168, 1, 6, 554)]);
    let pair = expand_subnets(&[subnet("192.168.1.4/31")], 554).unwrap();
    assert_eq!(pair, vec![endpoint(192, 168, 1, 4, 554), endpoint(192, 168, 1, 5, 554)]);
    let single = expand_subnets(&[subnet("192.168.1.4/32")], 554).unwrap();
    assert_eq!(single, vec![endpoint(192, 168, 1, 4, 554)]);
}

#[test]
fn blocks_that_cannot_be_read_are_refused() {
    assert!(parse_subnet("10.0.0.0").is_none());
    assert!(parse_subnet("10.0.0.0/33").is_none());
    assert!(parse_subnet("").is_none());
    assert_eq!(parse_subnet("10.1.2.3/8"), Some(Subnet::V4 { address: 0x0a01_0203, prefix: 8 }));
    assert_eq!(
        parse_subnet("fe80::1/64"),
        Some(Subnet::V6 { address: (0xfe80u128 << 112) + 1, prefix: 64 })
    );
}

#[test]
fn addresses_are_written_as_usual() {
    assert_eq!(ip_text(IpAddr::V4(0xc0a8_0001)), "192.168.0.1");
    assert_eq!(ip_text(IpAddr::V6(1)), "::1");
    assert_eq!(ip_text(IpAddr::V6(0xfe80u128 << 112)), "fe80::");
}

#[test]
fn exactly_the_cap_is_scanned() {
    let hosts = expand_subnets(&[subnet("10.0.0.0/16"), subnet("10.1.0.0/31")], 554).unwrap();
    assert_eq!(hosts.len(), MAX_HOSTS);
    assert!(expand_subnets(&[subnet("10.0.0.0/15")], 554).is_err());
}

#[test]
fn concurrency_is_kept_in_bounds() {
    assert_eq!(scan_permits(0), 1);
    assert_eq!(scan_permits(32), 32);
    assert_eq!(worker_threads(1), 1);
    assert_eq!(worker_threads(usize::MAX), 8);
}

#[test]
fn cancelling_ends_the_channels() {
    let mut scan = enumerate_channels(endpoint(10, 0, 0, 1, 554), axis_gstreamer_profile());
    channel_answered(&mut scan, Ok(DescribeResult::Playable { sdp: "m=video".into() }));
    stop_channels(&mut scan);
    assert!(next_channel(&scan).is_none());
    assert_eq!(scan.cameras.len(), 1);
    assert_eq!(scan.cameras[0].vendor.as_deref(), Some("Axis (GStreamer)"));
    assert!(scan.cameras[0].model.is_none());
}

#[test]
fn a_failed_probe_ends_the_channels() {
    let cameras = enumerate_with(endpoint(10, 0, 0, 1, 554), axis_profile(), |_path| {
        Err(ProbeError::Timeout)
    });
    assert!(cameras.is_empty());
}

#[test]
fn hosts_are_matched_by_their_server_header() {
    let addr = endpoint(10, 0, 0, 1, 554);
    assert!(matches!(handle_host(addr, None), HostAnswer::Silent));
    match handle_host(addr, Some("Hikvision".into())) {
        HostAnswer::Unmatched(DiscoverEvent::HostUnmatched { host, server }) => {
            assert_eq!(host, addr.ip);
            assert_eq!(server, "Hikvision");
        }
        other => panic!("expected an unmatched host, got {other:?}"),
    }
    match handle_host(addr, Some("AXIS Q6000".into())) {
        HostAnswer::Matched(DiscoverEvent::HostFound { vendor, .. }, scan) => {
            assert_eq!(vendor, "Axis");
            assert_eq!(scan.profile.max_channels, 8);
        }
        other => panic!("expected a matched host, got {other:?}"),
    }
    assert!(matches!(host_finished(2, 9), DiscoverEvent::Progress { scanned: 3, total: 9 }));
}

#[test]
fn a_running_scan_times_out_and_a_gone_one_is_done() {
    let mut discovery = Discovery { done_emitted: false };
    assert!(matches!(next_event(&mut discovery, Received::TimedOut), Err(Error::Timeout)));
    assert!(try_next_event(&mut discovery, None).is_none());
    let progress = DiscoverEvent::Progress { scanned: 1, total: 2 };
    assert!(matches!(
        try_next_event(&mut discovery, Some(progress)),
        Some(DiscoverEvent::Progress { scanned: 1, total: 2 })
    ));
    assert!(matches!(
        next_event(&mut discovery, Received::Disconnected),
        Ok(DiscoverEvent::Done)
    ));
    assert!(try_next_event(&mut discovery, Some(DiscoverEvent::Done)).is_none());
}

#[test]
fn requests_are_written_as_rtsp() {
    let addr = endpoint(10, 0, 0, 1, 8554);
    assert_eq!(
        options_request(addr),
        "OPTIONS rtsp://10.0.0.1:8554/ RTSP/1.0\r\nCSeq: 1\r\nUser-Agent: cameras/0.1.0 discover\r\n\r\n"
    );
    assert_eq!(
        describe_request(addr, "axis-media/media.amp?camera=1"),
        "DESCRIBE rtsp://10.0.0.1:8554/axis-media/media.amp?camera=1 RTSP/1.0\r\nCSeq: 1\r\nAccept: application/sdp\r\nUser-Agent: cameras/0.1.0 discover\r\n\r\n"
    );
}

#[test]
fn ipv6_hosts_stand_in_brackets() {
    let addr = SocketAddr { ip: IpAddr::V6(0xfe80u128 << 112 | 1), port: 554, scope: 2 };
    assert_eq!(rtsp_url(addr, "stream1"), "rtsp://[fe80::1]:554/stream1");
    assert!(options_request(addr).starts_with("OPTIONS rtsp://[fe80::1]:554/ RTSP/1.0\r\n"));
    assert_eq!(url::Url::parse(&rtsp_url(addr, "stream1")).unwrap().port(), Some(554));
    let mut scan = enumerate_channels(addr, axis_gstreamer_profile());
    channel_answered(&mut scan, Ok(DescribeResult::Playable { sdp: "m=video".into() }));
    match &scan.cameras[0].source {
        CameraSource::Rtsp { url, .. } => assert!(url.starts_with("rtsp://[fe80::1]:554/")),
        other => panic!("expected a network stream, got {other:?}"),
    }
}

fn read_in_pieces(text: &[u8], piece: usize, read_body: bool) -> Result<RtspResponse, ProbeError> {
    let mut reader = read_rtsp_response(read_body);
    let mut at = 0;
    loop {
        let wanted = bytes_wanted(&reader).min(piece);
        let end = (at + wanted).min(text.len());
        let chunk = text[at..end].to_vec();
        at = end;
        match response_step(reader, ReadEvent::Data(chunk)) {
            Progress::Reading(next) => reader = next,
            Progress::Finished(response) => return Ok(response),
            Progress::Failed(error) => return Err(error),
        }
    }
}

#[test]
fn responses_do_not_depend_on_how_they_arrive() {
    let text = b"RTSP/1.0 200 OK\r\nContent-Length: 5\r\nServer: AXIS\r\n\r\nhello";
    for piece in [1, 2, 3, 7, 16, 64] {
        let response = read_in_pieces(text, piece, true).unwrap();
        assert_eq!(response.status, 200);
        assert_eq!(response.body, b"hello");
        assert_eq!(header_get(&response.headers, "SERVER").as_deref(), Some("AXIS"));
    }
    assert!(read_in_pieces(text, 9, false).unwrap().body.is_empty());
}

#[test]
fn what_came_with_the_head_is_kept() {
    let text = b"RTSP/1.0 200 OK\r\nContent-Length: 5\r\n\r\nhelloworld";
    assert_eq!(read_in_pieces(text, 64, true).unwrap().body, b"helloworld");
    let short = b"RTSP/1.0 200 OK\r\nContent-Length: 50\r\n\r\nhello";
    assert_eq!(read_in_pieces(short, 64, true).unwrap().body, b"hello");
}

#[test]
fn responses_that_break_off_fail() {
    let cut = read_in_pieces(b"RTSP/1.0 200 OK\r\nServer: A", 4, true);
    assert!(matches!(cut, Err(ProbeError::Eof)));
    let malformed = read_in_pieces(b"HTTP nonsense\r\n\r\n", 64, true);
    assert!(matches!(malformed, Err(ProbeError::Malformed)));
    let reader = read_rtsp_response(true);
    assert!(matches!(
        response_step(reader, ReadEvent::TimedOut),
        Progress::Failed(ProbeError::Timeout)
    ));
    let reader = read_rtsp_response(true);
    assert!(matches!(response_step(reader, ReadEvent::Failed), Progress::Failed(ProbeError::Io)));
}

#[test]
fn the_head_ends_at_the_first_blank_line() {
    assert_eq!(find_header_terminator(b"ab\r\n\r\ncd\r\n\r\n"), Some(2));
    assert_eq!(find_header_terminator(b"ab\r\n"), None);
}

#[test]
fn descriptions_are_read_leniently_and_heads_are_not() {
    match classify_describe(200, b"m=video \xff").unwrap() {
        DescribeResult::Playable { sdp } => assert_eq!(sdp, "m=video \u{fffd}"),
        other => panic!("expected a stream, got {other:?}"),
    }
    assert_eq!(classify_describe(401, b"m=video").unwrap(), DescribeResult::Other(401));
    let head = parse_status_and_headers(b"RTSP/1.0 200 OK\r\nServer: \xff\r\n");
    assert!(matches!(head, Err(ProbeError::Malformed)));
}

#[test]
fn a_scan_reports_every_target_and_then_its_end() {
    let mut run = run_scan(2, 4);
    assert_eq!(next_target(&mut run, false), ScanStep::Visit(0));
    assert_eq!(next_target(&mut run, false), ScanStep::Visit(1));
    assert_eq!(next_target(&mut run, false), ScanStep::Wait);
    assert!(matches!(
        target_finished(&mut run),
        DiscoverEvent::Progress { scanned: 1, total: 2 }
    ));
    assert_eq!(next_target(&mut run, false), ScanStep::Wait);
    assert!(matches!(
        target_finished(&mut run),
        DiscoverEvent::Progress { scanned: 2, total: 2 }
    ));
    assert_eq!(next_target(&mut run, false), ScanStep::End);
    assert_eq!(next_target(&mut run, false), ScanStep::Over);
}

#[test]
fn a_cancelled_scan_finishes_what_is_under_way() {
    let mut run = run_scan(3, 4);
    assert_eq!(next_target(&mut run, false), ScanStep::Visit(0));
    assert_eq!(next_target(&mut run, true), ScanStep::Wait);
    target_finished(&mut run);
    assert_eq!(next_target(&mut run, true), ScanStep::End);
    assert_eq!(next_target(&mut run_scan(0, 4), false), ScanStep::End);
}

#[test]
fn scans_visit_no_more_targets_at_once_than_allowed() {
    let mut run = run_scan(3, 2);
    assert_eq!(next_target(&mut run, false), ScanStep::Visit(0));
    assert_eq!(next_target(&mut run, false), ScanStep::Visit(1));
    assert_eq!(next_target(&mut run, false), ScanStep::Wait);
    target_finished(&mut run);
    assert_eq!(next_target(&mut run, false), ScanStep::Visit(2));
    assert_eq!(next_target(&mut run, false), ScanStep::Wait);
    let mut single = run_scan(2, 0);
    assert_eq!(next_target(&mut single, false), ScanStep::Visit(0));
    assert_eq!(next_target(&mut single, false), ScanStep::Wait);
    target_finished(&mut single);
    assert_eq!(next_target(&mut single, false), ScanStep::Visit(1));
}
