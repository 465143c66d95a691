//! RTSP discovery over local subnets and explicit endpoints.
//!
//! A scan visits a mix of IPv4 CIDR blocks (probed at [`DiscoverConfig::rtsp_port`],
//! default 554) and explicit endpoints, classifies matching hosts by their `Server:`
//! header, and enumerates the camera channels each vendor exposes. The functions here
//! decide whom to ask, what to ask next, and what an answer means; whoever holds the
//! connections carries the requests and the answers.
//!
//! Hosts that respond to RTSP but whose `Server:` header does not match any
//! known vendor profile are surfaced as [`DiscoverEvent::HostUnmatched`]
//! with the raw header string. This lets callers see exactly what a device
//! returned, useful when extending the vendor profiles or diagnosing "scan finished,
//! nothing found".

use crate::channel::Received;
use crate::error::{Error, ErrorView};
use crate::net;
use crate::net::{host_range, next_host, IpAddr, SocketAddr, Subnet};
use crate::source::CameraSource;
use crate::text;
use crate::text::{append, append_number, contains_lowered};
use crate::wire;
use crate::wire::{rtsp_url, DescribeResult, ProbeError};
use vstd::prelude::*;

verus! {

/// The port that RTSP servers listen on by default.
pub const DEFAULT_RTSP_PORT: u16 = 554;

/// Most hosts that one scan visits.
pub const MAX_HOSTS: usize = 65536;

/// A camera confirmed by discovery.
///
/// One instance per channel. A multi-channel encoder yields several
/// [`DiscoveredCamera`]s with the same `host` and distinct `channel`.
#[derive(Debug, PartialEq, Eq, Hash)]
pub struct DiscoveredCamera {
    /// Source suitable for opening the stream.
    pub source: CameraSource,
    /// Host the stream lives on.
    pub host: IpAddr,
    /// Channel index inside the host, when the vendor exposes one.
    pub channel: Option<u32>,
    /// Vendor label derived from the RTSP `Server:` header.
    pub vendor: Option<String>,
    /// Model string, when the server header carries one.
    pub model: Option<String>,
}

impl Clone for DiscoveredCamera {
    fn clone(&self) -> (copy: DiscoveredCamera)
        ensures
            copy == *self,
    {
        DiscoveredCamera {
            source: self.source.clone(),
            host: self.host,
            channel: self.channel,
            vendor: match &self.vendor {
                None => None,
                Some(vendor) => Some(vendor.clone()),
            },
            model: match &self.model {
                None => None,
                Some(model) => Some(model.clone()),
            },
        }
    }
}

/// Tunables for a discovery run.
#[derive(Clone, Debug)]
pub struct DiscoverConfig {
    /// CIDR blocks to scan. IPv4 only. Each expanded host is probed at
    /// [`rtsp_port`](Self::rtsp_port). The combined total of subnet-expanded
    /// hosts + [`endpoints`](Self::endpoints) is capped at 65,536.
    pub subnets: Vec<Subnet>,
    /// Additional explicit endpoints to probe. Scanned alongside `subnets`.
    /// Use this when you already know the host:port pairs (e.g. local
    /// tunnel endpoints forwarded from remote DVRs). Each entry carries
    /// its own port and ignores [`rtsp_port`](Self::rtsp_port).
    pub endpoints: Vec<SocketAddr>,
    /// Port used when expanding `subnets`. Endpoints carry their own port.
    pub rtsp_port: u16,
    /// How long to wait for a TCP connect before giving up, in milliseconds.
    pub connect_timeout_millis: u64,
    /// Per-read / per-write deadline for RTSP requests, in milliseconds.
    pub rtsp_timeout_millis: u64,
    /// Maximum number of hosts being probed simultaneously.
    pub concurrency: usize,
}

impl Default for DiscoverConfig {
    fn default() -> (config: DiscoverConfig)
        ensures
            config.subnets@ == Seq::<Subnet>::empty(),
            config.endpoints@ == Seq::<SocketAddr>::empty(),
            config.rtsp_port == 554,
            config.connect_timeout_millis == 500,
            config.rtsp_timeout_millis == 2000,
            config.concurrency == 32,
    {
        DiscoverConfig {
            subnets: Vec::new(),
            endpoints: Vec::new(),
            rtsp_port: DEFAULT_RTSP_PORT,
            connect_timeout_millis: 500,
            rtsp_timeout_millis: 2000,
            concurrency: 32,
        }
    }
}

/// Events emitted by a running scan.
#[derive(Clone, Debug)]
#[non_exhaustive]
pub enum DiscoverEvent {
    /// A host answered RTSP and matched a known vendor.
    HostFound {
        /// Host that responded.
        host: IpAddr,
        /// Vendor label derived from the `Server:` header.
        vendor: String,
        /// Model string, when the server header carries one.
        model: Option<String>,
    },
    /// A host answered RTSP but its `Server:` header did not match any known
    /// vendor profile. Useful for debugging "scan completed, nothing found"
    /// situations, inspecting the raw `server` string tells you whether a new
    /// vendor profile is needed or whether the header is branded differently
    /// than expected.
    HostUnmatched {
        /// Host that responded.
        host: IpAddr,
        /// Raw `Server:` header as returned by the host.
        server: String,
    },
    /// A channel on a host returned a playable SDP.
    CameraFound(DiscoveredCamera),
    /// Per-host progress counter; `scanned` increments once per host finished.
    Progress {
        /// Number of hosts fully processed so far.
        scanned: usize,
        /// Total hosts the scan intends to visit.
        total: usize,
    },
    /// The scan finished. Subsequent `next_event` calls keep returning `Done`.
    Done,
}

/// The addresses at one port.
pub open spec fn endpoints_at(addresses: Seq<u32>, port: u16) -> Seq<SocketAddr> {
    addresses.map_values(|address: u32| SocketAddr { ip: IpAddr::V4(address), port, scope: 0 })
}

/// The message about more hosts than a scan visits.
pub open spec fn too_many_hosts() -> Seq<char> {
    "total hosts exceed "@ + text::decimal(MAX_HOSTS as nat)
}

/// The hosts of a list of blocks, block after block, or what is wrong with the first block
/// that cannot be scanned: that it is an IPv6 block, or that the hosts are too many with it.
pub open spec fn expanded(subnets: Seq<Subnet>, port: u16) -> Result<Seq<SocketAddr>, ErrorView>
    decreases subnets.len(),
{
    if subnets.len() == 0 {
        Ok(Seq::empty())
    } else {
        match expanded(subnets.drop_last(), port) {
            Err(error) => Err(error),
            Ok(hosts) => match subnets.last() {
                Subnet::V6 { .. } => Err(
                    ErrorView::InvalidSubnet("IPv6 subnets are not supported"@),
                ),
                Subnet::V4 { address, prefix } => {
                    let more = net::block_hosts(address, prefix);
                    if hosts.len() + more.len() > MAX_HOSTS {
                        Err(ErrorView::InvalidSubnet(too_many_hosts()))
                    } else {
                        Ok(hosts + endpoints_at(more, port))
                    }
                },
            },
        }
    }
}

/// An error in a prefix of the list is an error of the whole list.
proof fn expansion_error_stays(subnets: Seq<Subnet>, count: int, port: u16)
    requires
        0 <= count <= subnets.len(),
        expanded(subnets.take(count), port) is Err,
    ensures
        expanded(subnets, port) == expanded(subnets.take(count), port),
    decreases subnets.len() - count,
{
    if count < subnets.len() {
        assert(subnets.take(count + 1).drop_last() =~= subnets.take(count));
        expansion_error_stays(subnets, count + 1, port);
    } else {
        assert(subnets.take(count) =~= subnets);
    }
}

/// Whether target lists came out as expected.
pub open spec fn is_targets(
    result: Result<Vec<SocketAddr>, Error>,
    expected: Result<Seq<SocketAddr>, ErrorView>,
) -> bool {
    match result {
        Ok(targets) => expected == Ok::<Seq<SocketAddr>, ErrorView>(targets@),
        Err(error) => expected == Err::<Seq<SocketAddr>, ErrorView>(error@),
    }
}

/// Append the hosts of one block, and say whether they are too many.
fn push_block(hosts: &mut Vec<SocketAddr>, address: u32, prefix: u8, port: u16) -> (fits: bool)
    requires
        prefix <= 32,
        old(hosts)@.len() <= MAX_HOSTS,
    ensures
        fits == (old(hosts)@.len() + net::block_hosts(address, prefix).len() <= MAX_HOSTS),
        fits ==> final(hosts)@ == old(hosts)@ + endpoints_at(
            net::block_hosts(address, prefix),
            port,
        ),
{
    let ghost all = net::block_hosts(address, prefix);
    let mut range = host_range(address, prefix);
    let ghost mut taken: int = 0;
    proof {
        assert(all.subrange(0, all.len() as int) =~= all);
        assert(hosts@ =~= old(hosts)@ + endpoints_at(all, port).take(0));
    }
    loop
        invariant
            0 <= taken <= all.len(),
            old(hosts)@.len() <= MAX_HOSTS,
            all == net::block_hosts(address, prefix),
            net::addresses_left(range) == all.subrange(taken, all.len() as int),
            hosts@ == old(hosts)@ + endpoints_at(all, port).take(taken),
            hosts@.len() <= MAX_HOSTS,
        decreases MAX_HOSTS - hosts@.len(),
    {
        match next_host(&mut range) {
            None => {
                assert(endpoints_at(all, port).take(taken) =~= endpoints_at(all, port));
                return true;
            },
            Some(host) => {
                if hosts.len() == MAX_HOSTS {
                    return false;
                }
                hosts.push(SocketAddr { ip: IpAddr::V4(host), port, scope: 0 });
                proof {
                    assert(host == all[taken]);
                    assert(net::addresses_left(range) =~= all.subrange(
                        taken + 1,
                        all.len() as int,
                    ));
                    assert(hosts@ =~= old(hosts)@ + endpoints_at(all, port).take(taken + 1));
                    taken = taken + 1;
                }
            },
        }
    }
}

/// List the hosts of a list of blocks at one port.
///
/// An IPv6 block is an error, and so are more than 65,536 hosts.
pub fn expand_subnets(subnets: &[Subnet], port: u16) -> (result: Result<Vec<SocketAddr>, Error>)
    requires
        net::all_valid(subnets@),
    ensures
        is_targets(result, expanded(subnets@, port)),
{
    let mut hosts: Vec<SocketAddr> = Vec::new();
    let mut i: usize = 0;
    assert(hosts@ =~= Seq::<SocketAddr>::empty());
    assert(subnets@.take(0) =~= Seq::<Subnet>::empty());
    while i < subnets.len()
        invariant
            i <= subnets.len(),
            net::all_valid(subnets@),
            hosts@.len() <= MAX_HOSTS,
            expanded(subnets@.take(i as int), port) == Ok::<Seq<SocketAddr>, ErrorView>(hosts@),
        decreases subnets.len() - i,
    {
        assert(subnets@.take(i + 1).drop_last() =~= subnets@.take(i as int));
        assert(subnets@[i as int].valid());
        match subnets[i] {
            Subnet::V6 { .. } => {
                proof {
                    expansion_error_stays(subnets@, i + 1, port);
                }
                return Err(Error::InvalidSubnet("IPv6 subnets are not supported".to_owned()));
            },
            Subnet::V4 { address, prefix } => {
                if !push_block(&mut hosts, address, prefix, port) {
                    proof {
                        expansion_error_stays(subnets@, i + 1, port);
                    }
                    return Err(
                        Error::InvalidSubnet(
                            append_number("total hosts exceed ".to_owned(), MAX_HOSTS as u64),
                        ),
                    );
                }
            },
        }
        i = i + 1;
    }
    assert(subnets@.take(i as int) =~= subnets@);
    Ok(hosts)
}

/// The message about more hosts and endpoints together than a scan visits.
pub open spec fn too_many_targets(hosts: nat, endpoints: nat) -> Seq<char> {
    "total hosts exceed "@ + text::decimal(MAX_HOSTS as nat) + " ("@ + text::decimal(hosts)
        + " from subnets + "@ + text::decimal(endpoints) + " from endpoints)"@
}

/// Everything a scan visits: the hosts of the subnets at the configured port, then the
/// endpoints.
pub open spec fn targets(subnets: Seq<Subnet>, port: u16, endpoints: Seq<SocketAddr>) -> Result<
    Seq<SocketAddr>,
    ErrorView,
> {
    match expanded(subnets, port) {
        Err(error) => Err(error),
        Ok(hosts) => if hosts.len() + endpoints.len() > MAX_HOSTS {
            Err(ErrorView::InvalidSubnet(too_many_targets(hosts.len(), endpoints.len())))
        } else {
            Ok(hosts + endpoints)
        },
    }
}

/// No expansion is longer than a scan may be.
pub proof fn expansion_is_capped(subnets: Seq<Subnet>, port: u16)
    ensures
        expanded(subnets, port) matches Ok(hosts) ==> hosts.len() <= MAX_HOSTS,
    decreases subnets.len(),
{
    if subnets.len() > 0 {
        expansion_is_capped(subnets.drop_last(), port);
    }
}

/// List everything that a scan visits.
pub fn build_targets(config: &DiscoverConfig) -> (result: Result<Vec<SocketAddr>, Error>)
    requires
        net::all_valid(config.subnets@),
    ensures
        is_targets(result, targets(config.subnets@, config.rtsp_port, config.endpoints@)),
{
    let mut list = match expand_subnets(config.subnets.as_slice(), config.rtsp_port) {
        Ok(hosts) => hosts,
        Err(error) => {
            return Err(error);
        },
    };
    proof {
        expansion_is_capped(config.subnets@, config.rtsp_port);
    }
    let subnet_count: usize = list.len();
    if config.endpoints.len() > MAX_HOSTS - subnet_count {
        let limit = append_number("total hosts exceed ".to_owned(), MAX_HOSTS as u64);
        let hosts = append_number(append(limit, " ("), subnet_count as u64);
        let both = append_number(append(hosts, " from subnets + "), config.endpoints.len() as u64);
        return Err(Error::InvalidSubnet(append(both, " from endpoints)")));
    }
    list.extend_from_slice(config.endpoints.as_slice());
    assert(list@ =~= expanded(config.subnets@, config.rtsp_port)->Ok_0 + config.endpoints@);
    Ok(list)
}

/// Number of worker threads for a scan of that concurrency: between 1 and 8.
pub fn worker_threads(concurrency: usize) -> (threads: usize)
    ensures
        threads == (if concurrency < 1 {
            1
        } else if concurrency > 8 {
            8
        } else {
            concurrency as int
        }),
{
    if concurrency < 1 {
        1
    } else if concurrency > 8 {
        8
    } else {
        concurrency
    }
}

/// Number of hosts that a scan of that concurrency probes at a time: at least one.
pub fn scan_permits(concurrency: usize) -> (permits: usize)
    ensures
        permits == (if concurrency < 1 {
            1
        } else {
            concurrency as int
        }),
{
    if concurrency < 1 {
        1
    } else {
        concurrency
    }
}

/// A vendor's cameras: how to tell them and how many channels to try.
#[derive(Clone, Copy, Debug)]
pub struct VendorProfile {
    /// Name of the vendor.
    pub name: &'static str,
    /// What the vendor's `Server:` header contains, in lower case.
    pub marker: &'static str,
    /// Highest channel number to try.
    pub max_channels: u32,
}

/// Axis cameras that name their vendor.
pub fn axis_profile() -> (profile: VendorProfile)
    ensures
        profile.name@ == "Axis"@,
        profile.marker@ == "axis"@,
        profile.max_channels == 8,
{
    VendorProfile { name: "Axis", marker: "axis", max_channels: 8 }
}

/// Axis cameras that name the server software they run.
pub fn axis_gstreamer_profile() -> (profile: VendorProfile)
    ensures
        profile.name@ == "Axis (GStreamer)"@,
        profile.marker@ == "gstreamer rtsp server"@,
        profile.max_channels == 8,
{
    VendorProfile { name: "Axis (GStreamer)", marker: "gstreamer rtsp server", max_channels: 8 }
}

/// Whether a `Server:` header names Axis, without regard to ASCII case.
pub fn axis_matches(server: &str) -> (matches: bool)
    ensures
        matches == text::contains(text::lowered(server@), "axis"@),
{
    contains_lowered(server, "axis")
}

/// The vendor profile that a `Server:` header matches: the first one whose marker stands in
/// it, without regard to ASCII case.
pub fn match_profile(server: &str) -> (profile: Option<VendorProfile>)
    ensures
        match profile {
            Some(found) => {
                let lowered = text::lowered(server@);
                &&& found.max_channels == 8
                &&& text::contains(lowered, "axis"@) ==> found.name@ == "Axis"@
                    && found.marker@ == "axis"@
                &&& !text::contains(lowered, "axis"@) ==> found.name@ == "Axis (GStreamer)"@
                    && found.marker@ == "gstreamer rtsp server"@
                &&& text::contains(lowered, "axis"@) || text::contains(
                    lowered,
                    "gstreamer rtsp server"@,
                )
            },
            None => !text::contains(text::lowered(server@), "axis"@) && !text::contains(
                text::lowered(server@),
                "gstreamer rtsp server"@,
            ),
        },
{
    if axis_matches(server) {
        Some(axis_profile())
    } else if contains_lowered(server, "gstreamer rtsp server") {
        Some(axis_gstreamer_profile())
    } else {
        None
    }
}

/// Where a channel's stream lives on a host.
pub open spec fn channel_path_written(channel: u32) -> Seq<char> {
    "axis-media/media.amp?camera="@ + text::decimal(channel as nat)
}

/// Where a channel's stream lives on a host.
pub fn axis_channel_path(channel: u32) -> (path: String)
    ensures
        path@ == channel_path_written(channel),
{
    append_number("axis-media/media.amp?camera=".to_owned(), channel as u64)
}

/// Whether a camera is the one for `channel` of a host of that vendor.
pub open spec fn is_channel_camera(
    camera: DiscoveredCamera,
    addr: SocketAddr,
    vendor: Seq<char>,
    channel: int,
) -> bool {
    &&& camera.source matches CameraSource::Rtsp { url, credentials }
    &&& url@ == wire::url_written(addr, channel_path_written(channel as u32))
    &&& credentials is None
    &&& camera.host == addr.ip
    &&& camera.channel == Some(channel as u32)
    &&& camera.vendor matches Some(name)
    &&& name@ == vendor
    &&& camera.model is None
}

/// The channels of one host being tried, one after another.
#[derive(Debug)]
pub struct ChannelScan {
    /// Host and port.
    pub addr: SocketAddr,
    /// Vendor of the host.
    pub profile: VendorProfile,
    /// Number of channels found so far.
    pub found: u32,
    /// Whether no further channel is tried.
    pub finished: bool,
    /// The cameras found, one for each channel from the first on.
    pub cameras: Vec<DiscoveredCamera>,
}

impl ChannelScan {
    /// The cameras found are those of the first `found` channels, in order, and no more
    /// channels than the vendor has are tried.
    pub open spec fn valid(self) -> bool {
        &&& self.found <= self.profile.max_channels
        &&& self.found == self.profile.max_channels ==> self.finished
        &&& self.cameras@.len() == self.found
        &&& forall|i: int|
            0 <= i < self.found ==> is_channel_camera(
                #[trigger] self.cameras@[i],
                self.addr,
                self.profile.name@,
                i + 1,
            )
    }
}

/// A channel to ask a host about.
#[derive(Debug)]
pub struct ChannelProbe {
    /// The channel's number.
    pub channel: u32,
    /// Where its stream lives on the host.
    pub path: String,
}

/// Start trying the channels of a host.
pub fn enumerate_channels(addr: SocketAddr, profile: VendorProfile) -> (scan: ChannelScan)
    ensures
        scan.valid(),
        scan.addr == addr,
        scan.profile == profile,
        scan.found == 0,
        scan.finished == (profile.max_channels == 0),
{
    ChannelScan {
        addr,
        profile,
        found: 0,
        finished: profile.max_channels == 0,
        cameras: Vec::new(),
    }
}

/// The channel to ask about next: the one after those found, unless trying has finished.
pub fn next_channel(scan: &ChannelScan) -> (probe: Option<ChannelProbe>)
    requires
        scan.valid(),
    ensures
        match probe {
            None => scan.finished,
            Some(next) => !scan.finished && next.channel == scan.found + 1 && next.path@
                == channel_path_written(next.channel),
        },
{
    if scan.finished {
        None
    } else {
        let channel: u32 = scan.found + 1;
        Some(ChannelProbe { channel, path: axis_channel_path(channel) })
    }
}

/// Take in a host's answer about the next channel: a playable stream is one camera more,
/// and anything else ends the scan.
pub fn channel_answered(scan: &mut ChannelScan, answer: Result<DescribeResult, ProbeError>)
    requires
        old(scan).valid(),
        !old(scan).finished,
    ensures
        final(scan).valid(),
        final(scan).addr == old(scan).addr,
        final(scan).profile == old(scan).profile,
        match answer {
            Ok(DescribeResult::Playable { .. }) => {
                &&& final(scan).found == old(scan).found + 1
                &&& final(scan).finished == (final(scan).found == final(scan).profile.max_channels)
                &&& final(scan).cameras@.drop_last() == old(scan).cameras@
            },
            _ => {
                &&& final(scan).found == old(scan).found
                &&& final(scan).finished
                &&& final(scan).cameras == old(scan).cameras
            },
        },
{
    match answer {
        Ok(DescribeResult::Playable { .. }) => {
            let channel: u32 = scan.found + 1;
            let path = axis_channel_path(channel);
            let camera = DiscoveredCamera {
                source: CameraSource::Rtsp {
                    url: rtsp_url(scan.addr, path.as_str()),
                    credentials: None,
                },
                host: scan.addr.ip,
                channel: Some(channel),
                vendor: Some(scan.profile.name.to_owned()),
                model: None,
            };
            scan.cameras.push(camera);
            scan.found = channel;
            scan.finished = channel == scan.profile.max_channels;
            assert(scan.cameras@.drop_last() =~= old(scan).cameras@);
        },
        _ => {
            scan.finished = true;
        },
    }
}

/// Give up on the remaining channels, because the scan was cancelled.
pub fn stop_channels(scan: &mut ChannelScan)
    requires
        old(scan).valid(),
    ensures
        final(scan).valid(),
        final(scan).finished,
        final(scan).found == old(scan).found,
        final(scan).cameras == old(scan).cameras,
        final(scan).addr == old(scan).addr,
        final(scan).profile == old(scan).profile,
{
    scan.finished = true;
}

/// What a host's answer to the first question leads to.
#[derive(Debug)]
pub enum HostAnswer {
    /// The host did not answer, or did not say what it is. There is nothing to report.
    Silent,
    /// The host is of no known vendor. The event is all there is to report.
    Unmatched(DiscoverEvent),
    /// The host is of a known vendor. The event is reported, and its channels are tried.
    Matched(DiscoverEvent, ChannelScan),
}

/// Decide what a host's `Server:` header, if it sent one, leads to.
pub fn handle_host(addr: SocketAddr, server: Option<String>) -> (answer: HostAnswer)
    ensures
        match server {
            None => answer is Silent,
            Some(header) => {
                let lowered = text::lowered(header@);
                let axis = text::contains(lowered, "axis"@);
                let gstreamer = text::contains(lowered, "gstreamer rtsp server"@);
                match answer {
                    HostAnswer::Silent => false,
                    HostAnswer::Unmatched(event) => !axis && !gstreamer && event
                        == (DiscoverEvent::HostUnmatched { host: addr.ip, server: header }),
                    HostAnswer::Matched(event, scan) => {
                        &&& axis || gstreamer
                        &&& event matches DiscoverEvent::HostFound { host, vendor, model }
                        &&& host == addr.ip
                        &&& vendor@ == scan.profile.name@
                        &&& model is None
                        &&& scan.valid()
                        &&& scan.addr == addr
                        &&& scan.profile.name@ == if axis {
                            "Axis"@
                        } else {
                            "Axis (GStreamer)"@
                        }
                        &&& scan.profile.max_channels == 8
                        &&& scan.found == 0
                        &&& !scan.finished
                    },
                }
            },
        },
{
    match server {
        None => HostAnswer::Silent,
        Some(header) => match match_profile(header.as_str()) {
            None => HostAnswer::Unmatched(
                DiscoverEvent::HostUnmatched { host: addr.ip, server: header },
            ),
            Some(profile) => HostAnswer::Matched(
                DiscoverEvent::HostFound {
                    host: addr.ip,
                    vendor: profile.name.to_owned(),
                    model: None,
                },
                enumerate_channels(addr, profile),
            ),
        },
    }
}

/// The event that reports one more host finished, after `finished` others.
pub fn host_finished(finished: usize, total: usize) -> (event: DiscoverEvent)
    requires
        finished < total,
    ensures
        event == (DiscoverEvent::Progress { scanned: (finished + 1) as usize, total }),
{
    DiscoverEvent::Progress { scanned: finished + 1, total }
}

/// How far a scan has come: how many of its targets it has set out to visit, how many of those
/// visits have finished, how many may be under way at once, and whether it is over.
#[derive(Clone, Copy, Debug, PartialEq, Eq, Structural)]
pub struct ScanRun {
    /// Number of targets.
    pub total: usize,
    /// Number of visits that may be under way at once.
    pub permits: usize,
    /// Number of visits that have begun, to the first targets in turn.
    pub begun: usize,
    /// Number of visits that have finished.
    pub finished: usize,
    /// Whether the end has been reported.
    pub ended: bool,
}

impl ScanRun {
    /// No more visits finish than begin, no more begin than there are targets, no more are under
    /// way than there are permits, and at the end none is.
    pub open spec fn valid(self) -> bool {
        &&& self.permits >= 1
        &&& self.finished <= self.begun <= self.total
        &&& self.begun - self.finished <= self.permits
        &&& self.ended ==> self.finished == self.begun
    }
}

/// What a scan does next.
#[derive(Clone, Copy, Debug, PartialEq, Eq, Structural)]
pub enum ScanStep {
    /// Begin to visit the target at this place.
    Visit(usize),
    /// Wait for one of the visits under way to finish.
    Wait,
    /// Report [`DiscoverEvent::Done`].
    End,
    /// Nothing: the end has been reported.
    Over,
}

/// A scan that has visited nothing yet.
pub open spec fn scan_begun(total: usize, concurrency: usize) -> ScanRun {
    ScanRun {
        total,
        permits: if concurrency == 0 {
            1
        } else {
            concurrency
        },
        begun: 0,
        finished: 0,
        ended: false,
    }
}

/// Begin a scan that visits up to `concurrency` targets at a time, and at least one.
pub fn run_scan(total: usize, concurrency: usize) -> (run: ScanRun)
    ensures
        run == scan_begun(total, concurrency),
        run.valid(),
{
    ScanRun {
        total,
        permits: scan_permits(concurrency),
        begun: 0,
        finished: 0,
        ended: false,
    }
}

/// A scan after it has been asked what to do next, and what that is: to visit the targets in
/// turn unless it was cancelled, as long as a permit is left; then to wait for the visits under
/// way; then to report the end, once.
pub open spec fn after_asking(run: ScanRun, cancelled: bool) -> (ScanRun, ScanStep) {
    if run.ended {
        (run, ScanStep::Over)
    } else if !cancelled && run.begun < run.total && run.begun - run.finished < run.permits {
        (ScanRun { begun: (run.begun + 1) as usize, ..run }, ScanStep::Visit(run.begun))
    } else if run.finished < run.begun {
        (run, ScanStep::Wait)
    } else {
        (ScanRun { ended: true, ..run }, ScanStep::End)
    }
}

/// Decide what a scan does next.
pub fn next_target(run: &mut ScanRun, cancelled: bool) -> (step: ScanStep)
    requires
        old(run).valid(),
    ensures
        (*final(run), step) == after_asking(*old(run), cancelled),
        final(run).valid(),
{
    if run.ended {
        ScanStep::Over
    } else if !cancelled && run.begun < run.total && run.begun - run.finished < run.permits {
        let place: usize = run.begun;
        run.begun = place + 1;
        ScanStep::Visit(place)
    } else if run.finished < run.begun {
        ScanStep::Wait
    } else {
        run.ended = true;
        ScanStep::End
    }
}

/// Take in that a visit has finished, and report it.
pub fn target_finished(run: &mut ScanRun) -> (event: DiscoverEvent)
    requires
        old(run).valid(),
        old(run).finished < old(run).begun,
    ensures
        *final(run) == (ScanRun { finished: (old(run).finished + 1) as usize, ..*old(run) }),
        event == (DiscoverEvent::Progress {
            scanned: (old(run).finished + 1) as usize,
            total: old(run).total,
        }),
        final(run).valid(),
{
    let event = host_finished(run.finished, run.total);
    run.finished = run.finished + 1;
    event
}

/// How far the reader of a scan's events has come.
#[derive(Debug)]
pub struct Discovery {
    /// Whether [`DiscoverEvent::Done`] has been handed out.
    pub done_emitted: bool,
}

/// What waiting for an event gives, and whether the reader has seen the end of the scan
/// afterwards. Past the end, it is always [`DiscoverEvent::Done`].
pub open spec fn next_outcome(done_emitted: bool, received: Received<DiscoverEvent>) -> (
    Result<DiscoverEvent, ErrorView>,
    bool,
) {
    if done_emitted {
        (Ok(DiscoverEvent::Done), true)
    } else {
        match received {
            Received::TimedOut => (Err(ErrorView::Timeout), false),
            Received::Disconnected => (Ok(DiscoverEvent::Done), true),
            Received::Item(event) => (Ok(event), event is Done),
        }
    }
}

/// What looking for a waiting event gives, and whether the reader has seen the end of the
/// scan afterwards. Past the end, it is nothing.
pub open spec fn try_outcome(done_emitted: bool, received: Option<DiscoverEvent>) -> (
    Option<DiscoverEvent>,
    bool,
) {
    if done_emitted {
        (None, true)
    } else {
        match received {
            None => (None, false),
            Some(event) => (Some(event), event is Done),
        }
    }
}

/// Hand out what waiting for the next event has given.
///
/// [`Error::Timeout`] if nothing arrived in the window (the scan is still running; try
/// again). Once the scan has finished, this is `Ok(DiscoverEvent::Done)` indefinitely, and
/// there is no need to wait.
pub fn next_event(discovery: &mut Discovery, received: Received<DiscoverEvent>) -> (event: Result<
    DiscoverEvent,
    Error,
>)
    ensures
        final(discovery).done_emitted == next_outcome(old(discovery).done_emitted, received).1,
        match event {
            Ok(found) => next_outcome(old(discovery).done_emitted, received).0 == Ok::<
                DiscoverEvent,
                ErrorView,
            >(found),
            Err(error) => next_outcome(old(discovery).done_emitted, received).0 == Err::<
                DiscoverEvent,
                ErrorView,
            >(error@),
        },
{
    if discovery.done_emitted {
        return Ok(DiscoverEvent::Done);
    }
    match received {
        Received::TimedOut => Err(Error::Timeout),
        Received::Disconnected => {
            discovery.done_emitted = true;
            Ok(DiscoverEvent::Done)
        },
        Received::Item(event) => {
            if matches!(event, DiscoverEvent::Done) {
                discovery.done_emitted = true;
            }
            Ok(event)
        },
    }
}

/// Hand out what looking for a waiting event has given.
///
/// After the scan has finished and [`DiscoverEvent::Done`] has been drained,
/// subsequent calls return `None`.
pub fn try_next_event(discovery: &mut Discovery, received: Option<DiscoverEvent>) -> (event: Option<
    DiscoverEvent,
>)
    ensures
        (event, final(discovery).done_emitted) == try_outcome(
            old(discovery).done_emitted,
            received,
        ),
{
    if discovery.done_emitted {
        return None;
    }
    match received {
        Some(event) => {
            if matches!(event, DiscoverEvent::Done) {
                discovery.done_emitted = true;
            }
            Some(event)
        },
        None => None,
    }
}

} // verus!
