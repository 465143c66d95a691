//! What a user interface keeps of a discovery scan.

use crate::discover::{DiscoverEvent, DiscoveredCamera};
use crate::error::{Error, ErrorView};
use crate::net;
use crate::net::{ip_text, IpAddr};
use crate::source::CameraSource;
use crate::text;
use crate::text::{append, append_number};
use vstd::prelude::*;

verus! {

/// How often a user interface looks for new events, in milliseconds.
pub const POLL_INTERVAL_MILLIS: u64 = 50;

/// How long a worker waits for an event at a time, in milliseconds.
pub const WORKER_TICK_MILLIS: u64 = 100;

/// Live state of a running scan plus the accumulated results,
/// laid out so a caller can inspect each field without going through a
/// method.
#[derive(Debug)]
pub struct DiscoverySession {
    /// Cameras confirmed so far, in arrival order.
    pub cameras: Vec<DiscoveredCamera>,
    /// Hosts fully probed so far.
    pub scanned: usize,
    /// Hosts the scan intends to visit in total.
    pub total: usize,
    /// `true` once the scan has emitted [`DiscoverEvent::Done`].
    pub done: bool,
}

/// The state of a scan that has just been started.
pub fn start_discovery() -> (session: DiscoverySession)
    ensures
        session.cameras@ == Seq::<DiscoveredCamera>::empty(),
        session.scanned == 0,
        session.total == 0,
        !session.done,
{
    DiscoverySession { cameras: Vec::new(), scanned: 0, total: 0, done: false }
}

/// The cameras among the first `count` events.
pub open spec fn cameras_in(events: Seq<DiscoverEvent>, count: nat) -> Seq<DiscoveredCamera>
    decreases count,
{
    if count == 0 {
        Seq::empty()
    } else {
        match events[count - 1] {
            DiscoverEvent::CameraFound(camera) => cameras_in(events, (count - 1) as nat).push(
                camera,
            ),
            _ => cameras_in(events, (count - 1) as nat),
        }
    }
}

/// The latest progress among the first `count` events, or what it was before.
pub open spec fn progress_in(events: Seq<DiscoverEvent>, count: nat, before: (usize, usize)) -> (
    usize,
    usize,
)
    decreases count,
{
    if count == 0 {
        before
    } else {
        match events[count - 1] {
            DiscoverEvent::Progress { scanned, total } => (scanned, total),
            _ => progress_in(events, (count - 1) as nat, before),
        }
    }
}

/// The place of the first [`DiscoverEvent::Done`] from `from` on, or the number of events.
pub open spec fn first_done(events: Seq<DiscoverEvent>, from: int) -> int
    decreases events.len() - from,
{
    if from >= events.len() {
        events.len() as int
    } else if events[from] is Done {
        from
    } else {
        first_done(events, from + 1)
    }
}

/// Drain every buffered event into the session.
///
/// Cameras are appended, progress is replaced, and the end of the scan ends the draining.
pub fn poll_discovery(session: &mut DiscoverySession, events: Vec<DiscoverEvent>)
    ensures
        ({
            let end = first_done(events@, 0);
            &&& final(session).cameras@ == old(session).cameras@ + cameras_in(events@, end as nat)
            &&& (final(session).scanned, final(session).total) == progress_in(
                events@,
                end as nat,
                (old(session).scanned, old(session).total),
            )
            &&& final(session).done == (old(session).done || end < events@.len())
        }),
{
    let ghost before = (session.scanned, session.total);
    let mut i: usize = 0;
    assert(session.cameras@ =~= session.cameras@ + cameras_in(events@, 0));
    while i < events.len()
        invariant
            i <= events.len(),
            before == (old(session).scanned, old(session).total),
            first_done(events@, 0) == first_done(events@, i as int),
            session.cameras@ == old(session).cameras@ + cameras_in(events@, i as nat),
            (session.scanned, session.total) == progress_in(events@, i as nat, before),
            session.done == old(session).done,
        decreases events.len() - i,
    {
        match &events[i] {
            DiscoverEvent::CameraFound(camera) => {
                session.cameras.push(camera.clone());
            },
            DiscoverEvent::Progress { scanned, total } => {
                session.scanned = *scanned;
                session.total = *total;
            },
            DiscoverEvent::Done => {
                session.done = true;
                return;
            },
            _ => {},
        }
        i = i + 1;
        assert(session.cameras@ =~= old(session).cameras@ + cameras_in(events@, i as nat));
    }
}

/// What to tell the user about a scan: how far it has come, once that is known.
pub fn scan_status(session: &DiscoverySession) -> (status: String)
    ensures
        status@ == (if session.total > 0 {
            "scanned "@ + text::decimal(
                (if session.scanned < session.total {
                    session.scanned
                } else {
                    session.total
                }) as nat,
            ) + "/"@ + text::decimal(session.total as nat)
        } else if session.done {
            "scan finished"@
        } else {
            "scanning..."@
        }),
{
    if session.total > 0 {
        let shown: usize = if session.scanned < session.total {
            session.scanned
        } else {
            session.total
        };
        let count = append_number("scanned ".to_owned(), shown as u64);
        append_number(append(count, "/"), session.total as u64)
    } else if session.done {
        "scan finished".to_owned()
    } else {
        "scanning...".to_owned()
    }
}

/// A discovered camera in a line: host, vendor, channel and URL.
pub open spec fn row_written(camera: DiscoveredCamera) -> Seq<char> {
    let vendor = match camera.vendor {
        Some(name) => name@,
        None => "?"@,
    };
    let channel = match camera.channel {
        Some(number) => text::decimal(number as nat),
        None => "?"@,
    };
    let url = match camera.source {
        CameraSource::Rtsp { url, .. } => url@,
        CameraSource::Usb(_) => "(non-rtsp)"@,
    };
    net::ip_written(camera.host) + " ["@ + vendor + "] ch"@ + channel + "  ·  "@ + url
}

/// A discovered camera in a line: host, vendor, channel and URL.
pub fn format_camera_row(camera: &DiscoveredCamera) -> (row: String)
    ensures
        row@ == row_written(*camera),
{
    let host = append(ip_text(camera.host), " [");
    let vendor = match &camera.vendor {
        Some(name) => append(host, name.as_str()),
        None => append(host, "?"),
    };
    let prefix = append(vendor, "] ch");
    let channel = match camera.channel {
        Some(number) => append_number(prefix, number as u64),
        None => append(prefix, "?"),
    };
    let gap = append(channel, "  ·  ");
    match &camera.source {
        CameraSource::Rtsp { url, .. } => append(gap, url.as_str()),
        CameraSource::Usb(_) => append(gap, "(non-rtsp)"),
    }
}

/// A scan that can be restarted, cancelled and cleared at any time.
///
/// Each start, cancellation and clearing begins a new generation. What a worker of an
/// earlier generation still reports is not taken in (see [`take_reported`]).
#[derive(Debug)]
pub struct UseDiscovery {
    /// Cameras discovered so far, appended in arrival order.
    pub cameras: Vec<DiscoveredCamera>,
    /// Hosts that answered RTSP but did not match a known vendor profile,
    /// each paired with the raw `Server:` header string.
    pub unmatched_hosts: Vec<(IpAddr, String)>,
    /// Hosts that have completed probing.
    pub scanned: usize,
    /// Total hosts being probed in the current scan.
    pub total: usize,
    /// `true` while a scan is in flight.
    pub running: bool,
    /// Last error encountered while trying to launch a scan.
    pub error: Option<Error>,
    /// Number of the current generation.
    pub scan_id: u64,
}

/// No results.
pub open spec fn is_cleared(state: UseDiscovery) -> bool {
    &&& state.cameras@ == Seq::<DiscoveredCamera>::empty()
    &&& state.unmatched_hosts@ == Seq::<(IpAddr, String)>::empty()
    &&& state.scanned == 0
    &&& state.total == 0
    &&& state.error is None
}

/// The same results.
pub open spec fn same_results(left: UseDiscovery, right: UseDiscovery) -> bool {
    &&& left.cameras == right.cameras
    &&& left.unmatched_hosts == right.unmatched_hosts
    &&& left.scanned == right.scanned
    &&& left.total == right.total
}

/// The next generation.
pub open spec fn next_id(id: u64) -> u64 {
    if id == u64::MAX {
        0
    } else {
        (id + 1) as u64
    }
}

/// The state before any scan.
pub fn use_discovery() -> (state: UseDiscovery)
    ensures
        is_cleared(state),
        !state.running,
        state.scan_id == 0,
{
    UseDiscovery {
        cameras: Vec::new(),
        unmatched_hosts: Vec::new(),
        scanned: 0,
        total: 0,
        running: false,
        error: None,
        scan_id: 0,
    }
}

fn forget_results(state: &mut UseDiscovery)
    ensures
        is_cleared(*final(state)),
        final(state).running == old(state).running,
        final(state).scan_id == old(state).scan_id,
{
    state.cameras = Vec::new();
    state.unmatched_hosts = Vec::new();
    state.scanned = 0;
    state.total = 0;
    state.error = None;
}

fn begin_generation(state: &mut UseDiscovery)
    ensures
        *final(state) == (UseDiscovery { scan_id: next_id(old(state).scan_id), ..*old(state) }),
{
    state.scan_id = if state.scan_id == u64::MAX {
        0
    } else {
        state.scan_id + 1
    };
}

/// Begin a fresh scan: a new generation, whose number is returned, without results. A scan
/// that is running is to be cancelled.
pub fn begin_scan(state: &mut UseDiscovery) -> (id: u64)
    ensures
        id == next_id(old(state).scan_id),
        final(state).scan_id == id,
        is_cleared(*final(state)),
        final(state).running == old(state).running,
{
    begin_generation(state);
    forget_results(state);
    state.scan_id
}

/// Take in whether the scan could be launched.
pub fn scan_launched(state: &mut UseDiscovery, launched: Result<(), Error>)
    ensures
        same_results(*final(state), *old(state)),
        final(state).scan_id == old(state).scan_id,
        match launched {
            Ok(_) => final(state).running && final(state).error == old(state).error,
            Err(error) => !final(state).running && final(state).error == Some(error),
        },
{
    match launched {
        Ok(_) => {
            state.running = true;
        },
        Err(error) => {
            state.error = Some(error);
            state.running = false;
        },
    }
}

/// The failure to start a worker, described.
pub fn spawn_error(description: &str) -> (error: Error)
    ensures
        error@ == (ErrorView::Backend {
            platform: "discover"@,
            message: "worker thread spawn: "@ + description@,
        }),
{
    Error::Backend {
        platform: "discover",
        message: append("worker thread spawn: ".to_owned(), description),
    }
}

/// Cancel the scan in flight, if any. The results so far stay.
pub fn cancel_scan(state: &mut UseDiscovery)
    ensures
        *final(state) == (UseDiscovery {
            scan_id: next_id(old(state).scan_id),
            running: false,
            ..*old(state)
        }),
{
    begin_generation(state);
    state.running = false;
}

/// Reset all results and cancel any scan in flight.
pub fn clear_scan(state: &mut UseDiscovery)
    ensures
        is_cleared(*final(state)),
        !final(state).running,
        final(state).scan_id == next_id(old(state).scan_id),
{
    begin_generation(state);
    forget_results(state);
    state.running = false;
}

/// Whether `after` is `before` with an event of the current scan taken in.
pub open spec fn taken_in(before: UseDiscovery, event: DiscoverEvent, after: UseDiscovery) -> bool {
    &&& after.scan_id == before.scan_id
    &&& after.error == before.error
    &&& match event {
        DiscoverEvent::CameraFound(camera) => {
            &&& after.cameras@ == before.cameras@.push(camera)
            &&& after.unmatched_hosts == before.unmatched_hosts
            &&& after.scanned == before.scanned
            &&& after.total == before.total
            &&& after.running == before.running
        },
        DiscoverEvent::HostUnmatched { host, server } => {
            &&& after.cameras == before.cameras
            &&& after.unmatched_hosts@ == before.unmatched_hosts@.push((host, server))
            &&& after.scanned == before.scanned
            &&& after.total == before.total
            &&& after.running == before.running
        },
        DiscoverEvent::Progress { scanned, total } => {
            &&& after.cameras == before.cameras
            &&& after.unmatched_hosts == before.unmatched_hosts
            &&& after.scanned == scanned
            &&& after.total == total
            &&& after.running == before.running
        },
        DiscoverEvent::Done => same_results(after, before) && !after.running,
        DiscoverEvent::HostFound { .. } => same_results(after, before) && after.running
            == before.running,
    }
}

/// Take in an event of the current scan. Whose scan an event belongs to is for
/// [`take_reported`] to tell.
pub fn take_event(state: &mut UseDiscovery, event: DiscoverEvent)
    ensures
        taken_in(*old(state), event, *final(state)),
{
    match event {
        DiscoverEvent::CameraFound(camera) => {
            state.cameras.push(camera);
        },
        DiscoverEvent::HostUnmatched { host, server } => {
            state.unmatched_hosts.push((host, server));
        },
        DiscoverEvent::Progress { scanned, total } => {
            state.scanned = scanned;
            state.total = total;
        },
        DiscoverEvent::Done => {
            state.running = false;
        },
        DiscoverEvent::HostFound { .. } => {},
    }
}

/// Take in an event that a worker of generation `id` reported, unless that generation is over.
pub fn take_reported(state: &mut UseDiscovery, id: u64, event: DiscoverEvent)
    ensures
        id != old(state).scan_id ==> *final(state) == *old(state),
        id == old(state).scan_id ==> taken_in(*old(state), event, *final(state)),
{
    if id == state.scan_id {
        take_event(state, event);
    }
}

/// What a scan's worker does with what it has received.
#[derive(Debug)]
pub enum WorkerStep {
    /// Forward an event, and go on.
    Forward(DiscoverEvent),
    /// Forward the end of the scan, let go of the scan, and end.
    Finish,
    /// Forward the end of the scan, and end.
    Abandon,
    /// Go on.
    Continue,
    /// End.
    Stop,
}

/// Whether a worker of generation `id` goes on: it is of the current generation and its scan
/// is still there.
pub fn worker_goes_on(current: u64, id: u64, scan_present: bool) -> (goes_on: bool)
    ensures
        goes_on == (current == id && scan_present),
{
    current == id && scan_present
}

/// What a worker of generation `id` does with what it has received. Nothing is forwarded
/// unless the generation is still the current one.
pub fn run_discovery(current: u64, id: u64, received: Result<DiscoverEvent, Error>) -> (step:
    WorkerStep)
    ensures
        match received {
            Ok(DiscoverEvent::Done) => if current == id {
                step is Finish
            } else {
                step is Stop
            },
            Ok(event) => if current == id {
                step == WorkerStep::Forward(event)
            } else {
                step is Continue
            },
            Err(Error::Timeout) => step is Continue,
            Err(_) => if current == id {
                step is Abandon
            } else {
                step is Stop
            },
        },
        current != id ==> step is Continue || step is Stop,
{
    match received {
        Ok(DiscoverEvent::Done) => if current == id {
            WorkerStep::Finish
        } else {
            WorkerStep::Stop
        },
        Ok(event) => if current == id {
            WorkerStep::Forward(event)
        } else {
            WorkerStep::Continue
        },
        Err(Error::Timeout) => WorkerStep::Continue,
        Err(_) => if current == id {
            WorkerStep::Abandon
        } else {
            WorkerStep::Stop
        },
    }
}

} // verus!
