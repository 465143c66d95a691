//! Hotplug monitor that emits [`DeviceEvent`] as cameras appear and disappear.

use crate::channel;
use crate::channel::{look_for, wait_for, Received};
use crate::error::Error;
use crate::types::{Device, DeviceEvent, DeviceId};
use crossbeam_channel::Receiver;
use std::time::Duration;
use vstd::prelude::*;

verus! {

/// How often the platform is asked for its devices, in milliseconds.
pub const POLL_INTERVAL_MILLIS: u64 = 1000;

/// A running device monitor.
///
/// Whoever asks the platform for its devices sends the events; the handle stops it when the
/// monitor is dropped.
#[derive(Debug)]
pub struct DeviceMonitor<H> {
    /// Where the events arrive.
    pub event_rx: Receiver<DeviceEvent>,
    /// What keeps the polling going.
    pub handle: H,
}

/// What waiting for an event means to the caller: the event, [`Error::Timeout`] where
/// nothing came in time, and [`Error::StreamEnded`] where nothing will come any more.
pub open spec fn is_event_outcome(
    received: Received<DeviceEvent>,
    outcome: Result<DeviceEvent, Error>,
) -> bool {
    match received {
        Received::Item(event) => outcome == Ok::<DeviceEvent, Error>(event),
        Received::TimedOut => outcome == Err::<DeviceEvent, Error>(Error::Timeout),
        Received::Disconnected => outcome == Err::<DeviceEvent, Error>(Error::StreamEnded),
    }
}

/// Decide what waiting for an event means to the caller.
pub fn event_outcome(received: Received<DeviceEvent>) -> (outcome: Result<DeviceEvent, Error>)
    ensures
        is_event_outcome(received, outcome),
{
    match received {
        Received::Item(event) => Ok(event),
        Received::TimedOut => Err(Error::Timeout),
        Received::Disconnected => Err(Error::StreamEnded),
    }
}

/// Block for the next device event up to `timeout`.
///
/// Returns [`Error::Timeout`] if nothing happened in time (the monitor is still active,
/// try again), or [`Error::StreamEnded`] if the worker has exited.
pub fn next_event<H>(monitor: &DeviceMonitor<H>, timeout: Duration) -> (outcome: Result<
    DeviceEvent,
    Error,
>)
    ensures
        exists|received: Received<DeviceEvent>|
            {
                &&& #[trigger] channel::came_of_waiting(&monitor.event_rx, timeout, received)
                &&& is_event_outcome(received, outcome)
            },
{
    event_outcome(wait_for(&monitor.event_rx, timeout))
}

/// Return the next device event immediately if one is buffered, or `None` otherwise.
pub fn try_next_event<H>(monitor: &DeviceMonitor<H>) -> (event: Option<DeviceEvent>)
    ensures
        channel::came_of_looking(&monitor.event_rx, event),
{
    look_for(&monitor.event_rx)
}

/// Whether a device of that id is in a list.
pub open spec fn has_id(devices: Seq<Device>, id: Seq<char>) -> bool {
    exists|i: int| 0 <= i < devices.len() && (#[trigger] devices[i]).id@ == id
}

/// Whether no later device of a list has the same id as the one at `i`.
pub open spec fn is_last_of_id(devices: Seq<Device>, i: int) -> bool {
    forall|j: int| i < j < devices.len() ==> (#[trigger] devices[j]).id@ != devices[i].id@
}

/// The first `count` devices of a list without those that come again later: of several with
/// one id, the last stands for all.
pub open spec fn latest(devices: Seq<Device>, count: nat) -> Seq<Device>
    decreases count,
{
    if count == 0 {
        Seq::empty()
    } else {
        let before = latest(devices, (count - 1) as nat);
        if is_last_of_id(devices, count - 1) {
            before.push(devices[count - 1])
        } else {
            before
        }
    }
}

/// The first `count` devices that are new, as events.
pub open spec fn added(known: Seq<Device>, current: Seq<Device>, count: nat) -> Seq<DeviceEvent>
    decreases count,
{
    if count == 0 {
        Seq::empty()
    } else {
        let before = added(known, current, (count - 1) as nat);
        if has_id(known, current[count - 1].id@) {
            before
        } else {
            before.push(DeviceEvent::Added(current[count - 1]))
        }
    }
}

/// Those of the first `count` known devices that are gone, as events.
pub open spec fn removed(known: Seq<Device>, current: Seq<Device>, count: nat) -> Seq<DeviceEvent>
    decreases count,
{
    if count == 0 {
        Seq::empty()
    } else {
        let before = removed(known, current, (count - 1) as nat);
        if has_id(current, known[count - 1].id@) {
            before
        } else {
            before.push(DeviceEvent::Removed(known[count - 1].id))
        }
    }
}

/// Whether no two devices of a list have the same id.
pub open spec fn unique_ids(devices: Seq<Device>) -> bool {
    forall|i: int, j: int|
        0 <= i < j < devices.len() ==> (#[trigger] devices[i]).id@ != (#[trigger] devices[j]).id@
}

/// All events of one look at the platform's devices.
pub open spec fn changes(known: Seq<Device>, current: Seq<Device>) -> Seq<DeviceEvent> {
    let unique = latest(current, current.len());
    added(known, unique, unique.len()) + removed(known, unique, known.len())
}

/// Find a device by its id.
fn contains_id(devices: &Vec<Device>, id: &DeviceId) -> (found: bool)
    ensures
        found == has_id(devices@, id@),
{
    let mut i: usize = 0;
    while i < devices.len()
        invariant
            i <= devices.len(),
            forall|j: int| 0 <= j < i ==> (#[trigger] devices@[j]).id@ != id@,
        decreases devices.len() - i,
    {
        if devices[i].id.0 == id.0 {
            assert(devices@[i as int].id@ == id@);
            return true;
        }
        i = i + 1;
    }
    false
}

/// The devices of a list, each id once: of several with one id, the last.
pub fn known_devices(devices: &Vec<Device>) -> (unique: Vec<Device>)
    ensures
        unique@ == latest(devices@, devices@.len()),
{
    let mut unique: Vec<Device> = Vec::new();
    let mut i: usize = 0;
    while i < devices.len()
        invariant
            i <= devices.len(),
            unique@ == latest(devices@, i as nat),
        decreases devices.len() - i,
    {
        let mut last = true;
        let mut j: usize = i + 1;
        while j < devices.len() && last
            invariant
                i < j <= devices.len(),
                i < devices.len(),
                last ==> forall|k: int|
                    i < k < j ==> (#[trigger] devices@[k]).id@ != devices@[i as int].id@,
                !last ==> !is_last_of_id(devices@, i as int),
            decreases devices.len() - j,
        {
            if devices[j].id.0 == devices[i].id.0 {
                assert(devices@[j as int].id@ == devices@[i as int].id@);
                last = false;
            }
            j = j + 1;
        }
        if last {
            unique.push(devices[i].clone());
        }
        i = i + 1;
    }
    unique
}

/// The events for the devices that are there when a monitor starts: all of them.
pub fn initial_events(devices: &Vec<Device>) -> (events: Vec<DeviceEvent>)
    ensures
        events@ == devices@.map_values(|device: Device| DeviceEvent::Added(device)),
{
    let mut events: Vec<DeviceEvent> = Vec::new();
    let mut i: usize = 0;
    while i < devices.len()
        invariant
            i <= devices.len(),
            events@ == devices@.map_values(|device: Device| DeviceEvent::Added(device)).take(
                i as int,
            ),
        decreases devices.len() - i,
    {
        events.push(DeviceEvent::Added(devices[i].clone()));
        i = i + 1;
        assert(events@ =~= devices@.map_values(
            |device: Device| DeviceEvent::Added(device),
        ).take(i as int));
    }
    assert(events@ =~= devices@.map_values(|device: Device| DeviceEvent::Added(device)));
    events
}

/// How a monitor starts, given what the platform answered when it was asked for its devices:
/// with those devices known and reported, each in turn, or not at all where asking failed.
pub fn monitor_started(list: Result<Vec<Device>, Error>) -> (start: Result<
    (Vec<Device>, Vec<DeviceEvent>),
    Error,
>)
    ensures
        match list {
            Err(error) => start == Err::<(Vec<Device>, Vec<DeviceEvent>), Error>(error),
            Ok(devices) => start matches Ok((known, events)) && known@ == latest(
                devices@,
                devices@.len(),
            ) && events@ == devices@.map_values(|device: Device| DeviceEvent::Added(device)),
        },
{
    match list {
        Err(error) => Err(error),
        Ok(devices) => {
            let known = known_devices(&devices);
            Ok((known, initial_events(&devices)))
        },
    }
}

/// Compare what the platform sees now with what was known: report what appeared, then what
/// disappeared, and remember what is there now.
pub fn poll_changes(known: &mut Vec<Device>, current: &Vec<Device>) -> (events: Vec<DeviceEvent>)
    ensures
        events@ == changes(old(known)@, current@),
        final(known)@ == latest(current@, current@.len()),
{
    let unique = known_devices(current);
    let mut events: Vec<DeviceEvent> = Vec::new();
    let mut i: usize = 0;
    while i < unique.len()
        invariant
            i <= unique.len(),
            *known == *old(known),
            events@ == added(known@, unique@, i as nat),
        decreases unique.len() - i,
    {
        if !contains_id(known, &unique[i].id) {
            events.push(DeviceEvent::Added(unique[i].clone()));
        }
        i = i + 1;
    }
    let ghost first = events@;
    let mut j: usize = 0;
    assert(first + removed(known@, unique@, 0) =~= first);
    while j < known.len()
        invariant
            j <= known.len(),
            *known == *old(known),
            events@ == first + removed(known@, unique@, j as nat),
        decreases known.len() - j,
    {
        let ghost before = events@;
        if !contains_id(&unique, &known[j].id) {
            events.push(DeviceEvent::Removed(known[j].id.clone()));
        }
        j = j + 1;
        assert(events@ =~= first + removed(known@, unique@, j as nat));
    }
    *known = unique;
    events
}

/// Keeping the last device of each id leaves no id twice.
pub proof fn latest_ids_are_unique(devices: Seq<Device>, count: nat)
    requires
        count <= devices.len(),
    ensures
        unique_ids(latest(devices, count)),
        forall|i: int|
            0 <= i < latest(devices, count).len() ==> exists|k: int|
                0 <= k < count && is_last_of_id(devices, k) && devices[k] == #[trigger] latest(
                    devices,
                    count,
                )[i],
    decreases count,
{
    if count > 0 {
        let before = (count - 1) as nat;
        latest_ids_are_unique(devices, before);
        let shorter = latest(devices, before);
        let longer = latest(devices, count);
        if is_last_of_id(devices, count - 1) {
            assert forall|i: int| 0 <= i < longer.len() implies exists|k: int|
                0 <= k < count && is_last_of_id(devices, k) && devices[k] == #[trigger] longer[i] by {
                if i < shorter.len() {
                    assert(longer[i] == shorter[i]);
                    let k = choose|k: int|
                        0 <= k < before && is_last_of_id(devices, k) && devices[k] == shorter[i];
                    assert(0 <= k < count && is_last_of_id(devices, k) && devices[k] == longer[i]);
                } else {
                    assert(0 <= before < count && is_last_of_id(devices, before as int)
                        && devices[before as int] == longer[i]);
                }
            }
            assert forall|i: int, j: int| 0 <= i < j < longer.len() implies (#[trigger] longer[i]).id@
                != (#[trigger] longer[j]).id@ by {
                if j == shorter.len() {
                    assert(longer[i] == shorter[i]);
                    let k = choose|k: int|
                        0 <= k < before && is_last_of_id(devices, k) && devices[k] == shorter[i];
                    assert(devices[before as int].id@ != devices[k].id@);
                }
            }
        }
    }
}

} // verus!
