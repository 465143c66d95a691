//! What holds of the device monitor.

use crate::error::Error;
use crate::monitor;
use crate::types::{Device, DeviceEvent, DeviceId};
use vstd::prelude::*;

verus! {

/// The devices that are kept are those of the list: every id that occurs in it is kept.
proof fn every_id_is_kept(devices: Seq<Device>, place: int)
    requires
        0 <= place < devices.len(),
    ensures
        monitor::has_id(monitor::latest(devices, devices.len()), devices[place].id@),
    decreases devices.len() - place,
{
    if monitor::is_last_of_id(devices, place) {
        kept_if_last(devices, devices.len(), place);
    } else {
        let later = choose|j: int|
            place < j < devices.len() && (#[trigger] devices[j]).id@ == devices[place].id@;
        every_id_is_kept(devices, later);
    }
}

proof fn kept_if_last(devices: Seq<Device>, count: nat, place: int)
    requires
        0 <= place < count <= devices.len(),
        monitor::is_last_of_id(devices, place),
    ensures
        monitor::has_id(monitor::latest(devices, count), devices[place].id@),
    decreases count,
{
    let kept = monitor::latest(devices, count);
    if place == count - 1 {
        assert(kept[kept.len() - 1] == devices[place]);
    } else {
        let before = monitor::latest(devices, (count - 1) as nat);
        kept_if_last(devices, (count - 1) as nat, place);
        let i = choose|i: int|
            0 <= i < before.len() && (#[trigger] before[i]).id@ == devices[place].id@;
        assert(kept[i] == before[i]);
    }
}

/// A look at the platform remembers every device that it saw, each id once.
pub proof fn known_devices_are_what_was_seen(current: Seq<Device>, id: Seq<char>)
    ensures
        monitor::unique_ids(monitor::latest(current, current.len())),
        monitor::has_id(monitor::latest(current, current.len()), id) <==> monitor::has_id(
            current,
            id,
        ),
{
    let kept = monitor::latest(current, current.len());
    monitor::latest_ids_are_unique(current, current.len());
    if monitor::has_id(current, id) {
        let place = choose|i: int| 0 <= i < current.len() && (#[trigger] current[i]).id@ == id;
        every_id_is_kept(current, place);
    }
    if monitor::has_id(kept, id) {
        let i = choose|i: int| 0 <= i < kept.len() && (#[trigger] kept[i]).id@ == id;
        let k = choose|k: int|
            0 <= k < current.len() && monitor::is_last_of_id(current, k) && current[k] == kept[i];
        assert(current[k].id@ == id);
    }
}

proof fn added_is_exact(known: Seq<Device>, current: Seq<Device>, count: nat, event: DeviceEvent)
    requires
        count <= current.len(),
    ensures
        monitor::added(known, current, count).contains(event) <==> exists|i: int|
            0 <= i < count && event == DeviceEvent::Added(#[trigger] current[i])
                && !monitor::has_id(known, current[i].id@),
    decreases count,
{
    let all = monitor::added(known, current, count);
    if count > 0 {
        let before = (count - 1) as nat;
        let shorter = monitor::added(known, current, before);
        added_is_exact(known, current, before, event);
        if all.contains(event) {
            let place = choose|i: int| 0 <= i < all.len() && all[i] == event;
            if place < shorter.len() {
                assert(shorter[place] == event);
            } else {
                assert(event == DeviceEvent::Added(current[before as int]));
            }
        }
        if shorter.contains(event) {
            let place = choose|i: int| 0 <= i < shorter.len() && shorter[i] == event;
            assert(all[place] == event);
        }
        if event == DeviceEvent::Added(current[before as int]) && !monitor::has_id(
            known,
            current[before as int].id@,
        ) {
            assert(all[all.len() - 1] == event);
        }
    }
}

proof fn removed_is_exact(known: Seq<Device>, current: Seq<Device>, count: nat, event: DeviceEvent)
    requires
        count <= known.len(),
    ensures
        monitor::removed(known, current, count).contains(event) <==> exists|i: int|
            0 <= i < count && event == DeviceEvent::Removed((#[trigger] known[i]).id)
                && !monitor::has_id(current, known[i].id@),
    decreases count,
{
    let all = monitor::removed(known, current, count);
    if count > 0 {
        let before = (count - 1) as nat;
        let shorter = monitor::removed(known, current, before);
        removed_is_exact(known, current, before, event);
        if all.contains(event) {
            let place = choose|i: int| 0 <= i < all.len() && all[i] == event;
            if place < shorter.len() {
                assert(shorter[place] == event);
            } else {
                assert(event == DeviceEvent::Removed(known[before as int].id));
            }
        }
        if shorter.contains(event) {
            let place = choose|i: int| 0 <= i < shorter.len() && shorter[i] == event;
            assert(all[place] == event);
        }
        if event == DeviceEvent::Removed(known[before as int].id) && !monitor::has_id(
            current,
            known[before as int].id@,
        ) {
            assert(all[all.len() - 1] == event);
        }
    }
}

/// A device is reported as added exactly when it is there and its id was not known, and as
/// removed exactly when it was known and its id is not there any more.
pub proof fn changes_are_exact(known: Seq<Device>, current: Seq<Device>, event: DeviceEvent)
    ensures
        ({
            let there = monitor::latest(current, current.len());
            monitor::changes(known, current).contains(event) <==> {
                ||| exists|i: int|
                    0 <= i < there.len() && event == DeviceEvent::Added(#[trigger] there[i])
                        && !monitor::has_id(known, there[i].id@)
                ||| exists|i: int|
                    0 <= i < known.len() && event == DeviceEvent::Removed((#[trigger] known[i]).id)
                        && !monitor::has_id(there, known[i].id@)
            }
        }),
{
    let there = monitor::latest(current, current.len());
    let first = monitor::added(known, there, there.len());
    let second = monitor::removed(known, there, known.len());
    let all = monitor::changes(known, current);
    added_is_exact(known, there, there.len(), event);
    removed_is_exact(known, there, known.len(), event);
    if all.contains(event) {
        let place = choose|i: int| 0 <= i < all.len() && all[i] == event;
        if place < first.len() {
            assert(first[place] == event);
        } else {
            assert(second[place - first.len()] == event);
        }
    }
    if first.contains(event) {
        let place = choose|i: int| 0 <= i < first.len() && first[i] == event;
        assert(all[place] == event);
    }
    if second.contains(event) {
        let place = choose|i: int| 0 <= i < second.len() && second[i] == event;
        assert(all[first.len() + place] == event);
    }
}

/// Looking again when nothing has changed reports nothing.
pub proof fn no_change_no_event(current: Seq<Device>)
    ensures
        monitor::changes(monitor::latest(current, current.len()), current).len() == 0,
{
    let there = monitor::latest(current, current.len());
    let all = monitor::changes(there, current);
    if all.len() > 0 {
        let event = all[0];
        assert(all.contains(event));
        changes_are_exact(there, current, event);
        assert(false);
    }
}

/// Those new of the first `count` devices are reported in their order, each once.
proof fn added_in_order(known: Seq<Device>, current: Seq<Device>, count: nat)
    requires
        count <= current.len(),
    ensures
        forall|i: int|
            0 <= i < monitor::added(known, current, count).len() ==> exists|k: int|
                0 <= k < count && #[trigger] monitor::added(known, current, count)[i]
                    == DeviceEvent::Added(current[k]),
        monitor::unique_ids(current) ==> forall|i: int, j: int|
            0 <= i < j < monitor::added(known, current, count).len()
                ==> #[trigger] monitor::added(known, current, count)[i]
                != #[trigger] monitor::added(known, current, count)[j],
    decreases count,
{
    if count > 0 {
        let before = (count - 1) as nat;
        let shorter = monitor::added(known, current, before);
        let all = monitor::added(known, current, count);
        added_in_order(known, current, before);
        assert forall|i: int| 0 <= i < all.len() implies exists|k: int|
            0 <= k < count && #[trigger] all[i] == DeviceEvent::Added(current[k]) by {
            if i < shorter.len() {
                assert(all[i] == shorter[i]);
                let k = choose|k: int| 0 <= k < before && shorter[i] == DeviceEvent::Added(current[k]);
                assert(0 <= k < count && all[i] == DeviceEvent::Added(current[k]));
            } else {
                assert(all[i] == DeviceEvent::Added(current[before as int]));
            }
        }
        if monitor::unique_ids(current) {
            assert forall|i: int, j: int| 0 <= i < j < all.len() implies #[trigger] all[i]
                != #[trigger] all[j] by {
                assert(all[i] == shorter[i]);
                if j < shorter.len() {
                    assert(all[j] == shorter[j]);
                } else {
                    let k = choose|k: int|
                        0 <= k < before && shorter[i] == DeviceEvent::Added(current[k]);
                    assert(current[k].id@ != current[before as int].id@);
                }
            }
        }
    }
}

proof fn removed_in_order(known: Seq<Device>, current: Seq<Device>, count: nat)
    requires
        count <= known.len(),
    ensures
        forall|i: int|
            0 <= i < monitor::removed(known, current, count).len() ==> exists|k: int|
                0 <= k < count && #[trigger] monitor::removed(known, current, count)[i]
                    == DeviceEvent::Removed(known[k].id),
        monitor::unique_ids(known) ==> forall|i: int, j: int|
            0 <= i < j < monitor::removed(known, current, count).len()
                ==> #[trigger] monitor::removed(known, current, count)[i]
                != #[trigger] monitor::removed(known, current, count)[j],
    decreases count,
{
    if count > 0 {
        let before = (count - 1) as nat;
        let shorter = monitor::removed(known, current, before);
        let all = monitor::removed(known, current, count);
        removed_in_order(known, current, before);
        assert forall|i: int| 0 <= i < all.len() implies exists|k: int|
            0 <= k < count && #[trigger] all[i] == DeviceEvent::Removed(known[k].id) by {
            if i < shorter.len() {
                assert(all[i] == shorter[i]);
                let k = choose|k: int|
                    0 <= k < before && shorter[i] == DeviceEvent::Removed(known[k].id);
                assert(0 <= k < count && all[i] == DeviceEvent::Removed(known[k].id));
            } else {
                assert(all[i] == DeviceEvent::Removed(known[before as int].id));
            }
        }
        if monitor::unique_ids(known) {
            assert forall|i: int, j: int| 0 <= i < j < all.len() implies #[trigger] all[i]
                != #[trigger] all[j] by {
                assert(all[i] == shorter[i]);
                if j < shorter.len() {
                    assert(all[j] == shorter[j]);
                } else {
                    let k = choose|k: int|
                        0 <= k < before && shorter[i] == DeviceEvent::Removed(known[k].id);
                    assert(known[k].id@ != known[before as int].id@);
                }
            }
        }
    }
}

/// Whether an id stands among the ids of a list of devices.
pub open spec fn listed(devices: Seq<Device>, id: Seq<char>) -> bool {
    exists|i: int| 0 <= i < devices.len() && (#[trigger] devices[i]).id.0@ == id
}

/// What a look at the platform reports, told by ids: each id that is there now and was not
/// known is reported as added, with a device that is there, each that was known and is gone is
/// reported as removed, and nothing else is. What appeared comes before what disappeared, and
/// nothing is reported twice. Of several devices with one id the last is reported.
pub proof fn changes_are_told_by_ids(
    known: Seq<Device>,
    current: Seq<Device>,
    place: int,
    other: int,
    id: DeviceId,
)
    requires
        forall|i: int, j: int|
            0 <= i < j < known.len() ==> (#[trigger] known[i]).id.0@ != (#[trigger] known[j]).id.0@,
    ensures
        ({
            let events = monitor::changes(known, current);
            &&& 0 <= place < events.len() ==> match events[place] {
                DeviceEvent::Added(device) => !listed(known, device.id.0@) && exists|k: int|
                    {
                        &&& 0 <= k < current.len()
                        &&& #[trigger] current[k] == device
                        &&& forall|j: int|
                            k < j < current.len() ==> (#[trigger] current[j]).id.0@
                                != device.id.0@
                    },
                DeviceEvent::Removed(gone) => listed(known, gone.0@) && !listed(current, gone.0@),
            }
            &&& 0 <= place < other < events.len() ==> events[place] != events[other] && (
            events[place] is Removed ==> events[other] is Removed)
            &&& listed(current, id.0@) && !listed(known, id.0@) ==> exists|i: int|
                0 <= i < events.len() && (#[trigger] events[i] matches DeviceEvent::Added(device)
                    && device.id.0@ == id.0@)
            &&& listed(known, id.0@) && !listed(current, id.0@) ==> exists|i: int|
                0 <= i < events.len() && (#[trigger] events[i] matches DeviceEvent::Removed(gone)
                    && gone.0@ == id.0@)
        }),
{
    let there = monitor::latest(current, current.len());
    let first = monitor::added(known, there, there.len());
    let second = monitor::removed(known, there, known.len());
    let events = monitor::changes(known, current);
    monitor::latest_ids_are_unique(current, current.len());
    added_in_order(known, there, there.len());
    removed_in_order(known, there, known.len());
    assert(forall|seen: Seq<char>| #[trigger] listed(known, seen) == monitor::has_id(known, seen)) by {
        assert forall|seen: Seq<char>| #[trigger] listed(known, seen) == monitor::has_id(
            known,
            seen,
        ) by {
            same_ids(known, seen);
        }
    }
    assert forall|seen: Seq<char>| #[trigger] listed(current, seen) == monitor::has_id(
        there,
        seen,
    ) by {
        same_ids(current, seen);
        known_devices_are_what_was_seen(current, seen);
    }
    if 0 <= place < events.len() {
        let event = events[place];
        assert(events.contains(event));
        if place < first.len() {
            assert(event == first[place]);
            assert(first.contains(event));
            added_is_exact(known, there, there.len(), event);
            let i = choose|i: int|
                0 <= i < there.len() && event == DeviceEvent::Added(#[trigger] there[i])
                    && !monitor::has_id(known, there[i].id@);
            let k = choose|k: int|
                0 <= k < current.len() && monitor::is_last_of_id(current, k) && current[k]
                    == there[i];
            assert forall|j: int| k < j < current.len() implies (#[trigger] current[j]).id.0@
                != there[i].id.0@ by {
                assert(current[j].id@ != current[k].id@);
            }
            assert(current[k] == there[i]);
            assert(!listed(known, there[i].id.0@));
        } else {
            assert(event == second[place - first.len()]);
            assert(second.contains(event));
            removed_is_exact(known, there, known.len(), event);
            let i = choose|i: int|
                0 <= i < known.len() && event == DeviceEvent::Removed((#[trigger] known[i]).id)
                    && !monitor::has_id(there, known[i].id@);
            assert(listed(known, known[i].id.0@));
            assert(!listed(current, known[i].id.0@));
        }
        if place < other < events.len() {
            if other < first.len() {
                assert(first[place] != first[other]);
            } else if place >= first.len() {
                assert(second[place - first.len()] != second[other - first.len()]);
            } else {
                assert(first[place] is Added);
                assert(second[other - first.len()] is Removed);
            }
            if place >= first.len() {
                assert(second[other - first.len()] is Removed);
            }
        }
    }
    if listed(current, id.0@) && !listed(known, id.0@) {
        assert(monitor::has_id(there, id.0@));
        let i = choose|i: int| 0 <= i < there.len() && (#[trigger] there[i]).id@ == id.0@;
        let event = DeviceEvent::Added(there[i]);
        added_is_exact(known, there, there.len(), event);
        assert(first.contains(event));
        let at = choose|at: int| 0 <= at < first.len() && first[at] == event;
        assert(events[at] == event);
    }
    if listed(known, id.0@) && !listed(current, id.0@) {
        let i = choose|i: int| 0 <= i < known.len() && (#[trigger] known[i]).id.0@ == id.0@;
        let event = DeviceEvent::Removed(known[i].id);
        removed_is_exact(known, there, known.len(), event);
        assert(second.contains(event));
        let at = choose|at: int| 0 <= at < second.len() && second[at] == event;
        assert(events[first.len() + at] == event);
    }
}

proof fn same_ids(devices: Seq<Device>, id: Seq<char>)
    ensures
        listed(devices, id) == monitor::has_id(devices, id),
{
    if listed(devices, id) {
        let i = choose|i: int| 0 <= i < devices.len() && (#[trigger] devices[i]).id.0@ == id;
        assert(devices[i].id@ == id);
    }
    if monitor::has_id(devices, id) {
        let i = choose|i: int| 0 <= i < devices.len() && (#[trigger] devices[i]).id@ == id;
        assert(devices[i].id.0@ == id);
    }
}

/// A monitor starts by reporting every device that is there, in order.
pub proof fn monitors_start_with_every_device(
    list: Vec<Device>,
    start: Result<(Vec<Device>, Vec<DeviceEvent>), Error>,
    place: int,
)
    requires
        call_ensures(monitor::monitor_started, (Ok(list),), start),
        0 <= place < list@.len(),
    ensures
        start matches Ok((known, events)) && events@.len() == list@.len() && events@[place]
            == DeviceEvent::Added(list@[place]) && listed(known@, list@[place].id.0@),
{
    let known = start->Ok_0.0;
    same_ids(known@, list@[place].id.0@);
    same_ids(list@, list@[place].id.0@);
    assert(listed(list@, list@[place].id.0@));
    known_devices_are_what_was_seen(list@, list@[place].id.0@);
}

} // verus!
