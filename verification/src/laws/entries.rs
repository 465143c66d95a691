//! What a user enters, what a scan reports, and what is kept of both.

use crate::discover;
use crate::discover::{DiscoverEvent, DiscoveredCamera, HostAnswer};
use crate::laws::heads;
use crate::net::{SocketAddr, Subnet};
use crate::session;
use crate::source::CameraSource;
use crate::text;
use crate::types::{Credentials, Device, Rect};
use crate::viewer;
use crate::viewer::SourceMode;
use vstd::prelude::*;

verus! {

proof fn piece_ends(line: Seq<char>, from: int, end: int)
    requires
        0 <= from <= end <= line.len(),
        forall|i: int| from <= i < end ==> (#[trigger] line[i]) != ',',
        end == line.len() || line[end] == ',',
    ensures
        viewer::comma(line, from) == end,
    decreases end - from,
{
    if from < end {
        piece_ends(line, from + 1, end);
    }
}

/// Cutting up the rest of a line does not depend on what stands before it.
proof fn pieces_of_the_rest(before: Seq<char>, rest: Seq<char>, from: int)
    requires
        0 <= from <= rest.len(),
    ensures
        viewer::tokens(before + rest, before.len() + from) == viewer::tokens(rest, from),
    decreases rest.len() - from,
{
    let line = before + rest;
    viewer::comma_bounds(rest, from);
    let end = viewer::comma(rest, from);
    comma_is_first(rest, from);
    assert forall|i: int| before.len() + from <= i < before.len() + end implies (#[trigger] line[i])
        != ',' by {
        assert(line[i] == rest[i - before.len()]);
    }
    piece_ends(line, before.len() + from, before.len() + end);
    assert(line.subrange(before.len() + from, before.len() + end) =~= rest.subrange(from, end));
    if end < rest.len() {
        pieces_of_the_rest(before, rest, end + 1);
    }
}

proof fn comma_is_first(line: Seq<char>, from: int)
    requires
        0 <= from <= line.len(),
    ensures
        forall|i: int| from <= i < viewer::comma(line, from) ==> (#[trigger] line[i]) != ',',
        viewer::comma(line, from) < line.len() ==> line[viewer::comma(line, from)] == ',',
    decreases line.len() - from,
{
    if from < line.len() && line[from] != ',' {
        comma_is_first(line, from + 1);
    }
}

/// What a user enters is cut at its commas: a piece, with or without white space around it,
/// and a comma before the rest of a line are that piece before what the rest is cut into. A
/// piece of white space alone is left out.
pub proof fn entries_are_cut_at_commas(
    before: Seq<char>,
    piece: Seq<char>,
    after: Seq<char>,
    rest: Seq<char>,
)
    requires
        heads::blank(before),
        heads::blank(after),
        heads::bare(piece),
        heads::without(piece, ','),
    ensures
        ({
            let first = if piece.len() == 0 {
                Seq::empty()
            } else {
                seq![piece]
            };
            &&& viewer::tokens(before + piece + after, 0) == first
            &&& viewer::tokens(before + piece + after + seq![','] + rest, 0) == first
                + viewer::tokens(rest, 0)
        }),
{
    let front = before + piece + after;
    let end = front.len() as int;
    assert forall|i: int| 0 <= i < end implies (#[trigger] front[i]) != ',' by {
        if i < before.len() {
            assert(front[i] == before[i]);
        } else if i < before.len() + piece.len() {
            assert(front[i] == piece[i - before.len()]);
        } else {
            assert(front[i] == after[i - before.len() - piece.len()]);
        }
    }
    heads::blanks_are_trimmed_off(before, piece, after);
    piece_ends(front, 0, end);
    assert(front.subrange(0, end) =~= front);
    let line = front + seq![','] + rest;
    assert forall|i: int| 0 <= i < end implies (#[trigger] line[i]) != ',' by {
        assert(line[i] == front[i]);
    }
    assert(line[end] == ',');
    piece_ends(line, 0, end);
    assert(line.subrange(0, end) =~= front);
    viewer::comma_bounds(line, 0);
    assert(line =~= (front + seq![',']) + rest);
    pieces_of_the_rest(front + seq![','], rest, 0);
}

/// What a user wants scanned is taken whole or not at all: every piece becomes an endpoint
/// where it was read as one, and a block otherwise, and none is lost.
pub proof fn every_piece_is_scanned(
    pieces: Vec<(String, Option<SocketAddr>)>,
    sorted: Result<(Vec<Subnet>, Vec<SocketAddr>), String>,
    place: int,
)
    requires
        call_ensures(viewer::parse_targets, (&pieces,), sorted),
        0 <= place < pieces@.len(),
    ensures
        sorted matches Ok((subnets, addrs)) ==> {
            &&& subnets@.len() + addrs@.len() == pieces@.len()
            &&& pieces@[place].1 matches Some(addr) ==> addrs@.contains(addr)
            &&& pieces@[place].1 is None ==> (crate::net::subnet_of(
                crate::net::block_read(pieces@[place].0@),
            ) matches Some(block) && subnets@.contains(block))
        },
        (forall|i: int| 0 <= i < pieces@.len() ==> (#[trigger] pieces@[i]).1 is Some) ==> sorted is Ok,
{
    if let Ok((subnets, addrs)) = sorted {
        all_are_read(pieces@, 0);
        sorted_so_far(pieces@, pieces@.len(), place);
    }
    if forall|i: int| 0 <= i < pieces@.len() ==> (#[trigger] pieces@[i]).1 is Some {
        all_endpoints_are_read(pieces@, 0);
    }
}

proof fn all_endpoints_are_read(pieces: Seq<(String, Option<SocketAddr>)>, from: int)
    requires
        0 <= from <= pieces.len(),
        forall|i: int| 0 <= i < pieces.len() ==> (#[trigger] pieces[i]).1 is Some,
    ensures
        viewer::first_unread(pieces, from) == pieces.len(),
    decreases pieces.len() - from,
{
    if from < pieces.len() {
        assert(pieces[from].1 is Some);
        all_endpoints_are_read(pieces, from + 1);
    }
}

proof fn all_are_read(pieces: Seq<(String, Option<SocketAddr>)>, from: int)
    requires
        0 <= from <= pieces.len(),
        viewer::first_unread(pieces, from) == pieces.len(),
    ensures
        forall|i: int|
            from <= i < pieces.len() ==> viewer::target(
                (#[trigger] pieces[i]).1,
                crate::net::block_read(pieces[i].0@),
            ) is Some,
    decreases pieces.len() - from,
{
    if from < pieces.len() {
        all_are_read(pieces, from + 1);
    }
}

proof fn sorted_so_far(pieces: Seq<(String, Option<SocketAddr>)>, count: nat, place: int)
    requires
        count <= pieces.len(),
        forall|i: int|
            0 <= i < pieces.len() ==> viewer::target(
                (#[trigger] pieces[i]).1,
                crate::net::block_read(pieces[i].0@),
            ) is Some,
    ensures
        viewer::blocks(pieces, count).len() + viewer::endpoints(pieces, count).len() == count,
        0 <= place < count ==> match pieces[place].1 {
            Some(addr) => viewer::endpoints(pieces, count).contains(addr),
            None => crate::net::subnet_of(
                crate::net::block_read(pieces[place].0@),
            ) matches Some(block) && viewer::blocks(pieces, count).contains(block),
        },
    decreases count,
{
    if count > 0 {
        let before = (count - 1) as nat;
        sorted_so_far(pieces, before, place);
        let (blocks, endpoints) = (viewer::blocks(pieces, count), viewer::endpoints(pieces, count));
        let (fewer, shorter) = (
            viewer::blocks(pieces, before),
            viewer::endpoints(pieces, before),
        );
        let last = pieces[before as int];
        assert(viewer::target(last.1, crate::net::block_read(last.0@)) is Some);
        if place == before {
            match last.1 {
                Some(addr) => {
                    assert(endpoints.last() == addr);
                },
                None => {
                    assert(blocks.last() == crate::net::subnet_of(
                        crate::net::block_read(last.0@),
                    )->0);
                },
            }
        } else if 0 <= place < before {
            match pieces[place].1 {
                Some(addr) => {
                    let i = choose|i: int| 0 <= i < shorter.len() && shorter[i] == addr;
                    assert(endpoints[i] == addr);
                },
                None => {
                    let block = crate::net::subnet_of(
                        crate::net::block_read(pieces[place].0@),
                    )->0;
                    let i = choose|i: int| 0 <= i < fewer.len() && fewer[i] == block;
                    assert(blocks[i] == block);
                },
            }
        }
    }
}

/// A network stream is opened at the URL that was entered, and with the username and the
/// password that were, unless both are empty. White space around URL and username is dropped;
/// a password is taken as it is.
pub proof fn entered_streams_are_opened(
    url: &str,
    username: &str,
    password: &str,
    source: Option<CameraSource>,
    bare_url: Seq<char>,
    bare_username: Seq<char>,
    blanks: (Seq<char>, Seq<char>, Seq<char>, Seq<char>),
)
    requires
        call_ensures(viewer::build_rtsp_source, (true, url, username, password), source),
        heads::bare(bare_url),
        heads::bare(bare_username),
        heads::blank(blanks.0),
        heads::blank(blanks.1),
        heads::blank(blanks.2),
        heads::blank(blanks.3),
        url@ == blanks.0 + bare_url + blanks.1,
        username@ == blanks.2 + bare_username + blanks.3,
    ensures
        source is None <==> bare_url.len() == 0,
        source matches Some(stream) ==> (stream matches CameraSource::Rtsp {
            url: entered,
            credentials,
        } && entered@ == bare_url && match credentials {
            None => bare_username.len() == 0 && password@.len() == 0,
            Some(login) => (bare_username.len() > 0 || password@.len() > 0) && login.username@
                == bare_username && login.password@ == password@,
        }),
{
    heads::blanks_are_trimmed_off(blanks.0, bare_url, blanks.1);
    heads::blanks_are_trimmed_off(blanks.2, bare_username, blanks.3);
}

/// The middle of a frame is half as wide and half as high as the frame, and lies as far from
/// its left edge as from its right one and as far from its top as from its bottom, up to
/// rounding.
pub proof fn the_middle_is_in_the_middle(width: u32, height: u32, region: Rect)
    requires
        call_ensures(viewer::center_region, (width, height), region),
    ensures
        2 * region.width <= width <= 2 * region.width + 1,
        2 * region.height <= height <= 2 * region.height + 1,
        0 <= (width - region.x - region.width) - region.x <= 2,
        0 <= (height - region.y - region.height) - region.y <= 2,
{
}

/// Cameras are kept in the order in which they were found, each once for each time it was
/// reported, and nothing but cameras is: what two batches of events hold together is what the
/// first holds and then what the second does, and a single event holds its camera or nothing.
pub proof fn found_cameras_are_kept(
    front: Seq<DiscoverEvent>,
    back: Seq<DiscoverEvent>,
    event: DiscoverEvent,
    before: (usize, usize),
)
    ensures
        session::cameras_in(front + back, (front + back).len()) == session::cameras_in(
            front,
            front.len(),
        ) + session::cameras_in(back, back.len()),
        session::cameras_in(seq![event], 1) == match event {
            DiscoverEvent::CameraFound(camera) => seq![camera],
            _ => Seq::empty(),
        },
        session::progress_in(front + back, (front + back).len(), before) == session::progress_in(
            back,
            back.len(),
            session::progress_in(front, front.len(), before),
        ),
        session::progress_in(seq![event], 1, before) == match event {
            DiscoverEvent::Progress { scanned, total } => (scanned, total),
            _ => before,
        },
{
    batches_add_up(front, back, back.len(), before);
    assert(session::cameras_in(seq![event], 0) =~= Seq::<DiscoveredCamera>::empty());
    assert(session::progress_in(seq![event], 0, before) == before);
    if let DiscoverEvent::CameraFound(camera) = event {
        assert(session::cameras_in(seq![event], 1) =~= seq![camera]);
    }
}

proof fn batches_add_up(
    front: Seq<DiscoverEvent>,
    back: Seq<DiscoverEvent>,
    count: nat,
    before: (usize, usize),
)
    requires
        count <= back.len(),
    ensures
        session::cameras_in(front + back, front.len() + count) == session::cameras_in(
            front,
            front.len(),
        ) + session::cameras_in(back, count),
        session::progress_in(front + back, front.len() + count, before) == session::progress_in(
            back,
            count,
            session::progress_in(front, front.len(), before),
        ),
    decreases count,
{
    let all = front + back;
    if count == 0 {
        front_is_untouched(front, back, front.len(), before);
        assert(session::cameras_in(front, front.len()) + Seq::<DiscoveredCamera>::empty()
            =~= session::cameras_in(front, front.len()));
    } else {
        batches_add_up(front, back, (count - 1) as nat, before);
        assert(all[front.len() + count - 1] == back[count - 1]);
        assert(session::cameras_in(all, front.len() + count) =~= session::cameras_in(
            front,
            front.len(),
        ) + session::cameras_in(back, count));
    }
}

proof fn front_is_untouched(
    front: Seq<DiscoverEvent>,
    back: Seq<DiscoverEvent>,
    count: nat,
    before: (usize, usize),
)
    requires
        count <= front.len(),
    ensures
        session::cameras_in(front + back, count) == session::cameras_in(front, count),
        session::progress_in(front + back, count, before) == session::progress_in(
            front,
            count,
            before,
        ),
    decreases count,
{
    if count > 0 {
        front_is_untouched(front, back, (count - 1) as nat, before);
        assert((front + back)[count - 1] == front[count - 1]);
    }
}

/// Nothing is taken in after the end of a scan, and everything before it is.
pub proof fn scans_end_where_they_say(front: Seq<DiscoverEvent>, back: Seq<DiscoverEvent>)
    requires
        forall|i: int| 0 <= i < front.len() ==> !((#[trigger] front[i]) is Done),
    ensures
        session::first_done(front + seq![DiscoverEvent::Done] + back, 0) == front.len(),
        session::first_done(front, 0) == front.len(),
{
    let all = front + seq![DiscoverEvent::Done] + back;
    assert forall|i: int| 0 <= i < front.len() implies !((#[trigger] all[i]) is Done) by {
        assert(all[i] == front[i]);
    }
    end_found(all, 0, front.len() as int);
    end_found(front, 0, front.len() as int);
}

proof fn end_found(events: Seq<DiscoverEvent>, from: int, end: int)
    requires
        0 <= from <= end <= events.len(),
        forall|i: int| from <= i < end ==> !((#[trigger] events[i]) is Done),
        end < events.len() ==> events[end] is Done,
    ensures
        session::first_done(events, from) == end,
    decreases end - from,
{
    if from < end {
        end_found(events, from + 1, end);
    }
}

/// A new generation is never the one before it, so that what a worker of that one still
/// reports is told from what the new one does.
pub proof fn generations_differ(id: u64)
    ensures
        session::next_id(id) != id,
        id < u64::MAX ==> session::next_id(id) == id + 1,
{
}

/// What stands in a text still does once both are put in lower case.
proof fn lowered_parts(front: Seq<char>, part: Seq<char>, back: Seq<char>)
    ensures
        text::contains(text::lowered(front + part + back), text::lowered(part)),
{
    let whole = text::lowered(front + part + back);
    let at = front.len() as int;
    assert(whole.subrange(at, at + part.len()) =~= text::lowered(part));
    assert(text::stands_at(whole, text::lowered(part), at));
}

/// A host whose `Server:` header names a known server is one of a known vendor, however the
/// name is spelled and whatever stands around it, and its channels are tried.
pub proof fn known_servers_are_recognised(
    addr: SocketAddr,
    server: String,
    answer: HostAnswer,
    front: Seq<char>,
    name: Seq<char>,
    back: Seq<char>,
)
    requires
        call_ensures(discover::handle_host, (addr, Some(server)), answer),
        server@ == front + name + back,
        text::same_ignoring_case(name, "axis"@) || text::same_ignoring_case(
            name,
            "gstreamer rtsp server"@,
        ),
    ensures
        answer matches HostAnswer::Matched(event, scan) && scan.addr == addr && !scan.finished
            && scan.found == 0 && (event matches DiscoverEvent::HostFound { host, .. } && host
            == addr.ip) && (text::same_ignoring_case(name, "axis"@) ==> scan.profile.name@
            == "Axis"@) && scan.profile.max_channels == 8,
{
    reveal_strlit("axis");
    reveal_strlit("gstreamer rtsp server");
    assert(text::lowered("axis"@) =~= "axis"@);
    assert(text::lowered("gstreamer rtsp server"@) =~= "gstreamer rtsp server"@);
    lowered_parts(front, name, back);
}

/// A host that names another server is reported with what it said, and one that says nothing
/// is not reported.
pub proof fn unknown_servers_are_reported(
    addr: SocketAddr,
    server: Option<String>,
    answer: HostAnswer,
)
    requires
        call_ensures(discover::handle_host, (addr, server), answer),
    ensures
        server is None <==> answer is Silent,
        answer matches HostAnswer::Unmatched(event) ==> server matches Some(said) && event == (
        DiscoverEvent::HostUnmatched { host: addr.ip, server: said }),
{
}

/// Different channels of a host live at different paths.
pub proof fn channels_have_paths_of_their_own(left: u32, right: u32)
    requires
        left != right,
    ensures
        discover::channel_path_written(left) != discover::channel_path_written(right),
{
    let prefix = "axis-media/media.amp?camera="@;
    let one = discover::channel_path_written(left);
    let other = discover::channel_path_written(right);
    text::decimal_reads_back(left as nat);
    text::decimal_reads_back(right as nat);
    if one == other {
        assert(one.subrange(prefix.len() as int, one.len() as int) =~= text::decimal(left as nat));
        assert(other.subrange(prefix.len() as int, other.len() as int) =~= text::decimal(
            right as nat,
        ));
    }
}

/// Two cameras are the same source exactly where their ids are the same, whatever they are
/// called.
pub proof fn devices_are_told_apart_by_ids(left: Device, right: Device)
    ensures
        CameraSource::Usb(left)@ == CameraSource::Usb(right)@ <==> left.id.0@ == right.id.0@,
{
}

/// Two network streams are the same source exactly where their URLs and credentials are the
/// same, and none is the same source as a device.
pub proof fn streams_are_told_apart_by_url_and_login(
    url: String,
    login: Option<Credentials>,
    other_url: String,
    other_login: Option<Credentials>,
    device: Device,
)
    ensures
        ({
            let left = CameraSource::Rtsp { url, credentials: login };
            let right = CameraSource::Rtsp { url: other_url, credentials: other_login };
            &&& left@ == right@ <==> url@ == other_url@ && match (login, other_login) {
                (None, None) => true,
                (Some(a), Some(b)) => a.username@ == b.username@ && a.password@ == b.password@,
                _ => false,
            }
            &&& left@ != CameraSource::Usb(device)@
        }),
{
}

/// Connecting to a network stream is offered exactly where what was entered can be opened.
pub proof fn what_is_offered_can_be_opened(
    devices: Vec<Device>,
    selected: usize,
    url: &str,
    username: &str,
    password: &str,
    mode: SourceMode,
    source: Option<CameraSource>,
    enabled: bool,
    place: usize,
)
    requires
        call_ensures(viewer::refreshed_selection, (selected, devices@.len() as usize), place),
        call_ensures(
            viewer::build_source,
            (mode, true, &devices, place, url, username, password),
            source,
        ),
        call_ensures(viewer::connect_enabled, (mode, devices@.len() as usize, url), enabled),
        devices@.len() <= usize::MAX,
    ensures
        enabled <==> source is Some,
        mode == SourceMode::Usb && selected < devices@.len() ==> source == Some(
            CameraSource::Usb(devices@[selected as int]),
        ),
{
}

} // verus!
