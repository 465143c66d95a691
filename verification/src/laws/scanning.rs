//! What holds of discovery: whom a scan visits, how responses are read, and how its events
//! end.

use crate::channel::Received;
use crate::discover;
use crate::discover::{DiscoverEvent, ScanRun, ScanStep};
use crate::error::ErrorView;
use crate::net;
use crate::net::{SocketAddr, Subnet};
use crate::text;
use crate::wire;
use crate::wire::{HeaderView, ProgressView, ReadEvent, ReaderView};
use vstd::arithmetic::{div_mod, power2};
use vstd::prelude::*;

verus! {

/// A scan visits at most 65,536 targets, whatever it is given.
pub proof fn targets_are_capped(subnets: Seq<Subnet>, port: u16, endpoints: Seq<SocketAddr>)
    ensures
        discover::targets(subnets, port, endpoints) matches Ok(list) ==> list.len() <= 65536,
{
    discover::expansion_is_capped(subnets, port);
}

/// A scan of nothing has no targets.
pub proof fn nothing_to_scan(port: u16)
    ensures
        discover::targets(Seq::empty(), port, Seq::empty()) == Ok::<Seq<SocketAddr>, ErrorView>(
            Seq::empty(),
        ),
{
    assert(Seq::<SocketAddr>::empty() + Seq::<SocketAddr>::empty() =~= Seq::empty());
}

/// The endpoints come last, each as it was given, and everything before them is at the
/// configured port.
pub proof fn endpoints_come_last(subnets: Seq<Subnet>, port: u16, endpoints: Seq<SocketAddr>)
    ensures
        discover::targets(subnets, port, endpoints) matches Ok(list) ==> {
            &&& list.len() >= endpoints.len()
            &&& list.subrange(list.len() - endpoints.len(), list.len() as int) == endpoints
            &&& forall|i: int|
                0 <= i < list.len() - endpoints.len() ==> (#[trigger] list[i]).port == port
        },
{
    if let Ok(hosts) = discover::expanded(subnets, port) {
        expansion_uses_port(subnets, port);
        assert((hosts + endpoints).subrange(hosts.len() as int, hosts.len() as int + endpoints.len())
            =~= endpoints);
    }
}

/// Every host of an expansion is at the configured port.
proof fn expansion_uses_port(subnets: Seq<Subnet>, port: u16)
    ensures
        discover::expanded(subnets, port) matches Ok(hosts) ==> forall|i: int|
            0 <= i < hosts.len() ==> (#[trigger] hosts[i]).port == port,
    decreases subnets.len(),
{
    if subnets.len() > 0 {
        expansion_uses_port(subnets.drop_last(), port);
    }
}

/// An IPv6 block anywhere in the list is refused.
pub proof fn ipv6_is_refused(subnets: Seq<Subnet>, port: u16, place: int)
    requires
        0 <= place < subnets.len(),
        subnets[place] is V6,
    ensures
        discover::expanded(subnets, port) is Err,
    decreases subnets.len(),
{
    if place < subnets.len() - 1 {
        ipv6_is_refused(subnets.drop_last(), port, place);
    }
}

/// The hosts of a block belong to it: they share its prefix, so dividing by the block's size
/// gives the same for all of them and for the address that the block was given by. There
/// are as many as the prefix says, less the network and broadcast addresses of a block of
/// more than two.
pub proof fn hosts_belong_to_their_block(address: u32, prefix: u8, place: int)
    requires
        prefix <= 32,
        0 <= place < net::block_hosts(address, prefix).len(),
    ensures
        net::block_hosts(address, prefix)[place] as int / net::block_size(prefix) as int
            == address as int / net::block_size(prefix) as int,
        net::block_hosts(address, prefix).len() == if prefix < 31 {
            net::block_size(prefix) - 2
        } else {
            net::block_size(prefix) as int
        },
{
    let size = net::block_size(prefix) as int;
    let exponent = (32 - prefix) as nat;
    power2::lemma_pow2_pos(exponent);
    power2::lemma_pow2_adds(exponent, prefix as nat);
    power2::lemma2_to64();
    let blocks = power2::pow2(prefix as nat) as int;
    if prefix < 31 {
        power2::lemma_pow2_strictly_increases(1, exponent);
    }
    let quotient = address as int / size;
    div_mod::lemma_fundamental_div_mod(address as int, size);
    let network = address as int - address as int % size;
    assert(network == quotient * size) by (nonlinear_arith)
        requires
            network == size * quotient,
    ;
    assert(quotient < blocks) by (nonlinear_arith)
        requires
            size * quotient <= address,
            address < 0x1_0000_0000,
            size * blocks == 0x1_0000_0000,
            size > 0,
    ;
    assert(network + size <= 0x1_0000_0000) by (nonlinear_arith)
        requires
            network == quotient * size,
            quotient < blocks,
            size * blocks == 0x1_0000_0000,
            size > 0,
    ;
    let offset = if prefix < 31 {
        place + 1
    } else {
        place
    };
    assert(0 <= offset < size);
    assert(0 <= network) by (nonlinear_arith)
        requires
            network == quotient * size,
            0 <= quotient,
            size > 0,
    ;
    assert(net::block_hosts(address, prefix)[place] as int == network + offset);
    div_mod::lemma_fundamental_div_mod_converse(network + offset, size, quotient, offset);
}

/// A channel's URL uses its target's own port: at one address, targets at different ports
/// never give the same URL for a channel.
pub proof fn ports_tell_channels_apart(left: SocketAddr, right: SocketAddr, channel: u32)
    requires
        left.ip == right.ip,
        left.port != right.port,
    ensures
        wire::url_written(left, discover::channel_path_written(channel)) != wire::url_written(
            right,
            discover::channel_path_written(channel),
        ),
{
    let path = discover::channel_path_written(channel);
    let before = "rtsp://"@ + wire::host_written(left.ip) + ":"@;
    let first = text::decimal(left.port as nat);
    let second = text::decimal(right.port as nat);
    let one = wire::url_written(left, path);
    let other = wire::url_written(right, path);
    text::decimal_reads_back(left.port as nat);
    text::decimal_reads_back(right.port as nat);
    if one == other {
        assert(one.len() == before.len() + first.len() + "/"@.len() + path.len());
        assert(other.len() == before.len() + second.len() + "/"@.len() + path.len());
        let start = before.len() as int;
        assert(one.subrange(start, start + first.len()) =~= first);
        assert(other.subrange(start, start + second.len()) =~= second);
    }
}

/// Something that happens to a scan.
pub enum ScanMove {
    /// It is asked what to do next, cancelled or not.
    Asked { cancelled: bool },
    /// A visit finishes, if one is under way.
    Finished,
}

/// A scan of `total` targets, up to `concurrency` at a time, and the events it has reported
/// about itself, after some moves.
pub open spec fn scan_after(total: usize, concurrency: usize, moves: Seq<ScanMove>) -> (
    ScanRun,
    Seq<DiscoverEvent>,
)
    decreases moves.len(),
{
    if moves.len() == 0 {
        (discover::scan_begun(total, concurrency), Seq::empty())
    } else {
        let (run, events) = scan_after(total, concurrency, moves.drop_last());
        match moves.last() {
            ScanMove::Asked { cancelled } => {
                let (next, step) = discover::after_asking(run, cancelled);
                (
                    next,
                    if step == ScanStep::End {
                        events.push(DiscoverEvent::Done)
                    } else {
                        events
                    },
                )
            },
            ScanMove::Finished => if run.finished < run.begun {
                let scanned = (run.finished + 1) as usize;
                (
                    ScanRun { finished: scanned, ..run },
                    events.push(DiscoverEvent::Progress { scanned, total }),
                )
            } else {
                (run, events)
            },
        }
    }
}

/// Progress up to `finished` of `total` targets: one event for each, counting up.
pub open spec fn progress_events(total: usize, finished: nat) -> Seq<DiscoverEvent> {
    Seq::new(
        finished,
        |i: int| DiscoverEvent::Progress { scanned: (i + 1) as usize, total },
    )
}

/// A scan reports one `Progress` for each visit that finishes, counting up, and `Done` last,
/// once. Where it was never cancelled, every target has been reported by then. At no time are
/// more visits under way than its concurrency allows, or one where that is zero.
pub proof fn progress_counts_every_target(total: usize, concurrency: usize, moves: Seq<ScanMove>)
    ensures
        ({
            let (run, events) = scan_after(total, concurrency, moves);
            &&& run.valid()
            &&& run.total == total
            &&& run.permits == discover::scan_begun(total, concurrency).permits
            &&& run.begun - run.finished <= concurrency || run.begun - run.finished <= 1
            &&& events == if run.ended {
                progress_events(total, run.finished as nat).push(DiscoverEvent::Done)
            } else {
                progress_events(total, run.finished as nat)
            }
            &&& run.ended && (forall|i: int|
                0 <= i < moves.len() ==> !((#[trigger] moves[i]) matches ScanMove::Asked {
                    cancelled,
                } && cancelled)) ==> run.finished == total
        }),
    decreases moves.len(),
{
    if moves.len() > 0 {
        let shorter = moves.drop_last();
        progress_counts_every_target(total, concurrency, shorter);
        let (run, events) = scan_after(total, concurrency, shorter);
        assert(moves.last() == moves[moves.len() - 1]);
        assert(forall|i: int| 0 <= i < shorter.len() ==> #[trigger] shorter[i] == moves[i]);
        if let ScanMove::Finished = moves.last() {
            if run.finished < run.begun {
                let count = (run.finished + 1) as nat;
                assert(progress_events(total, count) =~= progress_events(
                    total,
                    run.finished as nat,
                ).push(DiscoverEvent::Progress { scanned: count as usize, total }));
            }
        }
    } else {
        assert(progress_events(total, 0) =~= Seq::empty());
    }
}

/// The end of a scan is final: once it has been handed out, waiting gives it again whatever
/// happens, and looking gives nothing.
pub proof fn done_is_final(
    received: Received<DiscoverEvent>,
    waiting: Option<DiscoverEvent>,
)
    ensures
        discover::next_outcome(true, received) == (
            Ok::<DiscoverEvent, ErrorView>(DiscoverEvent::Done),
            true,
        ),
        discover::try_outcome(true, waiting) == (None::<DiscoverEvent>, true),
{
}

/// The reader remembers the end of a scan as soon as it has handed it out.
pub proof fn done_is_remembered(
    done_emitted: bool,
    received: Received<DiscoverEvent>,
    waiting: Option<DiscoverEvent>,
)
    ensures
        discover::next_outcome(done_emitted, received).0 == Ok::<DiscoverEvent, ErrorView>(
            DiscoverEvent::Done,
        ) ==> discover::next_outcome(done_emitted, received).1,
        discover::try_outcome(done_emitted, waiting).0 == Some(DiscoverEvent::Done)
            ==> discover::try_outcome(done_emitted, waiting).1,
{
}

/// Headers are found without regard to the case of their names.
pub proof fn header_names_ignore_case(
    headers: Seq<HeaderView>,
    name: Seq<char>,
    other: Seq<char>,
)
    requires
        text::same_ignoring_case(name, other),
    ensures
        wire::header_value(headers, name) == wire::header_value(headers, other),
{
    header_places_agree(headers, name, other, 0);
}

proof fn header_places_agree(
    headers: Seq<HeaderView>,
    name: Seq<char>,
    other: Seq<char>,
    from: int,
)
    requires
        text::same_ignoring_case(name, other),
    ensures
        wire::header_place(headers, name, from) == wire::header_place(headers, other, from),
    decreases headers.len() - from,
{
    if from < headers.len() {
        header_places_agree(headers, name, other, from + 1);
    }
}

/// It does not matter how the bytes of a response's head are cut up: two reads, the first of
/// which leaves the head incomplete, come to the same as one read of all their bytes.
pub proof fn cuts_in_the_head_do_not_matter(
    reader: ReaderView,
    first: Vec<u8>,
    second: Vec<u8>,
    both: Vec<u8>,
)
    requires
        reader.head is None,
        first@.len() > 0,
        second@.len() > 0,
        both@ == first@ + second@,
        wire::after(reader, ReadEvent::Data(first)) matches ProgressView::Reading(between)
            && between.head is None,
    ensures
        wire::after(reader, ReadEvent::Data(first)) matches ProgressView::Reading(between)
            && wire::after(between, ReadEvent::Data(second)) == wire::after(
            reader,
            ReadEvent::Data(both),
        ),
{
    assert(reader.received + first@ + second@ =~= reader.received + both@);
}

/// The same of a response's body.
pub proof fn cuts_in_the_body_do_not_matter(
    reader: ReaderView,
    first: Vec<u8>,
    second: Vec<u8>,
    both: Vec<u8>,
)
    requires
        reader.read_body,
        reader.head is Some,
        first@.len() > 0,
        second@.len() > 0,
        both@ == first@ + second@,
        reader.received.len() + first@.len() < reader.content_length,
    ensures
        wire::after(reader, ReadEvent::Data(first)) matches ProgressView::Reading(between)
            && wire::after(between, ReadEvent::Data(second)) == wire::after(
            reader,
            ReadEvent::Data(both),
        ),
{
    assert(reader.received + first@ + second@ =~= reader.received + both@);
}

/// A read no longer than what the body still needs never takes the body past the length
/// that the head announced.
pub proof fn body_stops_at_its_length(reader: ReaderView, data: Vec<u8>)
    requires
        reader.head is Some,
        reader.received.len() < reader.content_length,
        data@.len() <= reader.content_length - reader.received.len(),
    ensures
        match wire::after(reader, ReadEvent::Data(data)) {
            ProgressView::Reading(next) => next.received.len() < reader.content_length
                && next.content_length == reader.content_length,
            ProgressView::Finished { body, .. } => body.len() <= reader.content_length,
            ProgressView::Failed(_) => false,
        },
{
}

/// No body longer than the cap is waited for.
pub proof fn bodies_are_capped(headers: Seq<HeaderView>)
    ensures
        wire::body_length(headers) <= 262144,
{
}

/// Targets are visited in turn, each once: a visit is always to the target behind those that
/// were begun before, and takes the scan on to the next.
pub proof fn targets_are_visited_in_turn(run: ScanRun, cancelled: bool)
    requires
        run.valid(),
    ensures
        ({
            let (next, step) = discover::after_asking(run, cancelled);
            &&& step matches ScanStep::Visit(place) ==> {
                &&& !cancelled && !run.ended
                &&& place == run.begun < run.total
                &&& next.begun == run.begun + 1
            }
            &&& !(step is Visit) ==> next.begun == run.begun
            &&& next.finished == run.finished && next.total == run.total
            &&& !cancelled && !run.ended && run.begun < run.total && run.begun - run.finished
                < run.permits ==> step is Visit
            &&& !run.ended && run.begun == run.finished && (cancelled || run.begun == run.total)
                ==> step is End
        }),
{
}

/// Before the end of a scan its events are handed on as they come, and the first end that comes
/// is remembered.
pub proof fn events_are_handed_on(event: DiscoverEvent)
    ensures
        discover::next_outcome(false, Received::Item(event)) == (
            Ok::<DiscoverEvent, ErrorView>(event),
            event is Done,
        ),
        discover::next_outcome(false, Received::TimedOut) == (
            Err::<DiscoverEvent, ErrorView>(ErrorView::Timeout),
            false,
        ),
        discover::next_outcome(false, Received::Disconnected) == (
            Ok::<DiscoverEvent, ErrorView>(DiscoverEvent::Done),
            true,
        ),
        discover::try_outcome(false, Some(event)) == (Some(event), event is Done),
        discover::try_outcome(false, None) == (None::<DiscoverEvent>, false),
{
}

} // verus!
