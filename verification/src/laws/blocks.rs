//! Which hosts a list of address blocks stands for.

use crate::discover;
use crate::discover::DiscoverConfig;
use crate::error::{Error, ErrorView};
use crate::net;
use crate::net::{IpAddr, SocketAddr, Subnet};
use crate::text;
use crate::wire;
use vstd::arithmetic::{div_mod, power2};
use vstd::prelude::*;

verus! {

/// Whether an address is a host's in an IPv4 block: it shares the block's leading bits, and in
/// a block of more than two it is neither the first address nor the last.
pub open spec fn is_host(host: u32, address: u32, prefix: u8) -> bool {
    let size = power2::pow2((32 - prefix) as nat) as int;
    &&& host as int / size == address as int / size
    &&& size > 2 ==> 0 < host as int % size < size - 1
}

/// Whether an endpoint is a host of a block, at a port.
pub open spec fn is_host_of(target: SocketAddr, block: Subnet, port: u16) -> bool {
    match (target.ip, block) {
        (IpAddr::V4(host), Subnet::V4 { address, prefix }) => is_host(host, address, prefix)
            && target.port == port && target.scope == 0,
        _ => false,
    }
}

/// The hosts that a block lists are the hosts of the block, each once and in ascending order.
pub proof fn blocks_list_their_hosts(address: u32, prefix: u8, host: u32, left: int, right: int)
    requires
        prefix <= 32,
    ensures
        net::block_hosts(address, prefix).contains(host) <==> is_host(host, address, prefix),
        0 <= left < right < net::block_hosts(address, prefix).len() ==> net::block_hosts(
            address,
            prefix,
        )[left] < net::block_hosts(address, prefix)[right],
{
    let hosts = net::block_hosts(address, prefix);
    let exponent = (32 - prefix) as nat;
    let size = power2::pow2(exponent) as int;
    power2::lemma_pow2_pos(exponent);
    power2::lemma_pow2_adds(exponent, prefix as nat);
    power2::lemma2_to64();
    let blocks = power2::pow2(prefix as nat) as int;
    if prefix < 31 {
        power2::lemma_pow2_strictly_increases(1, exponent);
    }
    let quotient = address as int / size;
    let network = address as int - address as int % size;
    div_mod::lemma_fundamental_div_mod(address as int, size);
    div_mod::lemma_fundamental_div_mod(host as int, size);
    assert(network == size * quotient);
    assert(0 <= network && network + size <= 0x1_0000_0000) by (nonlinear_arith)
        requires
            network == size * quotient,
            0 <= quotient,
            network <= address,
            address < 0x1_0000_0000,
            size * blocks == 0x1_0000_0000,
            size > 0,
    ;
    let skipped = if prefix < 31 {
        1int
    } else {
        0int
    };
    assert forall|i: int| 0 <= i < hosts.len() implies #[trigger] hosts[i] == network + skipped
        + i by {}
    if is_host(host, address, prefix) {
        assert(host as int == network + host as int % size);
        let place = host as int % size - skipped;
        assert(hosts[place] == host);
    }
    if hosts.contains(host) {
        let place = choose|i: int| 0 <= i < hosts.len() && hosts[i] == host;
        let offset = place + skipped;
        assert(network + offset == quotient * size + offset) by (nonlinear_arith)
            requires
                network == size * quotient,
        ;
        div_mod::lemma_fundamental_div_mod_converse(host as int, size, quotient, offset);
    }
}

/// Blocks expand one by one: the expansion of two lists together is the expansion of the first
/// followed by that of the second, unless one of them cannot be expanded or both together are
/// too long.
pub proof fn blocks_expand_one_by_one(front: Seq<Subnet>, back: Seq<Subnet>, port: u16)
    ensures
        match (discover::expanded(front, port), discover::expanded(back, port)) {
            (Ok(first), Ok(second)) => if first.len() + second.len() <= 65536 {
                discover::expanded(front + back, port) == Ok::<Seq<SocketAddr>, ErrorView>(
                    first + second,
                )
            } else {
                discover::expanded(front + back, port) is Err
            },
            _ => discover::expanded(front + back, port) is Err,
        },
    decreases back.len(),
{
    discover::expansion_is_capped(front, port);
    if back.len() == 0 {
        assert(front + back =~= front);
        if let Ok(first) = discover::expanded(front, port) {
            assert(first + Seq::<SocketAddr>::empty() =~= first);
        }
    } else {
        let shorter = back.drop_last();
        blocks_expand_one_by_one(front, shorter, port);
        assert((front + back).drop_last() =~= front + shorter);
        assert((front + back).last() == back.last());
        if let (Ok(first), Ok(second)) = (
            discover::expanded(front, port),
            discover::expanded(shorter, port),
        ) {
            if let Subnet::V4 { address, prefix } = back.last() {
                let more = discover::endpoints_at(net::block_hosts(address, prefix), port);
                assert(first + second + more =~= first + (second + more));
            }
        }
    }
}

/// A block alone expands to its hosts at the port, in ascending order, unless it is an IPv6
/// block or has too many.
pub proof fn single_blocks_expand_to_their_hosts(block: Subnet, port: u16, target: SocketAddr)
    requires
        block.valid(),
    ensures
        match discover::expanded(seq![block], port) {
            Ok(hosts) => {
                &&& hosts.contains(target) <==> is_host_of(target, block, port)
                &&& hosts.len() <= 65536
                &&& forall|i: int, j: int|
                    0 <= i < j < hosts.len() ==> match (
                        (#[trigger] hosts[i]).ip,
                        (#[trigger] hosts[j]).ip,
                    ) {
                        (IpAddr::V4(lower), IpAddr::V4(upper)) => lower < upper,
                        _ => false,
                    }
            },
            Err(_) => match block {
                Subnet::V6 { .. } => true,
                Subnet::V4 { prefix, .. } => prefix < 16,
            },
        },
{
    let list = seq![block];
    assert(list.drop_last() =~= Seq::<Subnet>::empty());
    assert(discover::expanded(list.drop_last(), port) == Ok::<Seq<SocketAddr>, ErrorView>(
        Seq::empty(),
    ));
    if let Subnet::V4 { address, prefix } = block {
        let hosts = net::block_hosts(address, prefix);
        let at = discover::endpoints_at(hosts, port);
        assert(Seq::<SocketAddr>::empty() + at =~= at);
        power2::lemma2_to64();
        if prefix >= 16 {
            if prefix > 16 {
                power2::lemma_pow2_strictly_increases((32 - prefix) as nat, 16);
            }
            assert(hosts.len() <= 65536);
        }
        assert forall|i: int, j: int| 0 <= i < j < at.len() implies match (
            (#[trigger] at[i]).ip,
            (#[trigger] at[j]).ip,
        ) {
            (IpAddr::V4(lower), IpAddr::V4(upper)) => lower < upper,
            _ => false,
        } by {
            blocks_list_their_hosts(address, prefix, 0, i, j);
        }
        if let IpAddr::V4(host) = target.ip {
            blocks_list_their_hosts(address, prefix, host, 0, 0);
            if at.contains(target) {
                let place = choose|i: int| 0 <= i < at.len() && at[i] == target;
                assert(hosts[place] == host);
            }
            if is_host_of(target, block, port) {
                let place = choose|i: int| 0 <= i < hosts.len() && hosts[i] == host;
                assert(at[place] == target);
            }
        }
    }
}

proof fn expansion_holds_hosts(subnets: Seq<Subnet>, port: u16, target: SocketAddr)
    requires
        net::all_valid(subnets),
    ensures
        discover::expanded(subnets, port) matches Ok(hosts) ==> (hosts.contains(target) <==> exists|
            i: int,
        |
            0 <= i < subnets.len() && is_host_of(target, #[trigger] subnets[i], port)),
    decreases subnets.len(),
{
    if subnets.len() > 0 {
        let shorter = subnets.drop_last();
        let block = subnets.last();
        assert(subnets =~= shorter + seq![block]);
        assert(block == subnets[subnets.len() - 1]);
        assert(net::all_valid(shorter)) by {
            assert forall|i: int| 0 <= i < shorter.len() implies (#[trigger] shorter[i]).valid() by {
                assert(subnets[i].valid());
            }
        }
        expansion_holds_hosts(shorter, port, target);
        single_blocks_expand_to_their_hosts(block, port, target);
        blocks_expand_one_by_one(shorter, seq![block], port);
        if let Ok(hosts) = discover::expanded(subnets, port) {
            let first = discover::expanded(shorter, port)->Ok_0;
            let second = discover::expanded(seq![block], port)->Ok_0;
            assert(hosts == first + second);
            if first.contains(target) {
                let place = choose|i: int| 0 <= i < first.len() && first[i] == target;
                assert(hosts[place] == target);
                let i = choose|i: int|
                    0 <= i < shorter.len() && is_host_of(target, #[trigger] shorter[i], port);
                assert(is_host_of(target, subnets[i], port));
            }
            if second.contains(target) {
                let place = choose|i: int| 0 <= i < second.len() && second[i] == target;
                assert(hosts[first.len() + place] == target);
                assert(is_host_of(target, subnets[subnets.len() - 1], port));
            }
            if hosts.contains(target) {
                let place = choose|i: int| 0 <= i < hosts.len() && hosts[i] == target;
                if place < first.len() {
                    assert(first[place] == target);
                } else {
                    assert(second[place - first.len()] == target);
                }
            }
            if exists|i: int| 0 <= i < subnets.len() && is_host_of(
                target,
                #[trigger] subnets[i],
                port,
            ) {
                let i = choose|i: int|
                    0 <= i < subnets.len() && is_host_of(target, #[trigger] subnets[i], port);
                if i < shorter.len() {
                    assert(shorter[i] == subnets[i]);
                }
            }
        }
    }
}

/// A scan visits the hosts of all of its blocks at the port, and no others: what a list of
/// blocks expands to holds an endpoint exactly where it is a host of one of the blocks.
pub proof fn every_host_of_every_block_is_listed(
    subnets: &[Subnet],
    port: u16,
    result: Result<Vec<SocketAddr>, Error>,
    target: SocketAddr,
)
    requires
        net::all_valid(subnets@),
        call_ensures(discover::expand_subnets, (subnets, port), result),
    ensures
        result matches Ok(hosts) ==> (hosts@.contains(target) <==> exists|i: int|
            0 <= i < subnets@.len() && is_host_of(target, #[trigger] subnets@[i], port)),
{
    expansion_holds_hosts(subnets@, port, target);
}

/// A scan that is not too large is built: its targets are the expanded blocks followed by the
/// endpoints, each as it was given.
pub proof fn targets_are_blocks_then_endpoints(
    config: DiscoverConfig,
    result: Result<Vec<SocketAddr>, Error>,
    target: SocketAddr,
)
    requires
        net::all_valid(config.subnets@),
        call_ensures(discover::build_targets, (&config,), result),
    ensures
        match result {
            Ok(list) => {
                let hosts = list@.len() - config.endpoints@.len();
                &&& 0 <= hosts
                &&& list@.len() <= 65536
                &&& list@.subrange(hosts, list@.len() as int) == config.endpoints@
                &&& list@.subrange(0, hosts).contains(target) <==> exists|i: int|
                    0 <= i < config.subnets@.len() && is_host_of(
                        target,
                        #[trigger] config.subnets@[i],
                        config.rtsp_port,
                    )
            },
            Err(_) => match discover::expanded(config.subnets@, config.rtsp_port) {
                Ok(hosts) => hosts.len() + config.endpoints@.len() > 65536,
                Err(_) => true,
            },
        },
{
    expansion_holds_hosts(config.subnets@, config.rtsp_port, target);
    if let Ok(list) = result {
        let hosts = discover::expanded(config.subnets@, config.rtsp_port)->Ok_0;
        let count = list@.len() - config.endpoints@.len();
        assert(list@.subrange(0, count) =~= hosts);
        assert(list@.subrange(count, list@.len() as int) =~= config.endpoints@);
    }
}

/// An IPv4 address is written as its four bytes in decimal, most significant first, with dots
/// between them.
pub proof fn addresses_are_dotted(first: u8, second: u8, third: u8, fourth: u8)
    ensures
        net::ip_written(
            IpAddr::V4(
                (first * 0x100_0000 + second * 0x1_0000 + third * 0x100 + fourth) as u32,
            ),
        ) == text::decimal(first as nat) + "."@ + text::decimal(second as nat) + "."@
            + text::decimal(third as nat) + "."@ + text::decimal(fourth as nat),
{
    let address = (first * 0x100_0000 + second * 0x1_0000 + third * 0x100 + fourth) as u32;
    assert(address / 0x100_0000 == first);
    assert(address / 0x1_0000 == first * 0x100 + second);
    assert(address / 0x100 == first * 0x1_0000 + second * 0x100 + third);
    assert(address / 0x1_0000 % 0x100 == second);
    assert(address / 0x100 % 0x100 == third);
    assert(address % 0x100 == fourth);
}

/// A stream's URL names its host, its port and its path; an IPv6 host stands in brackets.
pub proof fn urls_name_host_port_and_path(address: u32, port: u16, scope: u32, path: Seq<char>)
    ensures
        wire::url_written(SocketAddr { ip: IpAddr::V4(address), port, scope }, path) == "rtsp://"@
            + net::ip_written(IpAddr::V4(address)) + ":"@ + text::decimal(port as nat) + "/"@ + path,
{
}

} // verus!
