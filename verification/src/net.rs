//! Addresses, endpoints and address blocks as plain numbers.

use crate::text;
use crate::text::{append, append_number};
use vstd::arithmetic::power2;
use vstd::prelude::*;

verus! {

/// An internet address, most significant byte first.
#[derive(Clone, Copy, Debug, PartialEq, Eq, Hash, Structural)]
pub enum IpAddr {
    /// An IPv4 address.
    V4(u32),
    /// An IPv6 address.
    V6(u128),
}

/// An address and a port on it.
#[derive(Clone, Copy, Debug, PartialEq, Eq, Hash, Structural)]
pub struct SocketAddr {
    /// The address.
    pub ip: IpAddr,
    /// The port.
    pub port: u16,
    /// The network that a link-local IPv6 address belongs to; zero where none is meant.
    pub scope: u32,
}

/// A block of addresses in CIDR notation: an address in it and how many of its leading
/// bits all of them share.
#[derive(Clone, Copy, Debug, PartialEq, Eq, Hash, Structural)]
pub enum Subnet {
    /// A block of IPv4 addresses.
    V4 {
        /// An address in the block.
        address: u32,
        /// Number of shared leading bits, at most 32.
        prefix: u8,
    },
    /// A block of IPv6 addresses.
    V6 {
        /// An address in the block.
        address: u128,
        /// Number of shared leading bits, at most 128.
        prefix: u8,
    },
}

impl Subnet {
    /// Whether the prefix is no longer than an address.
    pub open spec fn valid(self) -> bool {
        match self {
            Subnet::V4 { prefix, .. } => prefix <= 32,
            Subnet::V6 { prefix, .. } => prefix <= 128,
        }
    }
}

/// Whether every block of a list is valid.
pub open spec fn all_valid(subnets: Seq<Subnet>) -> bool {
    forall|i: int| 0 <= i < subnets.len() ==> (#[trigger] subnets[i]).valid()
}

/// Number of addresses in an IPv4 block.
pub open spec fn block_size(prefix: u8) -> nat {
    power2::pow2((32 - prefix) as nat)
}

/// The host addresses of an IPv4 block in ascending order: all of its addresses, but for
/// the first (the network's) and the last (the broadcast address) where the block has more
/// than two.
pub open spec fn block_hosts(address: u32, prefix: u8) -> Seq<u32> {
    let size = block_size(prefix);
    let network = address as int - address as int % size as int;
    if prefix < 31 {
        Seq::new((size - 2) as nat, |i: int| (network + 1 + i) as u32)
    } else {
        Seq::new(size, |i: int| (network + i) as u32)
    }
}

/// An ascending range of IPv4 addresses that is walked from its start.
#[verifier::external_type_specification]
#[verifier::external_body]
pub struct ExIpv4AddrRange(ipnet::Ipv4AddrRange);

/// The addresses that a range has yet to yield, next one first.
pub uninterp spec fn addresses_left(range: ipnet::Ipv4AddrRange) -> Seq<u32>;

/// `ipnet::Ipv4Net::hosts` on the block made of `address` and `prefix`: the block's host
/// addresses in ascending order.
#[verifier::external_body]
pub(crate) fn host_range(address: u32, prefix: u8) -> (range: ipnet::Ipv4AddrRange)
    requires
        prefix <= 32,
    ensures
        addresses_left(range) == block_hosts(address, prefix),
{
    ipnet::Ipv4Net::new_assert(address.into(), prefix).hosts()
}

/// `ipnet::Ipv4AddrRange::next`: takes the next address off the range, and nothing once
/// there is none left.
#[verifier::external_body]
pub(crate) fn next_host(range: &mut ipnet::Ipv4AddrRange) -> (address: Option<u32>)
    ensures
        match address {
            Some(host) => addresses_left(*old(range)).len() > 0 && host == addresses_left(
                *old(range),
            )[0] && addresses_left(*final(range)) == addresses_left(*old(range)).subrange(
                1,
                addresses_left(*old(range)).len() as int,
            ),
            None => addresses_left(*old(range)).len() == 0 && addresses_left(*final(range)).len()
                == 0,
        },
{
    range.next().map(u32::from)
}

/// What reading a text as a block of addresses gives: whether the block is an IPv6 one,
/// the address in it and the length of its prefix; nothing where the text is no block.
pub uninterp spec fn block_read(text: Seq<char>) -> Option<(bool, u128, u8)>;

/// `ipnet::IpNet::from_str`: the block that the text stands for. The prefix is never longer
/// than the address, and an IPv4 address has 32 bits.
#[verifier::external_body]
fn read_block(text: &str) -> (block: Option<(bool, u128, u8)>)
    ensures
        block == block_read(text@),
        block matches Some((false, address, prefix)) ==> address <= u32::MAX && prefix <= 32,
        block matches Some((true, address, prefix)) ==> prefix <= 128,
{
    match text.parse::<ipnet::IpNet>() {
        Ok(ipnet::IpNet::V4(net)) => Some((false, u32::from(net.addr()) as u128, net.prefix_len())),
        Ok(ipnet::IpNet::V6(net)) => Some((true, u128::from(net.addr()), net.prefix_len())),
        Err(_) => None,
    }
}

/// A block that was read, as a [`Subnet`].
pub open spec fn subnet_of(block: Option<(bool, u128, u8)>) -> Option<Subnet> {
    match block {
        None => None,
        Some((false, address, prefix)) => Some(Subnet::V4 { address: address as u32, prefix }),
        Some((true, address, prefix)) => Some(Subnet::V6 { address, prefix }),
    }
}

/// The block of addresses that a text such as `192.168.1.0/24` stands for.
pub fn parse_subnet(text: &str) -> (subnet: Option<Subnet>)
    ensures
        subnet == subnet_of(block_read(text@)),
        subnet matches Some(block) ==> block.valid(),
{
    match read_block(text) {
        None => None,
        Some((false, address, prefix)) => Some(Subnet::V4 { address: address as u32, prefix }),
        Some((true, address, prefix)) => Some(Subnet::V6 { address, prefix }),
    }
}

/// How an IPv6 address is written.
pub uninterp spec fn ipv6_written(address: u128) -> Seq<char>;

/// `ipnet::Ipv6Net::addr` and the address's `to_string`: the address in its usual notation.
/// The same address is always written the same way.
#[verifier::external_body]
fn ipv6_text(address: u128) -> (text: String)
    ensures
        text@ == ipv6_written(address),
{
    ipnet::Ipv6Net::new_assert(address.into(), 128).addr().to_string()
}

/// How an IPv4 address is written: its four bytes in decimal, with dots between them.
pub open spec fn ipv4_written(address: u32) -> Seq<char> {
    text::decimal((address / 0x100_0000) as nat) + "."@ + text::decimal(
        (address / 0x1_0000 % 0x100) as nat,
    ) + "."@ + text::decimal((address / 0x100 % 0x100) as nat) + "."@ + text::decimal(
        (address % 0x100) as nat,
    )
}

/// How an address is written.
pub open spec fn ip_written(ip: IpAddr) -> Seq<char> {
    match ip {
        IpAddr::V4(address) => ipv4_written(address),
        IpAddr::V6(address) => ipv6_written(address),
    }
}

/// An address in its usual notation.
pub fn ip_text(ip: IpAddr) -> (text: String)
    ensures
        text@ == ip_written(ip),
{
    match ip {
        IpAddr::V4(address) => {
            let first = append_number(String::new(), (address / 0x100_0000) as u64);
            let second = append_number(append(first, "."), (address / 0x1_0000 % 0x100) as u64);
            let third = append_number(append(second, "."), (address / 0x100 % 0x100) as u64);
            let text = append_number(append(third, "."), (address % 0x100) as u64);
            assert(text@ =~= ipv4_written(address));
            text
        },
        IpAddr::V6(address) => ipv6_text(address),
    }
}

} // verus!
