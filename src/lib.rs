//! Parsing of IP addresses and CIDR blocks, and arithmetic over address blocks.
use vstd::prelude::*;
use vstd::string::StringSliceAdditionalSpecFns;

use crate::scan::spec_parse;

pub mod base;
pub mod parser;
pub mod radix;
pub mod scan;
pub mod text;
pub mod v4;
pub mod v6;

pub use parser::{parse_ip, ParseError, Parser};
pub use v4::Ipv4Addr;
pub use v6::Ipv6Addr;

verus! {

/// An address of either family.
#[derive(Clone, Copy, Debug, PartialEq, Eq, PartialOrd, Ord, Hash, Structural)]
pub enum IpAddr {
    V4(Ipv4Addr),
    V6(Ipv6Addr),
}

impl IpAddr {
    /// Width of the address in bits.
    pub open spec fn spec_bits_len(self) -> u8 {
        match self {
            IpAddr::V4(_) => 32,
            IpAddr::V6(_) => 128,
        }
    }
}

/// A CIDR block of either family.
#[derive(Clone, Copy, Debug, PartialEq, Eq, PartialOrd, Ord)]
pub enum Cidr {
    /// IPv4 block
    V4(v4::Cidr),
    /// IPv6 block
    V6(v6::Cidr),
}

impl Cidr {
    /// Number of bits of an IPv4 address
    pub const IPV4_BITS: u8 = v4::BITS_LEN;

    /// Number of bits of an IPv6 address
    pub const IPV6_BITS: u8 = v6::BITS_LEN;

    /// The address the block was built from.
    pub open spec fn spec_addr(self) -> IpAddr {
        match self {
            Cidr::V4(c) => IpAddr::V4(c.spec_addr()),
            Cidr::V6(c) => IpAddr::V6(c.spec_addr()),
        }
    }

    /// The prefix length of the block.
    pub open spec fn spec_prefix(self) -> u8 {
        match self {
            Cidr::V4(c) => c.spec_prefix(),
            Cidr::V6(c) => c.spec_prefix(),
        }
    }

    /// The lowest address of the block.
    pub open spec fn spec_network(self) -> IpAddr {
        match self {
            Cidr::V4(c) => IpAddr::V4(
                Ipv4Addr { bits: v4::spec_network(c.spec_addr().bits, c.spec_prefix()) },
            ),
            Cidr::V6(c) => IpAddr::V6(
                Ipv6Addr { bits: v6::spec_network(c.spec_addr().bits, c.spec_prefix()) },
            ),
        }
    }

    /// The highest address of the block.
    pub open spec fn spec_broadcast(self) -> IpAddr {
        match self {
            Cidr::V4(c) => IpAddr::V4(
                Ipv4Addr { bits: v4::spec_broadcast(c.spec_addr().bits, c.spec_prefix()) },
            ),
            Cidr::V6(c) => IpAddr::V6(
                Ipv6Addr { bits: v6::spec_broadcast(c.spec_addr().bits, c.spec_prefix()) },
            ),
        }
    }

    /// The number of addresses that the block reports.
    pub open spec fn spec_size(self) -> nat {
        match self {
            Cidr::V4(c) => v4::spec_size(c.spec_prefix()),
            Cidr::V6(c) => v6::spec_size(c.spec_prefix()),
        }
    }

    /// `addr` is of the block's family and lies in the block.
    pub open spec fn spec_contains(self, addr: IpAddr) -> bool {
        match (self, addr) {
            (Cidr::V4(c), IpAddr::V4(a)) => v4::spec_contains(
                c.spec_addr().bits,
                c.spec_prefix(),
                a.bits,
            ),
            (Cidr::V6(c), IpAddr::V6(a)) => v6::spec_contains(
                c.spec_addr().bits,
                c.spec_prefix(),
                a.bits,
            ),
            _ => false,
        }
    }

    /// The address `idx` past the network address, wrapping within the family's width.
    pub open spec fn spec_at(self, idx: u128) -> IpAddr {
        match self {
            Cidr::V4(c) => IpAddr::V4(
                Ipv4Addr {
                    bits: ((v4::spec_network(c.spec_addr().bits, c.spec_prefix()) as int
                        + idx as int) % 0x1_0000_0000) as u32,
                },
            ),
            Cidr::V6(c) => IpAddr::V6(
                Ipv6Addr {
                    bits: v6::spec_offset(
                        v6::spec_network(c.spec_addr().bits, c.spec_prefix()),
                        idx,
                    ),
                },
            ),
        }
    }

    /// What `get` returns: the address at `idx` when `idx` is below the size, else nothing.
    pub open spec fn spec_get(self, idx: u128) -> Option<IpAddr> {
        if idx >= self.spec_size() {
            None
        } else {
            Some(self.spec_at(idx))
        }
    }

    /// Builds a block; `None` when `prefix` exceeds the width of `addr`.
    pub fn new(addr: IpAddr, prefix: u8) -> (r: Option<Cidr>)
        ensures
            r is Some <==> prefix <= addr.spec_bits_len(),
            r matches Some(c) ==> c.spec_addr() == addr && c.spec_prefix() == prefix,
    {
        match addr {
            IpAddr::V4(addr) => Cidr::new_v4(addr, prefix),
            IpAddr::V6(addr) => Cidr::new_v6(addr, prefix),
        }
    }

    /// Builds an IPv4 block; `None` when `prefix` exceeds 32.
    pub fn new_v4(addr: Ipv4Addr, prefix: u8) -> (r: Option<Cidr>)
        ensures
            r is Some <==> prefix <= 32,
            r matches Some(c) ==> c.spec_addr() == IpAddr::V4(addr) && c.spec_prefix() == prefix,
    {
        match v4::Cidr::new(addr, prefix) {
            Some(cidr) => Some(Cidr::V4(cidr)),
            None => None,
        }
    }

    /// Builds an IPv6 block; `None` when `prefix` exceeds 128.
    pub fn new_v6(addr: Ipv6Addr, prefix: u8) -> (r: Option<Cidr>)
        ensures
            r is Some <==> prefix <= 128,
            r matches Some(c) ==> c.spec_addr() == IpAddr::V6(addr) && c.spec_prefix() == prefix,
    {
        match v6::Cidr::new(addr, prefix) {
            Some(cidr) => Some(Cidr::V6(cidr)),
            None => None,
        }
    }

    /// Returns the address.
    pub fn addr(&self) -> (r: IpAddr)
        ensures
            r == self.spec_addr(),
    {
        match self {
            Cidr::V4(cidr) => IpAddr::V4(cidr.addr()),
            Cidr::V6(cidr) => IpAddr::V6(cidr.addr()),
        }
    }

    /// Returns the prefix length.
    pub fn prefix(&self) -> (r: u8)
        ensures
            r == self.spec_prefix(),
            r <= self.spec_addr().spec_bits_len(),
    {
        match self {
            Cidr::V4(cidr) => cidr.prefix(),
            Cidr::V6(cidr) => cidr.prefix(),
        }
    }

    /// Computes the lowest address of the block.
    pub fn network_addr(&self) -> (r: IpAddr)
        ensures
            r == self.spec_network(),
    {
        match self {
            Cidr::V4(cidr) => IpAddr::V4(cidr.network_addr()),
            Cidr::V6(cidr) => IpAddr::V6(cidr.network_addr()),
        }
    }

    /// Computes the highest address of the block.
    pub fn broadcast_addr(&self) -> (r: IpAddr)
        ensures
            r == self.spec_broadcast(),
    {
        match self {
            Cidr::V4(cidr) => IpAddr::V4(cidr.broadcast_addr()),
            Cidr::V6(cidr) => IpAddr::V6(cidr.broadcast_addr()),
        }
    }

    /// Returns the number of addresses that the block reports.
    pub fn size(&self) -> (r: u128)
        ensures
            r as nat == self.spec_size(),
    {
        match self {
            Cidr::V4(cidr) => cidr.size() as u128,
            Cidr::V6(cidr) => cidr.size(),
        }
    }

    /// Checks whether `addr` lies in the block; an address of the other family never does.
    pub fn contains(&self, addr: IpAddr) -> (r: bool)
        ensures
            r == self.spec_contains(addr),
    {
        match (self, addr) {
            (Cidr::V4(cidr), IpAddr::V4(addr)) => cidr.contains(addr),
            (Cidr::V6(cidr), IpAddr::V6(addr)) => cidr.contains(addr),
            _ => false,
        }
    }

    /// Returns the address at `idx` in the block, or `None` when `idx` is not below `size`.
    pub fn get(&self, idx: u128) -> (r: Option<IpAddr>)
        ensures
            r == self.spec_get(idx),
    {
        match self {
            Cidr::V4(cidr) => {
                if idx >= cidr.size() as u128 {
                    return None;
                }
                match cidr.get(idx as u32) {
                    Some(ip) => Some(IpAddr::V4(ip)),
                    None => None,
                }
            },
            Cidr::V6(cidr) => match cidr.get(idx) {
                Some(ip) => Some(IpAddr::V6(ip)),
                None => None,
            },
        }
    }

    /// Returns the address `idx` past the network address, wrapping within the family's width;
    /// `idx` is not checked against the size of the block.
    pub fn get_unchecked(&self, idx: u128) -> (r: IpAddr)
        ensures
            r == self.spec_at(idx),
    {
        match self {
            Cidr::V4(cidr) => {
                let ip = cidr.get_unchecked((idx % 0x1_0000_0000) as u32);
                proof {
                    let net = v4::spec_network(cidr.spec_addr().bits, cidr.spec_prefix()) as int;
                    let m = 0x1_0000_0000int;
                    assert((net + (idx as int % m)) % m == (net + idx as int) % m) by {
                        vstd::arithmetic::div_mod::lemma_add_mod_noop(net, idx as int, m);
                        vstd::arithmetic::div_mod::lemma_mod_twice(idx as int, m);
                        vstd::arithmetic::div_mod::lemma_add_mod_noop(net, idx as int % m, m);
                        vstd::arithmetic::div_mod::lemma_small_mod(net as nat, m as nat);
                    }
                }
                IpAddr::V4(ip)
            },
            Cidr::V6(cidr) => IpAddr::V6(cidr.get_unchecked(idx)),
        }
    }
}

/// A block holds its own network address and its own broadcast address.
pub proof fn lemma_block_holds_its_ends(c: Cidr)
    ensures
        c.spec_contains(c.spec_network()),
        c.spec_contains(c.spec_broadcast()),
{
    match c {
        Cidr::V4(b) => v4::lemma_block_holds_its_ends(b.spec_addr().bits, b.spec_prefix()),
        Cidr::V6(b) => v6::lemma_block_holds_its_ends(b.spec_addr().bits, b.spec_prefix()),
    }
}

/// `get` returns nothing exactly when the index is not below `size`, and otherwise the address
/// that `get_unchecked` returns for the same index.
pub proof fn lemma_get_is_checked_get_unchecked(c: Cidr, idx: u128)
    ensures
        c.spec_get(idx) is None <==> idx >= c.spec_size(),
        idx < c.spec_size() ==> c.spec_get(idx) == Some(c.spec_at(idx)),
{
}

/// Parses `text` into a block. Without a prefix length the block holds the address alone
/// (prefix 32 for IPv4, 128 for IPv6); `Ok(None)` when the prefix length exceeds the width.
pub fn parse_cidr(text: &str) -> (r: Result<Option<Cidr>, ParseError<'_>>)
    ensures
        match spec_parse(text.spec_bytes()) {
            Err(f) => r matches Err(e) && e.is_fault(f, text.spec_bytes()),
            Ok((ip, p)) => {
                let prefix = match p {
                    Some(p) => p,
                    None => ip.spec_bits_len(),
                };
                if prefix <= ip.spec_bits_len() {
                    r matches Ok(Some(c)) && c.spec_addr() == ip && c.spec_prefix() == prefix
                } else {
                    r == Ok::<Option<Cidr>, ParseError<'_>>(None)
                }
            },
        },
{
    match parse_ip(text) {
        Ok((IpAddr::V4(addr), None)) => Ok(Some(Cidr::V4(v4::Cidr::new_single(addr)))),
        Ok((IpAddr::V4(addr), Some(prefix))) => Ok(Cidr::new_v4(addr, prefix)),
        Ok((IpAddr::V6(addr), None)) => Ok(Some(Cidr::V6(v6::Cidr::new_single(addr)))),
        Ok((IpAddr::V6(addr), Some(prefix))) => Ok(Cidr::new_v6(addr, prefix)),
        Err(error) => Err(error),
    }
}

} // verus!
