//! IPv4 addresses and the block arithmetic over their 32-bit patterns.
use vstd::prelude::*;
use vstd::arithmetic::power2::pow2;
use vstd::bits::{lemma_u32_pow2_no_overflow, lemma_u32_shl_is_mul};

use crate::base;
use crate::base::NetworkAddress;

verus! {

/// Width of an IPv4 address in bits.
pub const BITS_LEN: u8 = 32;

/// An IPv4 address, held as its 32-bit pattern (first octet in the high bits).
#[derive(Clone, Copy, Debug, PartialEq, Eq, PartialOrd, Ord, Hash, Structural)]
pub struct Ipv4Addr {
    pub bits: u32,
}

impl Ipv4Addr {
    /// Builds the address `a.b.c.d`.
    pub fn new(a: u8, b: u8, c: u8, d: u8) -> (r: Ipv4Addr)
        ensures
            r.bits == a as int * 0x100_0000 + b as int * 0x1_0000 + c as int * 0x100 + d as int,
    {
        Ipv4Addr { bits: a as u32 * 0x100_0000 + b as u32 * 0x1_0000 + c as u32 * 0x100 + d as u32 }
    }

    /// Builds the address whose bit pattern is `bits`.
    pub fn from_bits(bits: u32) -> (r: Ipv4Addr)
        ensures
            r.bits == bits,
    {
        Ipv4Addr { bits }
    }

    /// Returns the bit pattern of the address.
    pub fn to_bits(&self) -> (r: u32)
        ensures
            r == self.bits,
    {
        self.bits
    }
}

impl NetworkAddress for Ipv4Addr {
    open spec fn spec_bits_len() -> u8 {
        32
    }

    fn bits_len() -> (r: u8) {
        BITS_LEN
    }
}

/// IPv4 block.
pub type Cidr = base::Cidr<Ipv4Addr>;

/// The mask of a prefix: its high `prefix` bits set, the others clear.
pub open spec fn spec_mask(prefix: u8) -> u32 {
    if prefix == 0 {
        0
    } else {
        u32::MAX << ((32 - prefix) as u32)
    }
}

/// The lowest address of the block of `bits` under `prefix`.
pub open spec fn spec_network(bits: u32, prefix: u8) -> u32 {
    bits & spec_mask(prefix)
}

/// The highest address of the block of `bits` under `prefix`.
pub open spec fn spec_broadcast(bits: u32, prefix: u8) -> u32 {
    bits | !spec_mask(prefix)
}

/// Whether `bits` lies in the block of `net` under `prefix`.
pub open spec fn spec_contains(net: u32, prefix: u8, bits: u32) -> bool {
    bits & spec_mask(prefix) == spec_network(net, prefix)
}

/// Number of addresses that a block reports: `2^(32 - prefix)`, except that the
/// whole space (`prefix == 0`) reports `u32::MAX`, as `2^32` does not fit.
pub open spec fn spec_size(prefix: u8) -> nat {
    if prefix == 0 {
        u32::MAX as nat
    } else {
        pow2((32 - prefix) as nat)
    }
}

/// Address at offset `idx` from `net`, wrapping modulo `2^32`.
pub open spec fn spec_offset(net: u32, idx: u32) -> u32 {
    ((net as int + idx as int) % 0x1_0000_0000) as u32
}

/// A block holds its own network address and its own broadcast address.
pub proof fn lemma_block_holds_its_ends(bits: u32, prefix: u8)
    ensures
        spec_contains(bits, prefix, spec_network(bits, prefix)),
        spec_contains(bits, prefix, spec_broadcast(bits, prefix)),
{
    let m = spec_mask(prefix);
    assert((bits & m) & m == bits & m) by (bit_vector);
    assert((bits | !m) & m == bits & m) by (bit_vector);
}

/// Computes the network mask of `prefix`.
pub fn mask(prefix: u8) -> (r: Ipv4Addr)
    requires
        prefix <= BITS_LEN,
    ensures
        r.bits == spec_mask(prefix),
{
    if prefix == 0 {
        Ipv4Addr::from_bits(0)
    } else {
        Ipv4Addr::from_bits(u32::MAX << ((BITS_LEN - prefix) as u32))
    }
}

/// Computes the lowest address of the block of `addr` under `prefix`.
pub fn network_addr(addr: Ipv4Addr, prefix: u8) -> (r: Ipv4Addr)
    requires
        prefix <= BITS_LEN,
    ensures
        r.bits == spec_network(addr.bits, prefix),
{
    let mask = mask(prefix).to_bits();
    Ipv4Addr::from_bits(addr.to_bits() & mask)
}

/// Computes the highest address of the block of `addr` under `prefix`.
pub fn broadcast_addr(addr: Ipv4Addr, prefix: u8) -> (r: Ipv4Addr)
    requires
        prefix <= BITS_LEN,
    ensures
        r.bits == spec_broadcast(addr.bits, prefix),
{
    let mask = mask(prefix).to_bits();
    Ipv4Addr::from_bits(addr.to_bits() | !mask)
}

/// Returns the number of addresses that a block of `prefix` reports.
pub fn size(prefix: u8) -> (r: u32)
    requires
        prefix <= BITS_LEN,
    ensures
        r as nat == spec_size(prefix),
{
    if prefix == 0 {
        u32::MAX
    } else {
        let shift = (BITS_LEN - prefix) as u32;
        proof {
            lemma_u32_pow2_no_overflow(shift as nat);
            lemma_u32_shl_is_mul(1, shift);
        }
        1u32 << shift
    }
}

impl base::Cidr<Ipv4Addr> {
    /// Computes the lowest address of the block.
    pub fn network_addr(&self) -> (r: Ipv4Addr)
        ensures
            r.bits == spec_network(self.spec_addr().bits, self.spec_prefix()),
    {
        network_addr(self.addr(), self.prefix())
    }

    /// Computes the highest address of the block.
    pub fn broadcast_addr(&self) -> (r: Ipv4Addr)
        ensures
            r.bits == spec_broadcast(self.spec_addr().bits, self.spec_prefix()),
    {
        broadcast_addr(self.addr(), self.prefix())
    }

    /// Checks whether `addr` lies in the block.
    pub fn contains(&self, addr: Ipv4Addr) -> (r: bool)
        ensures
            r == spec_contains(self.spec_addr().bits, self.spec_prefix(), addr.bits),
    {
        (addr.to_bits() & mask(self.prefix()).to_bits()) == self.network_addr().to_bits()
    }

    /// Returns the number of addresses that the block reports.
    pub fn size(&self) -> (r: u32)
        ensures
            r as nat == spec_size(self.spec_prefix()),
    {
        size(self.prefix())
    }

    /// Returns the address at `idx` in the block, or `None` when `idx` is not below `size`.
    pub fn get(&self, idx: u32) -> (r: Option<Ipv4Addr>)
        ensures
            r is None <==> idx >= spec_size(self.spec_prefix()),
            r matches Some(a) ==> a.bits == spec_offset(
                spec_network(self.spec_addr().bits, self.spec_prefix()),
                idx,
            ),
    {
        if idx >= self.size() {
            return None;
        }
        Some(self.get_unchecked(idx))
    }

    /// Returns the address at `idx` from the network address, wrapping modulo `2^32`;
    /// `idx` is not checked against the size of the block.
    pub fn get_unchecked(&self, idx: u32) -> (r: Ipv4Addr)
        ensures
            r.bits == spec_offset(spec_network(self.spec_addr().bits, self.spec_prefix()), idx),
    {
        let net = self.network_addr().to_bits();
        Ipv4Addr::from_bits(net.wrapping_add(idx))
    }
}

} // verus!
