//! IPv6 addresses and the block arithmetic over their 128-bit patterns.
use vstd::prelude::*;
use vstd::arithmetic::power2::pow2;
use vstd::arithmetic::div_mod::lemma_div_by_multiple;
use vstd::arithmetic::power2::{lemma2_to64, lemma_pow2_adds, lemma_pow2_pos};
use vstd::bits::lemma_u128_shr_is_div;

use crate::base;
use crate::base::NetworkAddress;

verus! {

/// Width of an IPv6 address in bits.
pub const BITS_LEN: u8 = 128;

/// An IPv6 address, held as its 128-bit pattern (first segment in the high bits).
#[derive(Clone, Copy, Debug, PartialEq, Eq, PartialOrd, Ord, Hash, Structural)]
pub struct Ipv6Addr {
    pub bits: u128,
}

impl Ipv6Addr {
    /// Builds the address from its eight 16-bit segments, first segment first.
    pub fn new(a: u16, b: u16, c: u16, d: u16, e: u16, f: u16, g: u16, h: u16) -> (r: Ipv6Addr)
        ensures
            r.bits == spec_from_segments(seq![a, b, c, d, e, f, g, h]),
    {
        Ipv6Addr {
            bits: a as u128 * 0x1_0000_0000_0000_0000_0000_0000_0000 + b as u128
                * 0x1_0000_0000_0000_0000_0000_0000 + c as u128 * 0x1_0000_0000_0000_0000_0000
                + d as u128 * 0x1_0000_0000_0000_0000 + e as u128 * 0x1_0000_0000_0000 + f as u128
                * 0x1_0000_0000 + g as u128 * 0x1_0000 + h as u128,
        }
    }

    /// Builds the address whose bit pattern is `bits`.
    pub fn from_bits(bits: u128) -> (r: Ipv6Addr)
        ensures
            r.bits == bits,
    {
        Ipv6Addr { bits }
    }

    /// Returns the bit pattern of the address.
    pub fn to_bits(&self) -> (r: u128)
        ensures
            r == self.bits,
    {
        self.bits
    }
}

impl NetworkAddress for Ipv6Addr {
    open spec fn spec_bits_len() -> u8 {
        128
    }

    fn bits_len() -> (r: u8) {
        BITS_LEN
    }
}

/// The 128-bit pattern of eight 16-bit segments, first segment in the high bits.
pub open spec fn spec_from_segments(s: Seq<u16>) -> int {
    s[0] as int * 0x1_0000_0000_0000_0000_0000_0000_0000 + s[1] as int
        * 0x1_0000_0000_0000_0000_0000_0000 + s[2] as int * 0x1_0000_0000_0000_0000_0000
        + s[3] as int * 0x1_0000_0000_0000_0000 + s[4] as int * 0x1_0000_0000_0000 + s[5] as int
        * 0x1_0000_0000 + s[6] as int * 0x1_0000 + s[7] as int
}

/// Shifting one left by `s` gives `2^s`.
proof fn lemma_one_shl(s: u128)
    requires
        s < 128,
    ensures
        (1u128 << s) as nat == pow2(s as nat),
{
    let top: u128 = 0x8000_0000_0000_0000_0000_0000_0000_0000;
    let down: u128 = (127 - s) as u128;
    assert((1u128 << s) == (top >> down)) by (bit_vector)
        requires
            s < 128,
            down == 127 - s,
            top == 0x8000_0000_0000_0000_0000_0000_0000_0000u128,
    ;
    lemma_u128_shr_is_div(top, down);
    lemma2_to64();
    lemma_pow2_adds(31, 32);
    lemma_pow2_adds(63, 64);
    lemma_pow2_adds(s as nat, down as nat);
    lemma_pow2_pos(down as nat);
    lemma_div_by_multiple(pow2(s as nat) as int, pow2(down as nat) as int);
    assert(pow2(127) == top as nat);
    assert(s as nat + down as nat == 127);
    assert(top as nat == pow2(s as nat) * pow2(down as nat));
}

/// IPv6 block.
pub type Cidr = base::Cidr<Ipv6Addr>;

/// The mask of a prefix: its high `prefix` bits set, the others clear.
pub open spec fn spec_mask(prefix: u8) -> u128 {
    if prefix == 0 {
        0
    } else {
        u128::MAX << ((128 - prefix) as u128)
    }
}

/// The lowest address of the block of `bits` under `prefix`.
pub open spec fn spec_network(bits: u128, prefix: u8) -> u128 {
    bits & spec_mask(prefix)
}

/// The highest address of the block of `bits` under `prefix`.
pub open spec fn spec_broadcast(bits: u128, prefix: u8) -> u128 {
    bits | !spec_mask(prefix)
}

/// Whether `bits` lies in the block of `net` under `prefix`.
pub open spec fn spec_contains(net: u128, prefix: u8, bits: u128) -> bool {
    bits & spec_mask(prefix) == spec_network(net, prefix)
}

/// Number of addresses that a block reports: `2^(128 - prefix)`, except that the
/// whole space (`prefix == 0`) reports `u128::MAX`, as `2^128` does not fit.
pub open spec fn spec_size(prefix: u8) -> nat {
    if prefix == 0 {
        u128::MAX as nat
    } else {
        pow2((128 - prefix) as nat)
    }
}

/// Address at offset `idx` from `net`, wrapping modulo `2^128`.
pub open spec fn spec_offset(net: u128, idx: u128) -> u128 {
    ((net as int + idx as int) % (u128::MAX as int + 1)) as u128
}

/// A block holds its own network address and its own broadcast address.
pub proof fn lemma_block_holds_its_ends(bits: u128, prefix: u8)
    ensures
        spec_contains(bits, prefix, spec_network(bits, prefix)),
        spec_contains(bits, prefix, spec_broadcast(bits, prefix)),
{
    let m = spec_mask(prefix);
    assert((bits & m) & m == bits & m) by (bit_vector);
    assert((bits | !m) & m == bits & m) by (bit_vector);
}

/// Computes the network mask of `prefix`.
pub fn mask(prefix: u8) -> (r: Ipv6Addr)
    requires
        prefix <= BITS_LEN,
    ensures
        r.bits == spec_mask(prefix),
{
    if prefix == 0 {
        Ipv6Addr::from_bits(0)
    } else {
        Ipv6Addr::from_bits(u128::MAX << ((BITS_LEN - prefix) as u128))
    }
}

/// Computes the lowest address of the block of `addr` under `prefix`.
pub fn network_addr(addr: Ipv6Addr, prefix: u8) -> (r: Ipv6Addr)
    requires
        prefix <= BITS_LEN,
    ensures
        r.bits == spec_network(addr.bits, prefix),
{
    let mask = mask(prefix).to_bits();
    Ipv6Addr::from_bits(addr.to_bits() & mask)
}

/// Computes the highest address of the block of `addr` under `prefix`.
pub fn broadcast_addr(addr: Ipv6Addr, prefix: u8) -> (r: Ipv6Addr)
    requires
        prefix <= BITS_LEN,
    ensures
        r.bits == spec_broadcast(addr.bits, prefix),
{
    let mask = mask(prefix).to_bits();
    Ipv6Addr::from_bits(addr.to_bits() | !mask)
}

/// Returns the number of addresses that a block of `prefix` reports.
pub fn size(prefix: u8) -> (r: u128)
    requires
        prefix <= BITS_LEN,
    ensures
        r as nat == spec_size(prefix),
{
    if prefix == 0 {
        u128::MAX
    } else {
        let shift = (BITS_LEN - prefix) as u128;
        proof {
            lemma_one_shl(shift);
        }
        1u128 << shift
    }
}

impl base::Cidr<Ipv6Addr> {
    /// Computes the lowest address of the block.
    pub fn network_addr(&self) -> (r: Ipv6Addr)
        ensures
            r.bits == spec_network(self.spec_addr().bits, self.spec_prefix()),
    {
        network_addr(self.addr(), self.prefix())
    }

    /// Computes the highest address of the block.
    pub fn broadcast_addr(&self) -> (r: Ipv6Addr)
        ensures
            r.bits == spec_broadcast(self.spec_addr().bits, self.spec_prefix()),
    {
        broadcast_addr(self.addr(), self.prefix())
    }

    /// Checks whether `addr` lies in the block.
    pub fn contains(&self, addr: Ipv6Addr) -> (r: bool)
        ensures
            r == spec_contains(self.spec_addr().bits, self.spec_prefix(), addr.bits),
    {
        (addr.to_bits() & mask(self.prefix()).to_bits()) == self.network_addr().to_bits()
    }

    /// Returns the number of addresses that the block reports.
    pub fn size(&self) -> (r: u128)
        ensures
            r as nat == spec_size(self.spec_prefix()),
    {
        size(self.prefix())
    }

    /// Returns the address at `idx` in the block, or `None` when `idx` is not below `size`.
    pub fn get(&self, idx: u128) -> (r: Option<Ipv6Addr>)
        ensures
            r is None <==> idx >= spec_size(self.spec_prefix()),
            r matches Some(a) ==> a.bits == spec_offset(
                spec_network(self.spec_addr().bits, self.spec_prefix()),
                idx,
            ),
    {
        if idx >= self.size() {
            return None;
        }
        Some(self.get_unchecked(idx))
    }

    /// Returns the address at `idx` from the network address, wrapping modulo `2^128`;
    /// `idx` is not checked against the size of the block.
    pub fn get_unchecked(&self, idx: u128) -> (r: Ipv6Addr)
        ensures
            r.bits == spec_offset(spec_network(self.spec_addr().bits, self.spec_prefix()), idx),
    {
        let net = self.network_addr().to_bits();
        Ipv6Addr::from_bits(net.wrapping_add(idx))
    }
}

} // verus!
