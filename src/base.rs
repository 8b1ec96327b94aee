//! The address capability and the generic CIDR block.
use vstd::prelude::*;

verus! {

/// A fixed-width network address family.
pub trait NetworkAddress: Copy {
    /// Width of the address in bits.
    spec fn spec_bits_len() -> u8;

    /// Width of the address in bits.
    fn bits_len() -> (r: u8)
        ensures
            r == Self::spec_bits_len(),
    ;
}

/// An address together with a prefix length that never exceeds the address width.
#[derive(Copy, Debug, PartialEq, Eq, PartialOrd, Ord)]
pub struct Cidr<A: NetworkAddress> {
    prefix: u8,
    addr: A,
}

impl<A: NetworkAddress> Clone for Cidr<A> {
    fn clone(&self) -> (r: Self)
        ensures
            r == *self,
    {
        *self
    }
}

impl<A: NetworkAddress> Cidr<A> {
    #[verifier::type_invariant]
    spec fn prefix_fits(self) -> bool {
        self.prefix <= A::spec_bits_len()
    }

    /// The address the block was built from.
    pub closed spec fn spec_addr(self) -> A {
        self.addr
    }

    /// The prefix length of the block.
    pub closed spec fn spec_prefix(self) -> u8 {
        self.prefix
    }

    /// Builds a block; `None` when `prefix` exceeds the address width.
    pub fn new(addr: A, prefix: u8) -> (r: Option<Self>)
        ensures
            r is Some <==> prefix <= A::spec_bits_len(),
            r matches Some(c) ==> c.spec_addr() == addr && c.spec_prefix() == prefix,
    {
        if prefix > A::bits_len() {
            None
        } else {
            Some(Cidr { addr, prefix })
        }
    }

    /// Builds the block that holds `addr` alone (the prefix is the full width).
    pub fn new_single(addr: A) -> (r: Self)
        ensures
            r.spec_addr() == addr,
            r.spec_prefix() == A::spec_bits_len(),
    {
        Cidr { addr, prefix: A::bits_len() }
    }

    /// Returns the address.
    pub fn addr(&self) -> (r: A)
        ensures
            r == self.spec_addr(),
    {
        self.addr
    }

    /// Returns the prefix length, which never exceeds the address width.
    pub fn prefix(&self) -> (r: u8)
        ensures
            r == self.spec_prefix(),
            r <= A::spec_bits_len(),
    {
        proof {
            use_type_invariant(self);
        }
        self.prefix
    }
}

} // verus!
