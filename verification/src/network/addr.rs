//! IPv4 addresses.

use crate::number::{decimal, decimal_of};
use crate::text::cat7;
use vstd::prelude::*;

verus! {

/// An IPv4 address.
#[derive(Clone, Copy, Debug, PartialEq, Eq, Hash, Structural)]
pub struct Ipv4Addr {
    pub a: u8,
    pub b: u8,
    pub c: u8,
    pub d: u8,
}

/// The dotted form of an address.
pub open spec fn ip_form(ip: Ipv4Addr) -> Seq<char> {
    decimal(ip.a as nat) + "."@ + decimal(ip.b as nat) + "."@ + decimal(ip.c as nat) + "."@
        + decimal(ip.d as nat)
}

impl Ipv4Addr {
    /// The address with these octets.
    pub fn new(a: u8, b: u8, c: u8, d: u8) -> (ip: Ipv4Addr)
        ensures
            ip == (Ipv4Addr { a, b, c, d }),
    {
        Ipv4Addr { a, b, c, d }
    }

    /// The dotted form of the address.
    pub fn text(&self) -> (r: String)
        ensures
            r@ == ip_form(*self),
    {
        let a: String = decimal_of(self.a as u64);
        let b: String = decimal_of(self.b as u64);
        let c: String = decimal_of(self.c as u64);
        let d: String = decimal_of(self.d as u64);
        cat7(a.as_str(), ".", b.as_str(), ".", c.as_str(), ".", d.as_str())
    }
}

} // verus!
