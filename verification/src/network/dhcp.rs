//! Allocation of guest addresses.
//!
//! Guest addresses are configured via the guest agent, not via a DHCP server.

use crate::network::addr::{ip_form, Ipv4Addr};
use crate::number::{decimal, decimal_of};
use crate::text::{cat5, cat7};
use std::collections::BTreeSet;
use vstd::prelude::*;

verus! {

broadcast use {
    vstd::std_specs::btree::group_btree_axioms,
    vstd::laws_cmp::group_laws_cmp,
    vstd::set::group_set_axioms,
};

/// Sequential allocator for the addresses of a /16 subnet.
///
/// Addresses are allocated from .0.2 on (.0.1 is usually the gateway), and
/// released ones are used again. An address of the subnet is known by its
/// offset, the number that its last two octets form.
#[derive(Debug)]
pub struct IpAllocator {
    /// First two octets of the subnet.
    prefix: [u8; 2],
    /// Offsets that are taken.
    allocated: BTreeSet<u16>,
    /// Where to look for a free offset first.
    next_candidate: u16,
    /// Offset of the gateway, which is never released.
    gateway_offset: u16,
}

/// The contents of an [`IpAllocator`].
pub struct AllocatorView {
    /// First two octets of the subnet.
    pub prefix: (u8, u8),
    /// Offsets that are taken.
    pub taken: Set<u16>,
    /// Where to look for a free offset first.
    pub next: u16,
    /// Offset of the gateway.
    pub gateway: u16,
}

/// The offset of an address.
pub open spec fn offset_of(ip: Ipv4Addr) -> u16 {
    (ip.c * 256 + ip.d) as u16
}

/// The address at an offset.
pub open spec fn address_at(prefix: (u8, u8), offset: u16) -> Ipv4Addr {
    Ipv4Addr {
        a: prefix.0,
        b: prefix.1,
        c: (offset / 256) as u8,
        d: (offset % 256) as u8,
    }
}

/// The smallest offset from `lo` to `hi` that is not taken.
pub open spec fn first_free(taken: Set<u16>, lo: int, hi: int) -> Option<u16>
    decreases hi - lo + 1,
{
    if lo > hi || lo < 0 || hi > 0xffff {
        None
    } else if !taken.contains(lo as u16) {
        Some(lo as u16)
    } else {
        first_free(taken, lo + 1, hi)
    }
}

/// Where the search for a free offset begins: neither at the network address
/// nor at the broadcast address.
pub open spec fn search_start(next: u16) -> int {
    if next == 0 || next == 0xffff {
        2
    } else {
        next as int
    }
}

/// The offset that is allocated next: the first free one from the candidate
/// up, else the first free one below it.
pub open spec fn next_free(s: AllocatorView) -> Option<u16> {
    let start = search_start(s.next);
    match first_free(s.taken, start, 0xfffe) {
        Some(x) => Some(x),
        None => first_free(s.taken, 2, start - 1),
    }
}

/// The allocator after an offset was handed out.
pub open spec fn with_taken(s: AllocatorView, offset: u16) -> AllocatorView {
    AllocatorView {
        taken: s.taken.insert(offset),
        next: if offset == 0xffff {
            0
        } else {
            (offset + 1) as u16
        },
        ..s
    }
}

/// Reserved offsets: the network, the gateway and the broadcast address.
pub open spec fn is_reserved(s: AllocatorView, offset: u16) -> bool {
    offset == 0 || offset == s.gateway || offset == 0xffff
}

/// The allocator after an offset was given back. Reserved offsets and offsets
/// that are not taken change nothing.
pub open spec fn with_released(s: AllocatorView, offset: u16) -> AllocatorView {
    if is_reserved(s, offset) || !s.taken.contains(offset) {
        s
    } else {
        AllocatorView {
            taken: s.taken.remove(offset),
            next: if offset < s.next {
                offset
            } else {
                s.next
            },
            ..s
        }
    }
}

/// The allocator after an address was given back. Addresses of other subnets
/// change nothing.
pub open spec fn with_returned(s: AllocatorView, ip: Ipv4Addr) -> AllocatorView {
    if (ip.a, ip.b) == s.prefix {
        with_released(s, offset_of(ip))
    } else {
        s
    }
}

/// The allocator after an offset was marked as taken.
pub open spec fn with_marked(s: AllocatorView, offset: u16) -> AllocatorView {
    AllocatorView {
        taken: s.taken.insert(offset),
        next: if offset < s.next {
            s.next
        } else if offset == 0xffff {
            0
        } else {
            (offset + 1) as u16
        },
        ..s
    }
}

/// The network address and the gateway are taken.
pub open spec fn allocator_ok(s: AllocatorView) -> bool {
    &&& s.taken.finite()
    &&& s.taken.contains(0)
    &&& s.taken.contains(s.gateway)
}

/// What an exhausted pool is answered with.
pub open spec fn exhausted_text(prefix: (u8, u8)) -> Seq<char> {
    "IP address pool exhausted (all addresses in "@ + decimal(prefix.0 as nat) + "."@ + decimal(
        prefix.1 as nat,
    ) + ".0.0/16 allocated)"@
}

/// What an address of another subnet is answered with.
pub open spec fn foreign_text(ip: Ipv4Addr, prefix: (u8, u8)) -> Seq<char> {
    "IP "@ + ip_form(ip) + " is not in subnet "@ + decimal(prefix.0 as nat) + "."@ + decimal(
        prefix.1 as nat,
    ) + ".0.0/16"@
}

/// The first free offset of a range is in the range and free.
proof fn lemma_first_free(taken: Set<u16>, lo: int, hi: int)
    ensures
        match first_free(taken, lo, hi) {
            Some(x) => lo <= x <= hi && !taken.contains(x) && forall|y: u16|
                lo <= y < x ==> taken.contains(y),
            None => 0 <= lo && hi <= 0xffff ==> forall|y: u16| lo <= y <= hi ==> taken.contains(y),
        },
    decreases hi - lo + 1,
{
    if lo > hi || lo < 0 || hi > 0xffff {
    } else if !taken.contains(lo as u16) {
    } else {
        lemma_first_free(taken, lo + 1, hi);
    }
}

impl View for IpAllocator {
    type V = AllocatorView;

    closed spec fn view(&self) -> AllocatorView {
        AllocatorView {
            prefix: (self.prefix@[0], self.prefix@[1]),
            taken: self.allocated@,
            next: self.next_candidate,
            gateway: self.gateway_offset,
        }
    }
}

impl IpAllocator {
    /// Create a new allocator for the /16 subnet of the gateway. The gateway
    /// and the network address are reserved.
    pub fn new(gateway: Ipv4Addr) -> (r: IpAllocator)
        ensures
            r@ == (AllocatorView {
                prefix: (gateway.a, gateway.b),
                taken: set![0u16, offset_of(gateway)],
                next: 2,
                gateway: offset_of(gateway),
            }),
            allocator_ok(r@),
    {
        let mut allocated: BTreeSet<u16> = BTreeSet::new();
        allocated.insert(0);
        let gateway_offset: u16 = gateway.c as u16 * 256 + gateway.d as u16;
        allocated.insert(gateway_offset);
        proof {
            assert(allocated@ =~= set![0u16, gateway_offset]);
        }
        IpAllocator {
            prefix: [gateway.a, gateway.b],
            allocated,
            next_candidate: 2,
            gateway_offset,
        }
    }

    /// The first free offset from `lo` to `hi`.
    fn search(&self, lo: u16, hi: u16) -> (r: Option<u16>)
        requires
            hi < 0xffff,
        ensures
            r == first_free(self@.taken, lo as int, hi as int),
    {
        let mut offset: u16 = lo;
        while offset <= hi
            invariant
                hi < 0xffff,
                first_free(self@.taken, lo as int, hi as int) == first_free(
                    self@.taken,
                    offset as int,
                    hi as int,
                ),
            decreases hi - offset + 1,
        {
            if !self.allocated.contains(&offset) {
                return Some(offset);
            }
            offset = offset + 1;
        }
        None
    }

    /// Allocate the next available address. Fails exactly if every usable
    /// address is taken.
    pub fn allocate(&mut self) -> (r: Result<Ipv4Addr, String>)
        requires
            allocator_ok(old(self)@),
        ensures
            allocator_ok(final(self)@),
            match next_free(old(self)@) {
                Some(offset) => {
                    &&& r == Ok::<Ipv4Addr, String>(address_at(old(self)@.prefix, offset))
                    &&& final(self)@ == with_taken(old(self)@, offset)
                },
                None => {
                    &&& r is Err
                    &&& r->Err_0@ == exhausted_text(old(self)@.prefix)
                    &&& final(self)@ == old(self)@
                },
            },
    {
        let start: u16 = if self.next_candidate == 0 || self.next_candidate == 0xffff {
            2
        } else {
            self.next_candidate
        };
        let found: Option<u16> = match self.search(start, 0xfffe) {
            Some(x) => Some(x),
            None => self.search(2, start - 1),
        };
        proof {
            lemma_first_free(self@.taken, start as int, 0xfffe);
            lemma_first_free(self@.taken, 2, start - 1);
        }
        match found {
            Some(offset) => {
                self.allocated.insert(offset);
                self.next_candidate = offset + 1;
                Ok(self.offset_to_ip(offset))
            },
            None => {
                let a: String = decimal_of(self.prefix[0] as u64);
                let b: String = decimal_of(self.prefix[1] as u64);
                Err(
                    cat5(
                        "IP address pool exhausted (all addresses in ",
                        a.as_str(),
                        ".",
                        b.as_str(),
                        ".0.0/16 allocated)",
                    ),
                )
            },
        }
    }

    /// Release a previously allocated address back to the pool. Reserved
    /// addresses cannot be released, and addresses that are not allocated, or
    /// are of another subnet, change nothing.
    pub fn release(&mut self, ip: Ipv4Addr)
        requires
            allocator_ok(old(self)@),
        ensures
            allocator_ok(final(self)@),
            final(self)@ == with_returned(old(self)@, ip),
    {
        if ip.a != self.prefix[0] || ip.b != self.prefix[1] {
            return;
        }
        let offset: u16 = ip.c as u16 * 256 + ip.d as u16;
        if offset == 0 || offset == self.gateway_offset || offset == 0xffff {
            return;
        }
        let ghost before = self.allocated@;
        if self.allocated.remove(&offset) {
            if offset < self.next_candidate {
                self.next_candidate = offset;
            }
        } else {
            proof {
                assert(self.allocated@ =~= before);
            }
        }
    }

    /// Mark an address as allocated (for restoring state).
    pub fn mark_allocated(&mut self, ip: Ipv4Addr) -> (r: Result<(), String>)
        requires
            allocator_ok(old(self)@),
        ensures
            allocator_ok(final(self)@),
            if (ip.a, ip.b) == old(self)@.prefix {
                r is Ok && final(self)@ == with_marked(old(self)@, offset_of(ip))
            } else {
                &&& r is Err
                &&& r->Err_0@ == foreign_text(ip, old(self)@.prefix)
                &&& final(self)@ == old(self)@
            },
    {
        if ip.a != self.prefix[0] || ip.b != self.prefix[1] {
            let t: String = ip.text();
            let a: String = decimal_of(self.prefix[0] as u64);
            let b: String = decimal_of(self.prefix[1] as u64);
            return Err(
                cat7("IP ", t.as_str(), " is not in subnet ", a.as_str(), ".", b.as_str(), ".0.0/16"),
            );
        }
        let offset: u16 = ip.c as u16 * 256 + ip.d as u16;
        self.allocated.insert(offset);
        if offset >= self.next_candidate {
            self.next_candidate = offset.wrapping_add(1);
        }
        Ok(())
    }

    /// How many addresses are currently allocated, reserved ones among them.
    pub fn allocated_count(&self) -> (n: usize)
        ensures
            n == self@.taken.len(),
    {
        self.allocated.len()
    }

    /// The pool capacity of a /16 subnet.
    pub fn capacity(&self) -> (n: usize)
        ensures
            n == 65534,
    {
        65534
    }

    /// Convert an offset to an address.
    fn offset_to_ip(&self, offset: u16) -> (ip: Ipv4Addr)
        ensures
            ip == address_at(self@.prefix, offset),
    {
        let third: u8 = (offset / 256) as u8;
        let fourth: u8 = (offset % 256) as u8;
        Ipv4Addr::new(self.prefix[0], self.prefix[1], third, fourth)
    }
}

// ---------------------------------------------------------------------------
// Laws
// ---------------------------------------------------------------------------

/// An allocated address was free, is in the subnet and is not reserved, and its
/// offset is the one that was chosen.
pub proof fn law_allocation_is_fresh(s: AllocatorView)
    requires
        allocator_ok(s),
        next_free(s) is Some,
    ensures
        ({
            let offset = next_free(s)->0;
            let ip = address_at(s.prefix, offset);
            &&& !s.taken.contains(offset)
            &&& !is_reserved(s, offset)
            &&& offset_of(ip) == offset
            &&& (ip.a, ip.b) == s.prefix
        }),
{
    let start = search_start(s.next);
    lemma_first_free(s.taken, start, 0xfffe);
    lemma_first_free(s.taken, 2, start - 1);
}

/// The pool is exhausted exactly if every offset from .0.2 on but the
/// broadcast address is taken, and .0.1 is too where the search begins there.
pub proof fn law_exhaustion(s: AllocatorView)
    requires
        allocator_ok(s),
    ensures
        next_free(s) is None <==> (s.next == 1 ==> s.taken.contains(1)) && forall|x: u16|
            2 <= x <= 0xfffe ==> s.taken.contains(x),
{
    let start = search_start(s.next);
    lemma_first_free(s.taken, start, 0xfffe);
    lemma_first_free(s.taken, 2, start - 1);
    if next_free(s) is None {
        assert forall|x: u16| 2 <= x <= 0xfffe implies s.taken.contains(x) by {
            if x < start {
                assert(2 <= x <= start - 1);
            }
        }
    }
}

/// Releasing an address that was just allocated gives the pool back as it was.
pub proof fn law_release_undoes_allocate(s: AllocatorView)
    requires
        allocator_ok(s),
        next_free(s) is Some,
    ensures
        with_released(with_taken(s, next_free(s)->0), next_free(s)->0).taken == s.taken,
{
    law_allocation_is_fresh(s);
    let x = next_free(s)->0;
    assert(s.taken.insert(x).remove(x) =~= s.taken);
}

/// Only an address that is taken can be released: any other one, and any one of
/// another subnet, leaves the pool as it is.
pub proof fn law_foreign_release_changes_nothing(s: AllocatorView, ip: Ipv4Addr)
    requires
        (ip.a, ip.b) != s.prefix || !s.taken.contains(offset_of(ip)),
    ensures
        with_returned(s, ip) == s,
{
}

/// A released address below the candidate is the next one to be allocated.
pub proof fn law_released_is_reused(s: AllocatorView, offset: u16)
    requires
        allocator_ok(s),
        s.taken.contains(offset),
        !is_reserved(s, offset),
        offset < s.next,
    ensures
        next_free(with_released(s, offset)) == Some(offset),
{
    let t = with_released(s, offset);
    assert(!t.taken.contains(offset));
}

/// Marking an address as taken twice is marking it once.
pub proof fn law_marking_is_idempotent(s: AllocatorView, offset: u16)
    ensures
        with_marked(with_marked(s, offset), offset) == with_marked(s, offset),
{
    assert(s.taken.insert(offset).insert(offset) =~= s.taken.insert(offset));
}

/// Neither allocating nor releasing nor marking ever frees the gateway or the
/// network address.
pub proof fn law_reserved_stay_taken(s: AllocatorView, offset: u16)
    requires
        allocator_ok(s),
    ensures
        with_released(s, offset).taken.contains(0) && with_released(s, offset).taken.contains(
            s.gateway,
        ),
        with_marked(s, offset).taken.contains(0) && with_marked(s, offset).taken.contains(s.gateway),
        with_taken(s, offset).taken.contains(0) && with_taken(s, offset).taken.contains(s.gateway),
{
}

} // verus!
