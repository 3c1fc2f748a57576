//! Keeps requests that users ask for away from private and internal network addresses.

use vstd::prelude::*;

verus! {

/// An IP address: the octets of a version 4 address, or the segments of a version 6 one.
#[derive(Debug, Clone, Copy, PartialEq, Eq, Structural)]
pub enum IpAddr {
    V4(u8, u8, u8, u8),
    V6(u16, u16, u16, u16, u16, u16, u16, u16),
}

impl DeepView for IpAddr {
    type V = IpAddr;

    open spec fn deep_view(&self) -> IpAddr {
        *self
    }
}

/// A version 4 address on the public internet: not one of the ranges for private networks,
/// the own network, the own host, the own link, groups, documentation, carrier-grade NAT,
/// benchmarking, the protocols themselves or relays into version 6, and not reserved.
pub open spec fn public_v4(a: u8, b: u8, c: u8) -> bool {
    &&& a != 10
    &&& !(a == 172 && 16 <= b <= 31)
    &&& !(a == 192 && b == 168)
    &&& a != 127
    &&& !(a == 169 && b == 254)
    &&& a < 224
    &&& a != 0
    &&& !(a == 192 && b == 0 && (c == 0 || c == 2))
    &&& !(a == 192 && b == 88 && c == 99)
    &&& !(a == 198 && b == 51 && c == 100)
    &&& !(a == 203 && b == 0 && c == 113)
    &&& !(a == 100 && 64 <= b <= 127)
    &&& !(a == 198 && (b == 18 || b == 19))
}

/// A version 6 address on the public internet, by its first two segments: one of the global
/// unicast range, and there not one of the ranges for the protocols themselves, documentation
/// or tunnels, which carry a version 4 address.
pub open spec fn public_v6(a: u16, b: u16) -> bool {
    &&& 0x2000 <= a <= 0x3fff
    &&& !(a == 0x2001 && (b < 0x0200 || b == 0x0db8))
    &&& a != 0x2002
    &&& !(a == 0x3fff && b < 0x1000)
}

/// An address that a URL from a user may lead to: what is not plainly on the public internet
/// is refused. A version 6 address that stands for a version 4 one is judged as that.
pub open spec fn public_addr(ip: IpAddr) -> bool {
    match ip {
        IpAddr::V4(a, b, c, _) => public_v4(a, b, c),
        IpAddr::V6(a, b, c, d, e, f, g, h) => if a == 0 && b == 0 && c == 0 && d == 0 && e == 0 && f
            == 0xffff {
            public_v4((g / 256) as u8, (g % 256) as u8, (h / 256) as u8)
        } else {
            public_v6(a, b)
        },
    }
}

fn is_public_v4(a: u8, b: u8, c: u8) -> (r: bool)
    ensures
        r == public_v4(a, b, c),
{
    if a == 10 || (a == 172 && 16 <= b && b <= 31) || (a == 192 && b == 168) {
        return false;
    }
    if a == 127 || (a == 169 && b == 254) || a >= 224 || a == 0 {
        return false;
    }
    if (a == 192 && b == 0 && (c == 0 || c == 2)) || (a == 192 && b == 88 && c == 99) {
        return false;
    }
    if (a == 198 && b == 51 && c == 100) || (a == 203 && b == 0
        && c == 113) {
        return false;
    }
    if a == 100 && 64 <= b && b <= 127 {
        return false;
    }
    !(a == 198 && (b == 18 || b == 19))
}

fn is_public_v6(a: u16, b: u16) -> (r: bool)
    ensures
        r == public_v6(a, b),
{
    if a < 0x2000 || a > 0x3fff || a == 0x2002 {
        return false;
    }
    !(a == 0x2001 && (b < 0x0200 || b == 0x0db8)) && !(a == 0x3fff && b < 0x1000)
}

/// Whether a URL from a user may lead to `ip`.
pub fn is_public_addr(ip: IpAddr) -> (r: bool)
    ensures
        r == public_addr(ip),
{
    match ip {
        IpAddr::V4(a, b, c, _) => is_public_v4(a, b, c),
        IpAddr::V6(a, b, c, d, e, f, g, h) => {
            if a == 0 && b == 0 && c == 0 && d == 0 && e == 0 && f == 0xffff {
                is_public_v4((g / 256) as u8, (g % 256) as u8, (h / 256) as u8)
            } else {
                is_public_v6(a, b)
            }
        },
    }
}

/// Why a host is not connected to.
#[derive(Debug, Clone, Copy, PartialEq, Eq, Structural)]
pub enum Refusal {
    /// It has no address.
    NoAddress,
    /// The address at this index is not public.
    Private(usize),
}

/// Whether a host with these addresses may be connected to: it has one, and all of them are
/// public. A host with a private address among others is refused as a whole; the refusal
/// names the first one.
pub fn ensure_public(addrs: &Vec<IpAddr>) -> (r: Result<(), Refusal>)
    ensures
        match r {
            Ok(()) => addrs@.len() > 0 && forall|i: int|
                0 <= i < addrs@.len() ==> public_addr(#[trigger] addrs@[i]),
            Err(Refusal::NoAddress) => addrs@.len() == 0,
            Err(Refusal::Private(k)) => k < addrs@.len() && !public_addr(addrs@[k as int]) && forall|
                i: int,
            |
                0 <= i < k ==> public_addr(#[trigger] addrs@[i]),
        },
{
    if addrs.len() == 0 {
        return Err(Refusal::NoAddress);
    }
    let mut i: usize = 0;
    while i < addrs.len()
        invariant
            0 <= i <= addrs@.len(),
            forall|j: int| 0 <= j < i ==> public_addr(#[trigger] addrs@[j]),
        decreases addrs@.len() - i,
    {
        if !is_public_addr(addrs[i]) {
            return Err(Refusal::Private(i));
        }
        i = i + 1;
    }
    Ok(())
}

} // verus!
