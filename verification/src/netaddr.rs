//! IP addresses as the sandbox's socket gate sees them, and the baseline
//! deny-list of internal targets a sandboxed guest may never reach.
use vstd::prelude::*;

verus! {

/// An IPv4 address (four octets) or an IPv6 address (eight 16-bit segments),
/// in network order.
#[derive(Clone, Copy, Debug, PartialEq, Eq, Structural, Hash)]
pub enum IpAddress {
    V4(u8, u8, u8, u8),
    V6(u16, u16, u16, u16, u16, u16, u16, u16),
}

/// `127.0.0.0/8`.
pub open spec fn v4_is_loopback(a: u8, b: u8, c: u8, d: u8) -> bool {
    a == 127
}

/// `169.254.0.0/16` (this covers the cloud metadata address `169.254.169.254`).
pub open spec fn v4_is_link_local(a: u8, b: u8, c: u8, d: u8) -> bool {
    a == 169 && b == 254
}

/// The private ranges `10.0.0.0/8`, `172.16.0.0/12` and `192.168.0.0/16`.
pub open spec fn v4_is_private(a: u8, b: u8, c: u8, d: u8) -> bool {
    a == 10 || (a == 172 && 16 <= b <= 31) || (a == 192 && b == 168)
}

/// `0.0.0.0`.
pub open spec fn v4_is_unspecified(a: u8, b: u8, c: u8, d: u8) -> bool {
    a == 0 && b == 0 && c == 0 && d == 0
}

/// `255.255.255.255`.
pub open spec fn v4_is_broadcast(a: u8, b: u8, c: u8, d: u8) -> bool {
    a == 255 && b == 255 && c == 255 && d == 255
}

/// An IPv4 target the raw-socket grant refuses.
pub open spec fn v4_blocked(a: u8, b: u8, c: u8, d: u8) -> bool {
    v4_is_loopback(a, b, c, d) || v4_is_link_local(a, b, c, d) || v4_is_private(a, b, c, d)
        || v4_is_unspecified(a, b, c, d) || v4_is_broadcast(a, b, c, d)
}

/// The IPv4 address an IPv4-mapped IPv6 address (`::ffff:a.b.c.d`) stands for.
pub open spec fn v4_mapped(
    s0: u16,
    s1: u16,
    s2: u16,
    s3: u16,
    s4: u16,
    s5: u16,
    s6: u16,
    s7: u16,
) -> Option<IpAddress> {
    if s0 == 0 && s1 == 0 && s2 == 0 && s3 == 0 && s4 == 0 && s5 == 0xffff {
        Some(IpAddress::V4((s6 >> 8u16) as u8, (s6 & 0xffu16) as u8, (s7 >> 8u16) as u8, (s7 & 0xffu16) as u8))
    } else {
        None
    }
}

/// The baseline deny-list: loopback, link-local, private, unique-local,
/// unspecified or broadcast, and any IPv4-mapped IPv6 spelling of those.
pub open spec fn blocked(ip: IpAddress) -> bool {
    match ip {
        IpAddress::V4(a, b, c, d) => v4_blocked(a, b, c, d),
        IpAddress::V6(s0, s1, s2, s3, s4, s5, s6, s7) => {
            let loopback = s0 == 0 && s1 == 0 && s2 == 0 && s3 == 0 && s4 == 0 && s5 == 0 && s6 == 0
                && s7 == 1;
            let unspecified = s0 == 0 && s1 == 0 && s2 == 0 && s3 == 0 && s4 == 0 && s5 == 0 && s6
                == 0 && s7 == 0;
            let link_local = (s0 & 0xffc0u16) == 0xfe80u16;
            let unique_local = (s0 & 0xfe00u16) == 0xfc00u16;
            let mapped_blocked = match v4_mapped(s0, s1, s2, s3, s4, s5, s6, s7) {
                Some(IpAddress::V4(a, b, c, d)) => v4_blocked(a, b, c, d),
                _ => false,
            };
            loopback || unspecified || link_local || unique_local || mapped_blocked
        },
    }
}

/// The canonical spelling: an IPv4-mapped IPv6 address becomes the IPv4
/// address; anything else is unchanged.
pub open spec fn canonical(ip: IpAddress) -> IpAddress {
    match ip {
        IpAddress::V6(s0, s1, s2, s3, s4, s5, s6, s7) => match v4_mapped(
            s0,
            s1,
            s2,
            s3,
            s4,
            s5,
            s6,
            s7,
        ) {
            Some(v4) => v4,
            None => ip,
        },
        _ => ip,
    }
}

fn v4_blocked_exec(a: u8, b: u8, c: u8, d: u8) -> (r: bool)
    ensures
        r == v4_blocked(a, b, c, d),
{
    a == 127 || (a == 169 && b == 254) || a == 10 || (a == 172 && 16 <= b && b <= 31) || (a == 192
        && b == 168) || (a == 0 && b == 0 && c == 0 && d == 0) || (a == 255 && b == 255 && c == 255
        && d == 255)
}

fn v4_mapped_exec(
    s0: u16,
    s1: u16,
    s2: u16,
    s3: u16,
    s4: u16,
    s5: u16,
    s6: u16,
    s7: u16,
) -> (r: Option<IpAddress>)
    ensures
        r == v4_mapped(s0, s1, s2, s3, s4, s5, s6, s7),
{
    if s0 == 0 && s1 == 0 && s2 == 0 && s3 == 0 && s4 == 0 && s5 == 0xffff {
        Some(IpAddress::V4((s6 >> 8u16) as u8, (s6 & 0xffu16) as u8, (s7 >> 8u16) as u8, (s7 & 0xffu16) as u8))
    } else {
        None
    }
}

/// Whether the raw-socket grant refuses `ip` outright, whatever the
/// embedder's policy says.
pub fn is_blocked_ip(ip: &IpAddress) -> (r: bool)
    ensures
        r == blocked(*ip),
{
    match *ip {
        IpAddress::V4(a, b, c, d) => v4_blocked_exec(a, b, c, d),
        IpAddress::V6(s0, s1, s2, s3, s4, s5, s6, s7) => {
            let loopback = s0 == 0 && s1 == 0 && s2 == 0 && s3 == 0 && s4 == 0 && s5 == 0 && s6 == 0
                && s7 == 1;
            let unspecified = s0 == 0 && s1 == 0 && s2 == 0 && s3 == 0 && s4 == 0 && s5 == 0 && s6
                == 0 && s7 == 0;
            let link_local = (s0 & 0xffc0u16) == 0xfe80u16;
            let unique_local = (s0 & 0xfe00u16) == 0xfc00u16;
            let mapped_blocked = match v4_mapped_exec(s0, s1, s2, s3, s4, s5, s6, s7) {
                Some(IpAddress::V4(a, b, c, d)) => v4_blocked_exec(a, b, c, d),
                _ => false,
            };
            loopback || unspecified || link_local || unique_local || mapped_blocked
        },
    }
}

impl IpAddress {
    /// The canonical spelling of this address (see [`canonical`]).
    pub fn to_canonical(&self) -> (r: IpAddress)
        ensures
            r == canonical(*self),
    {
        match *self {
            IpAddress::V6(s0, s1, s2, s3, s4, s5, s6, s7) => match v4_mapped_exec(
                s0,
                s1,
                s2,
                s3,
                s4,
                s5,
                s6,
                s7,
            ) {
                Some(v4) => v4,
                None => *self,
            },
            IpAddress::V4(..) => *self,
        }
    }
}

/// Canonicalising is idempotent, and a canonical address is never a mapped
/// IPv6 spelling, so the deny-list judges an address and its canonical
/// spelling alike.
pub proof fn lemma_canonical_stable(ip: IpAddress)
    ensures
        canonical(canonical(ip)) == canonical(ip),
        blocked(canonical(ip)) == blocked(ip),
{
    if let IpAddress::V6(s0, s1, s2, s3, s4, s5, s6, s7) = ip {
        if v4_mapped(s0, s1, s2, s3, s4, s5, s6, s7) is Some {
            assert((0u16 & 0xffc0u16) == 0u16 && (0u16 & 0xfe00u16) == 0u16) by (bit_vector);
        }
    }
}

} // verus!
