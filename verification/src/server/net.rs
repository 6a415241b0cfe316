//! Peer addresses as plain values.
use vstd::prelude::*;

verus! {

/// An IP address: the big-endian number that its octets make.
#[derive(Debug, Clone, Copy, PartialEq, Eq, Structural)]
pub enum PeerIp {
    V4(u32),
    V6(u128),
}

/// An IP address and a port.
#[derive(Debug, Clone, Copy, PartialEq, Eq, Structural)]
pub struct Endpoint {
    pub ip: PeerIp,
    pub port: u16,
}

/// The address is on a private network: IPv4 RFC 1918 ranges (10/8,
/// 172.16/12, 192.168/16), loopback (127/8) and link-local (169.254/16);
/// IPv6 loopback (`::1`), unique local (`fc00::/7`) and link-local
/// (`fe80::/10`).
pub open spec fn private_address(ip: PeerIp) -> bool {
    match ip {
        PeerIp::V4(a) => {
            ||| 0x0a00_0000 <= a <= 0x0aff_ffff
            ||| 0xac10_0000 <= a <= 0xac1f_ffff
            ||| 0xc0a8_0000 <= a <= 0xc0a8_ffff
            ||| 0x7f00_0000 <= a <= 0x7fff_ffff
            ||| 0xa9fe_0000 <= a <= 0xa9fe_ffff
        },
        PeerIp::V6(a) => {
            ||| a == 1
            ||| 0xfc00_0000_0000_0000_0000_0000_0000_0000 <= a
                <= 0xfdff_ffff_ffff_ffff_ffff_ffff_ffff_ffff
            ||| 0xfe80_0000_0000_0000_0000_0000_0000_0000 <= a
                <= 0xfebf_ffff_ffff_ffff_ffff_ffff_ffff_ffff
        },
    }
}

/// Is this IP on the local network? The honest meaning is
/// **private-address**, not provably same-subnet: a VPN or a routed
/// private network also presents these ranges.
pub fn is_local_ip(ip: PeerIp) -> (r: bool)
    ensures
        r == private_address(ip),
{
    match ip {
        PeerIp::V4(a) => {
            let top: u32 = a / 0x0100_0000;
            let pair: u32 = a / 0x0001_0000;
            top == 10 || top == 127 || (0xac10 <= pair && pair <= 0xac1f) || pair == 0xc0a8 || pair
                == 0xa9fe
        },
        PeerIp::V6(a) => {
            let pair: u128 = a / 0x0001_0000_0000_0000_0000_0000_0000_0000;
            a == 1 || (0xfc00 <= pair && pair <= 0xfdff) || (0xfe80 <= pair && pair <= 0xfebf)
        },
    }
}

} // verus!
