//! Local interface inventory and safe LAN route candidates.
use vstd::prelude::*;

use crate::text::{contains, has_infix, lower_seq, starts_with, to_lower};

verus! {

/// An IP address: IPv4 as its 32-bit big-endian value, IPv6 as its 128-bit one.
#[derive(Debug, Clone, Copy, PartialEq, Eq, Structural)]
pub enum IpAddress {
    V4(u32),
    V6(u128),
}

impl IpAddress {
    /// The IPv4 address `a.b.c.d`.
    pub fn v4(a: u8, b: u8, c: u8, d: u8) -> (addr: IpAddress)
        ensures
            addr == IpAddress::V4((a * 16777216 + b * 65536 + c * 256 + d) as u32),
    {
        IpAddress::V4((a as u32) * 16777216 + (b as u32) * 65536 + (c as u32) * 256 + (d as u32))
    }

    pub fn is_ipv4(&self) -> (b: bool)
        ensures
            b == (*self is V4),
    {
        matches!(self, IpAddress::V4(_))
    }

    pub fn is_ipv6(&self) -> (b: bool)
        ensures
            b == (*self is V6),
    {
        matches!(self, IpAddress::V6(_))
    }

    pub open spec fn unspecified(self) -> bool {
        match self {
            IpAddress::V4(a) => a == 0,
            IpAddress::V6(a) => a == 0,
        }
    }

    /// `0.0.0.0` or `::`.
    pub fn is_unspecified(&self) -> (b: bool)
        ensures
            b == self.unspecified(),
    {
        match self {
            IpAddress::V4(a) => *a == 0,
            IpAddress::V6(a) => *a == 0,
        }
    }

    /// `127.0.0.0/8` or `::1`.
    pub open spec fn loopback(self) -> bool {
        match self {
            IpAddress::V4(a) => 0x7f00_0000 <= a && a < 0x8000_0000,
            IpAddress::V6(a) => a == 1,
        }
    }

    pub fn is_loopback(&self) -> (b: bool)
        ensures
            b == self.loopback(),
    {
        match self {
            IpAddress::V4(a) => 0x7f00_0000 <= *a && *a < 0x8000_0000,
            IpAddress::V6(a) => *a == 1,
        }
    }

    /// Private (`10/8`, `172.16/12`, `192.168/16`) or link-local (`169.254/16`)
    /// IPv4; unique-local (`fc00::/7`) or unicast link-local (`fe80::/10`) IPv6.
    pub open spec fn lan(self) -> bool {
        match self {
            IpAddress::V4(a) => (0x0a00_0000 <= a && a < 0x0b00_0000)
                || (0xac10_0000 <= a && a < 0xac20_0000)
                || (0xc0a8_0000 <= a && a < 0xc0a9_0000)
                || (0xa9fe_0000 <= a && a < 0xa9ff_0000),
            IpAddress::V6(a) => (0xfc00_0000_0000_0000_0000_0000_0000_0000u128 <= a
                && a < 0xfe00_0000_0000_0000_0000_0000_0000_0000u128)
                || (0xfe80_0000_0000_0000_0000_0000_0000_0000u128 <= a
                && a < 0xfec0_0000_0000_0000_0000_0000_0000_0000u128),
        }
    }
}

/// Whether an address belongs to a private or link-local LAN range.
pub fn is_lan_address(address: IpAddress) -> (b: bool)
    ensures
        b == address.lan(),
{
    match address {
        IpAddress::V4(a) => (0x0a00_0000 <= a && a < 0x0b00_0000)
            || (0xac10_0000 <= a && a < 0xac20_0000)
            || (0xc0a8_0000 <= a && a < 0xc0a9_0000)
            || (0xa9fe_0000 <= a && a < 0xa9ff_0000),
        IpAddress::V6(a) => (0xfc00_0000_0000_0000_0000_0000_0000_0000u128 <= a
            && a < 0xfe00_0000_0000_0000_0000_0000_0000_0000u128)
            || (0xfe80_0000_0000_0000_0000_0000_0000_0000u128 <= a
            && a < 0xfec0_0000_0000_0000_0000_0000_0000_0000u128),
    }
}

/// Two addresses of one family agree on their first `prefix_len` bits
/// (the prefix is capped at the address width); mixed families never do.
pub open spec fn same_subnet_spec(local: IpAddress, remote: IpAddress, prefix_len: u8) -> bool {
    match (local, remote) {
        (IpAddress::V4(l), IpAddress::V4(r)) => {
            let p = if prefix_len > 32 { 32 } else { prefix_len as int };
            p == 0 || (l >> ((32 - p) as u32)) == (r >> ((32 - p) as u32))
        },
        (IpAddress::V6(l), IpAddress::V6(r)) => {
            let p = if prefix_len > 128 { 128 } else { prefix_len as int };
            p == 0 || (l >> ((128 - p) as u32)) == (r >> ((128 - p) as u32))
        },
        _ => false,
    }
}

pub fn same_subnet(local: IpAddress, remote: IpAddress, prefix_len: u8) -> (b: bool)
    ensures
        b == same_subnet_spec(local, remote, prefix_len),
{
    match (local, remote) {
        (IpAddress::V4(l), IpAddress::V4(r)) => {
            let p: u32 = if prefix_len > 32 { 32 } else { prefix_len as u32 };
            p == 0 || (l >> (32 - p)) == (r >> (32 - p))
        },
        (IpAddress::V6(l), IpAddress::V6(r)) => {
            let p: u32 = if prefix_len > 128 { 128 } else { prefix_len as u32 };
            p == 0 || (l >> (128 - p)) == (r >> (128 - p))
        },
        _ => false,
    }
}

/// Two IPv4 addresses lie in one subnet of prefix length `p` (at most 32)
/// exactly when they agree on their first `p` bits, that is when their
/// quotients by `2^(32 - p)` are equal, whatever their lower bits; a longer
/// prefix asks for the whole address.
pub proof fn lemma_ipv4_subnet_is_common_prefix(l: u32, r: u32, prefix_len: u8)
    ensures
        prefix_len <= 32 ==> (same_subnet_spec(IpAddress::V4(l), IpAddress::V4(r), prefix_len) <==> l as nat
            / vstd::arithmetic::power2::pow2((32 - prefix_len) as nat) == r as nat / vstd::arithmetic::power2::pow2(
            (32 - prefix_len) as nat,
        )),
        prefix_len > 32 ==> (same_subnet_spec(IpAddress::V4(l), IpAddress::V4(r), prefix_len) <==> l == r),
{
    if prefix_len == 0 {
        vstd::arithmetic::power2::lemma2_to64();
        assert(l as nat / vstd::arithmetic::power2::pow2(32) == 0);
        assert(r as nat / vstd::arithmetic::power2::pow2(32) == 0);
    } else if prefix_len <= 32 {
        let shift = (32 - prefix_len) as u32;
        vstd::bits::lemma_u32_shr_is_div(l, shift);
        vstd::bits::lemma_u32_shr_is_div(r, shift);
    } else {
        vstd::bits::lemma_u32_shr_is_div(l, 0);
        vstd::bits::lemma_u32_shr_is_div(r, 0);
        vstd::arithmetic::power2::lemma2_to64();
    }
}

/// Two IPv6 addresses lie in one subnet of prefix length `p` (at most 128)
/// exactly when they agree on their first `p` bits, that is when their
/// quotients by `2^(128 - p)` are equal.
pub proof fn lemma_ipv6_subnet_is_common_prefix(l: u128, r: u128, prefix_len: u8)
    ensures
        prefix_len <= 128 ==> (same_subnet_spec(IpAddress::V6(l), IpAddress::V6(r), prefix_len) <==> l as nat
            / vstd::arithmetic::power2::pow2((128 - prefix_len) as nat) == r as nat / vstd::arithmetic::power2::pow2(
            (128 - prefix_len) as nat,
        )),
        prefix_len > 128 ==> (same_subnet_spec(IpAddress::V6(l), IpAddress::V6(r), prefix_len) <==> l == r),
{
    if prefix_len == 0 {
        vstd::arithmetic::power2::lemma2_to64();
        vstd::arithmetic::power2::lemma_pow2_adds(64, 64);
        assert(vstd::arithmetic::power2::pow2(128) == 0x10000000000000000 * 0x10000000000000000nat);
        assert(l as nat / vstd::arithmetic::power2::pow2(128) == 0);
        assert(r as nat / vstd::arithmetic::power2::pow2(128) == 0);
    } else if prefix_len <= 128 {
        let shift = (128 - prefix_len) as u128;
        vstd::bits::lemma_u128_shr_is_div(l, shift);
        vstd::bits::lemma_u128_shr_is_div(r, shift);
        assert((l >> ((128 - prefix_len) as u32)) == (l >> shift));
        assert((r >> ((128 - prefix_len) as u32)) == (r >> shift));
    } else {
        vstd::bits::lemma_u128_shr_is_div(l, 0);
        vstd::bits::lemma_u128_shr_is_div(r, 0);
        vstd::arithmetic::power2::lemma2_to64();
    }
}

/// An IP address with a port.
#[derive(Debug, Clone, Copy, PartialEq, Eq, Structural)]
pub struct SocketAddress {
    pub ip: IpAddress,
    pub port: u16,
}

#[derive(Debug, Clone, Copy, PartialEq, Eq, Structural)]
pub enum InterfaceKind {
    Ethernet,
    Wifi,
    Thunderbolt,
    UsbEthernet,
    Vpn,
    Other,
}

impl InterfaceKind {
    /// The display name of the interface kind.
    pub fn label(self) -> (s: &'static str)
        ensures
            s@ == (match self {
                InterfaceKind::Ethernet => "Ethernet"@,
                InterfaceKind::Wifi => "Wi-Fi"@,
                InterfaceKind::Thunderbolt => "Thunderbolt Bridge"@,
                InterfaceKind::UsbEthernet => "USB Ethernet"@,
                InterfaceKind::Vpn => "VPN"@,
                InterfaceKind::Other => "LAN"@,
            }),
    {
        match self {
            InterfaceKind::Ethernet => "Ethernet",
            InterfaceKind::Wifi => "Wi-Fi",
            InterfaceKind::Thunderbolt => "Thunderbolt Bridge",
            InterfaceKind::UsbEthernet => "USB Ethernet",
            InterfaceKind::Vpn => "VPN",
            InterfaceKind::Other => "LAN",
        }
    }
}

/// Name fragments of tunnel and VPN interfaces.
pub open spec fn vpn_markers() -> Seq<Seq<char>> {
    seq![
        seq!['u', 't', 'u', 'n'],
        seq!['t', 'u', 'n'],
        seq!['t', 'a', 'p'],
        seq!['w', 'g'],
        seq!['p', 'p', 'p'],
        seq!['t', 'a', 'i', 'l', 's', 'c', 'a', 'l', 'e'],
        seq!['z', 'e', 'r', 'o', 't', 'i', 'e', 'r'],
    ]
}

/// The interface kind suggested by an interface name (ASCII case ignored).
pub open spec fn classify_spec(name: Seq<char>) -> InterfaceKind {
    let n = lower_seq(name);
    if exists|i: int| 0 <= i < vpn_markers().len() && has_infix(n, #[trigger] vpn_markers()[i]) {
        InterfaceKind::Vpn
    } else if has_infix(n, seq!['t', 'h', 'u', 'n', 'd', 'e', 'r', 'b', 'o', 'l', 't'])
        || seq!['b', 'r', 'i', 'd', 'g', 'e'].is_prefix_of(n) {
        InterfaceKind::Thunderbolt
    } else if has_infix(n, seq!['u', 's', 'b']) {
        InterfaceKind::UsbEthernet
    } else if has_infix(n, seq!['w', 'i', '-', 'f', 'i']) || has_infix(n, seq!['w', 'i', 'f', 'i'])
        || has_infix(n, seq!['w', 'l', 'a', 'n']) || seq!['w', 'l'].is_prefix_of(n)
        || n == seq!['e', 'n', '0'] {
        InterfaceKind::Wifi
    } else if has_infix(n, seq!['e', 't', 'h', 'e', 'r', 'n', 'e', 't'])
        || seq!['e', 't', 'h'].is_prefix_of(n) || seq!['e', 'n'].is_prefix_of(n) {
        InterfaceKind::Ethernet
    } else {
        InterfaceKind::Other
    }
}

fn is_vpn_name(n: &[char]) -> (b: bool)
    ensures
        b == exists|i: int| 0 <= i < vpn_markers().len() && has_infix(n@, #[trigger] vpn_markers()[i]),
{
    let m0 = contains(n, &['u', 't', 'u', 'n']);
    let m1 = contains(n, &['t', 'u', 'n']);
    let m2 = contains(n, &['t', 'a', 'p']);
    let m3 = contains(n, &['w', 'g']);
    let m4 = contains(n, &['p', 'p', 'p']);
    let m5 = contains(n, &['t', 'a', 'i', 'l', 's', 'c', 'a', 'l', 'e']);
    let m6 = contains(n, &['z', 'e', 'r', 'o', 't', 'i', 'e', 'r']);
    proof {
        let v = vpn_markers();
        assert(v[0] == seq!['u', 't', 'u', 'n']);
        assert(v[1] == seq!['t', 'u', 'n']);
        assert(v[2] == seq!['t', 'a', 'p']);
        assert(v[3] == seq!['w', 'g']);
        assert(v[4] == seq!['p', 'p', 'p']);
        assert(v[5] == seq!['t', 'a', 'i', 'l', 's', 'c', 'a', 'l', 'e']);
        assert(v[6] == seq!['z', 'e', 'r', 'o', 't', 'i', 'e', 'r']);
    }
    m0 || m1 || m2 || m3 || m4 || m5 || m6
}

/// Classifies a network interface by its name.
pub fn classify_interface(name: &str) -> (kind: InterfaceKind)
    ensures
        kind == classify_spec(name@),
{
    let raw = crate::text::chars_of(name);
    let n = to_lower(&raw);
    let n = n.as_slice();
    if is_vpn_name(n) {
        InterfaceKind::Vpn
    } else if contains(n, &['t', 'h', 'u', 'n', 'd', 'e', 'r', 'b', 'o', 'l', 't'])
        || starts_with(n, &['b', 'r', 'i', 'd', 'g', 'e']) {
        InterfaceKind::Thunderbolt
    } else if contains(n, &['u', 's', 'b']) {
        InterfaceKind::UsbEthernet
    } else if contains(n, &['w', 'i', '-', 'f', 'i']) || contains(n, &['w', 'i', 'f', 'i'])
        || contains(n, &['w', 'l', 'a', 'n']) || starts_with(n, &['w', 'l'])
        || (n.len() == 3 && n[0] == 'e' && n[1] == 'n' && n[2] == '0') {
        proof {
            if n@.len() == 3 && n@[0] == 'e' && n@[1] == 'n' && n@[2] == '0' {
                assert(n@ =~= seq!['e', 'n', '0']);
            }
        }
        InterfaceKind::Wifi
    } else if contains(n, &['e', 't', 'h', 'e', 'r', 'n', 'e', 't'])
        || starts_with(n, &['e', 't', 'h']) || starts_with(n, &['e', 'n']) {
        proof {
            assert(n@ != seq!['e', 'n', '0']);
        }
        InterfaceKind::Ethernet
    } else {
        InterfaceKind::Other
    }
}

/// A local network interface with one address.
#[derive(Debug, PartialEq, Eq)]
pub struct NetworkInterface {
    pub name: String,
    pub kind: InterfaceKind,
    pub address: IpAddress,
    pub prefix_len: u8,
    pub is_vpn: bool,
}

impl Clone for NetworkInterface {
    fn clone(&self) -> (copy: Self)
        ensures
            copy == *self,
    {
        NetworkInterface {
            name: self.name.clone(),
            kind: self.kind,
            address: self.address,
            prefix_len: self.prefix_len,
            is_vpn: self.is_vpn,
        }
    }
}

impl NetworkInterface {
    /// Not a VPN, and on a private or link-local LAN address.
    pub open spec fn usable(&self) -> bool {
        !self.is_vpn && self.address.lan()
    }

    pub fn usable_for_cluster(&self) -> (b: bool)
        ensures
            b == self.usable(),
    {
        !self.is_vpn && is_lan_address(self.address)
    }

    pub open spec fn reaches_spec(&self, remote: IpAddress) -> bool {
        same_subnet_spec(self.address, remote, self.prefix_len)
    }

    /// Whether `remote` lies in this interface's subnet.
    pub fn reaches(&self, remote: IpAddress) -> (b: bool)
        ensures
            b == self.reaches_spec(remote),
    {
        same_subnet(self.address, remote, self.prefix_len)
    }
}

/// The remote addresses that one interface reaches, paired with it, in order.
pub open spec fn routes_via(interface: NetworkInterface, remotes: Seq<IpAddress>) -> Seq<(NetworkInterface, IpAddress)>
    decreases remotes.len(),
{
    if remotes.len() == 0 {
        seq![]
    } else {
        let rest = routes_via(interface, remotes.drop_last());
        if interface.reaches_spec(remotes.last()) {
            rest.push((interface, remotes.last()))
        } else {
            rest
        }
    }
}

/// Every (usable interface, reachable remote address) pair, interfaces in
/// order and, for each, remote addresses in order.
pub open spec fn routes_spec(local: Seq<NetworkInterface>, remotes: Seq<IpAddress>) -> Seq<(NetworkInterface, IpAddress)>
    decreases local.len(),
{
    if local.len() == 0 {
        seq![]
    } else {
        let rest = routes_spec(local.drop_last(), remotes);
        if local.last().usable() {
            rest + routes_via(local.last(), remotes)
        } else {
            rest
        }
    }
}

/// Direct LAN routes from usable local interfaces to a peer's addresses.
pub fn route_candidates(local: &[NetworkInterface], remote_addresses: &[IpAddress]) -> (routes: Vec<(NetworkInterface, IpAddress)>)
    ensures
        routes@ == routes_spec(local@, remote_addresses@),
{
    let mut routes: Vec<(NetworkInterface, IpAddress)> = Vec::new();
    for i in 0..local.len()
        invariant
            routes@ == routes_spec(local@.take(i as int), remote_addresses@),
    {
        let interface = &local[i];
        let ghost before = routes@;
        proof {
            assert(local@.take(i + 1).drop_last() == local@.take(i as int));
            assert(local@.take(i + 1).last() == local@[i as int]);
        }
        if interface.usable_for_cluster() {
            for j in 0..remote_addresses.len()
                invariant
                    interface == local@[i as int],
                    routes@ == before + routes_via(local@[i as int], remote_addresses@.take(j as int)),
            {
                let remote = remote_addresses[j];
                proof {
                    assert(remote_addresses@.take(j + 1).drop_last() == remote_addresses@.take(j as int));
                }
                if interface.reaches(remote) {
                    routes.push((interface.clone(), remote));
                    proof {
                        assert(before + routes_via(local@[i as int], remote_addresses@.take(j as int)).push(
                            (local@[i as int], remote),
                        ) == (before + routes_via(local@[i as int], remote_addresses@.take(j as int))).push(
                            (local@[i as int], remote),
                        ));
                    }
                }
            }
            proof {
                assert(remote_addresses@.take(remote_addresses@.len() as int) == remote_addresses@);
            }
        }
    }
    proof {
        assert(local@.take(local@.len() as int) == local@);
    }
    routes
}

} // verus!
