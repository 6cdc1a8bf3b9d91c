//! Link-layer and network-layer addresses.

use vstd::prelude::*;

verus! {

/// A 48-bit Ethernet address.
#[derive(Clone, Copy, Debug, PartialEq, Eq, Structural, Hash)]
pub struct MacAddr(pub u8, pub u8, pub u8, pub u8, pub u8, pub u8);

impl MacAddr {
    /// The six octets in transmission order.
    pub open spec fn bytes(self) -> Seq<u8> {
        seq![self.0, self.1, self.2, self.3, self.4, self.5]
    }

    /// The all-ones address every station listens to.
    pub open spec fn spec_broadcast() -> MacAddr {
        MacAddr(0xff, 0xff, 0xff, 0xff, 0xff, 0xff)
    }

    pub fn new(a: u8, b: u8, c: u8, d: u8, e: u8, f: u8) -> (mac: MacAddr)
        ensures
            mac == MacAddr(a, b, c, d, e, f),
    {
        MacAddr(a, b, c, d, e, f)
    }

    pub fn broadcast() -> (mac: MacAddr)
        ensures
            mac == Self::spec_broadcast(),
    {
        MacAddr(0xff, 0xff, 0xff, 0xff, 0xff, 0xff)
    }

    /// The address whose octets are `buffer[at..at + 6]`.
    pub open spec fn at(buffer: Seq<u8>, at: int) -> MacAddr {
        MacAddr(
            buffer[at],
            buffer[at + 1],
            buffer[at + 2],
            buffer[at + 3],
            buffer[at + 4],
            buffer[at + 5],
        )
    }

    /// Reads the address at `buffer[at..at + 6]`.
    pub fn read(buffer: &[u8], at: usize) -> (mac: MacAddr)
        requires
            at + 6 <= buffer@.len(),
        ensures
            mac == Self::at(buffer@, at as int),
    {
        MacAddr(
            buffer[at],
            buffer[at + 1],
            buffer[at + 2],
            buffer[at + 3],
            buffer[at + 4],
            buffer[at + 5],
        )
    }

    /// Writes the address over `buffer[at..at + 6]`.
    pub fn write(self, buffer: &mut [u8], at: usize)
        requires
            at + 6 <= old(buffer)@.len(),
        ensures
            final(buffer)@ == old(buffer)@.take(at as int) + self.bytes() + old(buffer)@.skip(
                at + 6,
            ),
    {
        buffer[at] = self.0;
        buffer[at + 1] = self.1;
        buffer[at + 2] = self.2;
        buffer[at + 3] = self.3;
        buffer[at + 4] = self.4;
        buffer[at + 5] = self.5;
        assert(buffer@ =~= old(buffer)@.take(at as int) + self.bytes() + old(buffer)@.skip(
            at + 6,
        ));
    }
}

/// An IPv4 address, held as its four octets.
#[derive(Clone, Copy, Debug, PartialEq, Eq, Structural, Hash)]
pub struct Ipv4Addr(pub u8, pub u8, pub u8, pub u8);

impl Ipv4Addr {
    /// The four octets in transmission order.
    pub open spec fn bytes(self) -> Seq<u8> {
        seq![self.0, self.1, self.2, self.3]
    }

    /// The address as a 32-bit number, first octet most significant.
    pub open spec fn bits(self) -> u32 {
        (self.0 * 0x100_0000 + self.1 * 0x1_0000 + self.2 * 0x100 + self.3) as u32
    }

    /// `0.0.0.0`, which stands for "any address" and names no station.
    pub open spec fn spec_is_unspecified(self) -> bool {
        self == Ipv4Addr(0, 0, 0, 0)
    }

    pub fn new(a: u8, b: u8, c: u8, d: u8) -> (ip: Ipv4Addr)
        ensures
            ip == Ipv4Addr(a, b, c, d),
    {
        Ipv4Addr(a, b, c, d)
    }

    /// The address whose octets are `buffer[at..at + 4]`.
    pub open spec fn at(buffer: Seq<u8>, at: int) -> Ipv4Addr {
        Ipv4Addr(buffer[at], buffer[at + 1], buffer[at + 2], buffer[at + 3])
    }

    /// Reads the address at `buffer[at..at + 4]`.
    pub fn read(buffer: &[u8], at: usize) -> (ip: Ipv4Addr)
        requires
            at + 4 <= buffer@.len(),
        ensures
            ip == Self::at(buffer@, at as int),
    {
        Ipv4Addr(buffer[at], buffer[at + 1], buffer[at + 2], buffer[at + 3])
    }

    /// Writes the address over `buffer[at..at + 4]`.
    pub fn write(self, buffer: &mut [u8], at: usize)
        requires
            at + 4 <= old(buffer)@.len(),
        ensures
            final(buffer)@ == old(buffer)@.take(at as int) + self.bytes() + old(buffer)@.skip(
                at + 4,
            ),
    {
        buffer[at] = self.0;
        buffer[at + 1] = self.1;
        buffer[at + 2] = self.2;
        buffer[at + 3] = self.3;
        assert(buffer@ =~= old(buffer)@.take(at as int) + self.bytes() + old(buffer)@.skip(
            at + 4,
        ));
    }

    pub fn to_bits(self) -> (n: u32)
        ensures
            n == self.bits(),
    {
        let a: u32 = self.0 as u32;
        let b: u32 = self.1 as u32;
        let c: u32 = self.2 as u32;
        let d: u32 = self.3 as u32;
        a * 0x100_0000 + b * 0x1_0000 + c * 0x100 + d
    }

    pub fn is_unspecified(self) -> (r: bool)
        ensures
            r == self.spec_is_unspecified(),
    {
        self.0 == 0 && self.1 == 0 && self.2 == 0 && self.3 == 0
    }

    /// Distinct addresses have distinct numbers.
    pub proof fn lemma_bits_injective(x: Ipv4Addr, y: Ipv4Addr)
        ensures
            x.bits() == y.bits() <==> x == y,
    {
    }
}

/// An IPv4 address together with a UDP port.
#[derive(Clone, Copy, Debug, PartialEq, Eq, Structural, Hash)]
pub struct SocketAddrV4 {
    pub ip: Ipv4Addr,
    pub port: u16,
}

impl SocketAddrV4 {
    pub fn new(ip: Ipv4Addr, port: u16) -> (addr: SocketAddrV4)
        ensures
            addr == (SocketAddrV4 { ip, port }),
    {
        SocketAddrV4 { ip, port }
    }

    pub fn ip(&self) -> (ip: Ipv4Addr)
        ensures
            ip == self.ip,
    {
        self.ip
    }

    pub fn port(&self) -> (port: u16)
        ensures
            port == self.port,
    {
        self.port
    }
}

/// An IPv6 address. The stack carries none; it only tells them apart.
#[derive(Clone, Copy, Debug, PartialEq, Eq, Structural, Hash)]
pub struct Ipv6Addr(pub u128);

/// An IPv6 address together with a port.
#[derive(Clone, Copy, Debug, PartialEq, Eq, Structural, Hash)]
pub struct SocketAddrV6 {
    pub ip: Ipv6Addr,
    pub port: u16,
}

/// A socket address of either family.
#[derive(Clone, Copy, Debug, PartialEq, Eq, Structural, Hash)]
pub enum SocketAddr {
    V4(SocketAddrV4),
    V6(SocketAddrV6),
}

/// The netmask of a prefix length, as `ipnetwork` computes it for `contains`.
pub open spec fn prefix_mask(prefix: u8) -> u32 {
    (!(0xffff_ffffu64 >> (prefix as u64))) as u32
}

/// Asks `ipnetwork::Ipv4Network::contains` whether `ip` lies in `addr/prefix`.
///
/// Trusted: the answer is that of comparing both addresses under the netmask
/// of the prefix, which is how the crate decides membership.
#[verifier::external_body]
fn network_contains(addr: Ipv4Addr, prefix: u8, ip: Ipv4Addr) -> (hit: bool)
    requires
        prefix <= 32,
    ensures
        hit == ((ip.bits() & prefix_mask(prefix)) == (addr.bits() & prefix_mask(prefix))),
{
    match ipnetwork::Ipv4Network::new([addr.0, addr.1, addr.2, addr.3].into(), prefix) {
        Ok(net) => net.contains([ip.0, ip.1, ip.2, ip.3].into()),
        Err(_) => false,
    }
}

/// An IPv4 address with the length of its network prefix.
#[derive(Clone, Copy, Debug, PartialEq, Eq, Structural, Hash)]
pub struct Ipv4Network {
    addr: Ipv4Addr,
    prefix: u8,
}

impl Ipv4Network {
    pub closed spec fn spec_ip(self) -> Ipv4Addr {
        self.addr
    }

    pub closed spec fn spec_prefix(self) -> u8 {
        self.prefix
    }

    /// A prefix is at most the 32 bits of an address.
    pub open spec fn wf(self) -> bool {
        self.spec_prefix() <= 32
    }

    /// `ip` agrees with the network's address on the first `prefix` bits.
    pub open spec fn spec_contains(self, ip: Ipv4Addr) -> bool {
        (ip.bits() & prefix_mask(self.spec_prefix())) == (self.spec_ip().bits() & prefix_mask(
            self.spec_prefix(),
        ))
    }

    /// The network `addr/prefix`, or `None` where the prefix exceeds 32 bits.
    pub fn new(addr: Ipv4Addr, prefix: u8) -> (net: Option<Ipv4Network>)
        ensures
            net.is_some() == (prefix <= 32),
            net matches Some(n) ==> n.wf() && n.spec_ip() == addr && n.spec_prefix() == prefix,
    {
        if prefix <= 32 {
            Some(Ipv4Network { addr, prefix })
        } else {
            None
        }
    }

    pub fn ip(&self) -> (ip: Ipv4Addr)
        ensures
            ip == self.spec_ip(),
    {
        self.addr
    }

    pub fn prefix(&self) -> (prefix: u8)
        ensures
            prefix == self.spec_prefix(),
    {
        self.prefix
    }

    pub fn contains(&self, ip: Ipv4Addr) -> (hit: bool)
        requires
            self.wf(),
        ensures
            hit == self.spec_contains(ip),
    {
        network_contains(self.addr, self.prefix, ip)
    }

    /// A network with an empty prefix holds every address.
    pub proof fn lemma_empty_prefix_contains_all(self, ip: Ipv4Addr)
        requires
            self.spec_prefix() == 0,
        ensures
            self.spec_contains(ip),
    {
        assert(prefix_mask(0) == 0) by (bit_vector);
        let a: u32 = ip.bits();
        let b: u32 = self.spec_ip().bits();
        assert(a & 0 == b & 0) by (bit_vector);
    }

    /// A network with a full prefix holds its own address and no other.
    pub proof fn lemma_full_prefix_contains_one(self, ip: Ipv4Addr)
        requires
            self.spec_prefix() == 32,
        ensures
            self.spec_contains(ip) <==> ip == self.spec_ip(),
    {
        assert(prefix_mask(32) == 0xffff_ffffu32) by (bit_vector);
        let a: u32 = ip.bits();
        let b: u32 = self.spec_ip().bits();
        assert((a & 0xffff_ffffu32 == b & 0xffff_ffffu32) <==> a == b) by (bit_vector);
        Ipv4Addr::lemma_bits_injective(ip, self.spec_ip());
    }

    /// A network holds its own address.
    pub proof fn lemma_contains_own_address(self)
        ensures
            self.spec_contains(self.spec_ip()),
    {
    }
}

/// A host network interface: its name and hardware address.
#[derive(Debug)]
pub struct Interface {
    pub name: String,
    pub mac: MacAddr,
}

impl Interface {
    /// Two interfaces are the same when name and address agree.
    pub open spec fn same(&self, other: &Interface) -> bool {
        self.name@ == other.name@ && self.mac == other.mac
    }

    pub fn new(name: String, mac: MacAddr) -> (interface: Interface)
        ensures
            interface.name@ == name@,
            interface.mac == mac,
    {
        Interface { name, mac }
    }

    pub fn is_same(&self, other: &Interface) -> (r: bool)
        ensures
            r == self.same(other),
    {
        self.name == other.name && self.mac == other.mac
    }

}

impl Clone for Interface {
    fn clone(&self) -> (copy: Interface)
        ensures
            copy.name@ == self.name@,
            copy.mac == self.mac,
    {
        Interface { name: self.name.clone(), mac: self.mac }
    }
}

} // verus!
