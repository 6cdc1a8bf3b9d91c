//! UDP: the datagram builder, the sender on top of an `Ipv4Tx`, the listener
//! table and the receive-side parser.

use crate::addr::{Ipv4Addr, MacAddr, SocketAddrV4};
use crate::checksum::{ipv4_checksum, pseudo_header_checksum};
use crate::error::{TxError, TxResult};
use crate::ethernet::{
    ethernet_dst, ethernet_header, ethernet_payload, ethernet_src, ethernet_type,
    lemma_ethernet_round_trip, EtherType, EthernetBuilder, ETHERNET_HEADER_SIZE, ETHERTYPE_IPV4,
};
use crate::ipv4::{
    ipv4_checksum_valid, ipv4_dst, ipv4_header, ipv4_parsable, ipv4_payload, ipv4_protocol,
    ipv4_src, lemma_ipv4_round_trip, oversized, total_length_for, IpNextHeaderProtocol,
    Ipv4Builder, Ipv4Payload, Ipv4Tx, IPV4_HEADER_SIZE, IPV4_MAX_PACKET_SIZE, PROTOCOL_UDP,
};
use crate::listener::ListenerId;
use crate::payload::{
    be_u16, frame_of, get_u16, lemma_single_frame, lemma_u16_round_trip, patched, put_bytes,
    put_u16, u16_be, zeros, Payload,
};
use crate::tx::{sent, TxBarrier};
use std::collections::HashMap;
use vstd::prelude::*;
use vstd::slice::{slice_subrange, slice_to_vec};

verus! {

broadcast use vstd::std_specs::hash::group_hash_axioms;

/// Bytes of the UDP header: ports, length, checksum.
pub const UDP_HEADER_SIZE: usize = 8;

/// Largest datagram, header included, that the 16-bit length field can hold.
pub const UDP_MAX_DATAGRAM_SIZE: usize = 0xffff;

/// The datagram with every field set but the checksum, which is 0.
pub open spec fn udp_datagram_unsummed(
    src: SocketAddrV4,
    dst: SocketAddrV4,
    payload: Seq<u8>,
) -> Seq<u8> {
    u16_be(src.port) + u16_be(dst.port) + u16_be((UDP_HEADER_SIZE + payload.len()) as u16) + seq![
        0u8,
        0u8,
    ] + payload
}

/// The complete datagram: the checksum covers the pseudo header, the UDP
/// header and the payload.
pub open spec fn udp_datagram(src: SocketAddrV4, dst: SocketAddrV4, payload: Seq<u8>) -> Seq<u8> {
    let unsummed = udp_datagram_unsummed(src, dst, payload);
    let sum = u16_be(
        pseudo_header_checksum(unsummed, 3, src.ip.bytes(), dst.ip.bytes(), PROTOCOL_UDP),
    );
    unsummed.update(6, sum[0]).update(7, sum[1])
}

/// Whether the checksum field of `datagram`, sent from `src` to `dst`, is the
/// checksum of the datagram behind its pseudo header.
pub open spec fn udp_checksum_valid(datagram: Seq<u8>, src: Ipv4Addr, dst: Ipv4Addr) -> bool {
    &&& datagram.len() >= UDP_HEADER_SIZE
    &&& be_u16(datagram[6], datagram[7]) == pseudo_header_checksum(
        datagram.update(6, 0u8).update(7, 0u8),
        3,
        src.bytes(),
        dst.bytes(),
        PROTOCOL_UDP,
    )
}

/// Struct building UDP datagrams.
#[derive(Debug)]
pub struct UdpBuilder {
    src: SocketAddrV4,
    dst: SocketAddrV4,
    payload: Vec<u8>,
}

impl UdpBuilder {
    pub closed spec fn spec_src(&self) -> SocketAddrV4 {
        self.src
    }

    pub closed spec fn spec_dst(&self) -> SocketAddrV4 {
        self.dst
    }

    /// The bytes that the datagram carries.
    pub closed spec fn data(&self) -> Seq<u8> {
        self.payload@
    }

    /// The datagram that `build` writes.
    pub open spec fn datagram(&self) -> Seq<u8> {
        udp_datagram(self.spec_src(), self.spec_dst(), self.data())
    }

    /// Creates a new `UdpBuilder` with the given parameters.
    pub fn new(src: SocketAddrV4, dst: SocketAddrV4, payload: Vec<u8>) -> (builder: Self)
        ensures
            builder.spec_src() == src,
            builder.spec_dst() == dst,
            builder.data() == payload@,
    {
        UdpBuilder { src, dst, payload }
    }
}

impl Ipv4Payload for UdpBuilder {
    open spec fn spec_next_level_protocol(&self) -> IpNextHeaderProtocol {
        IpNextHeaderProtocol(PROTOCOL_UDP)
    }

    fn next_level_protocol(&self) -> (protocol: IpNextHeaderProtocol) {
        IpNextHeaderProtocol(PROTOCOL_UDP)
    }
}

impl Payload for UdpBuilder {
    /// The datagram, header included, fits the 16-bit length field.
    open spec fn wf(&self) -> bool {
        UDP_HEADER_SIZE + self.data().len() <= UDP_MAX_DATAGRAM_SIZE
    }

    open spec fn spec_len(&self) -> nat {
        UDP_HEADER_SIZE as nat + self.data().len()
    }

    /// The checksum covers the payload, so the whole datagram has to fit.
    open spec fn min_buffer(&self) -> nat {
        self.spec_len()
    }

    open spec fn image(&self, n: nat) -> Seq<u8> {
        self.datagram()
    }

    open spec fn advanced(&self, n: nat) -> Self {
        *self
    }

    proof fn lemma_advanced(&self, n: nat) {
    }

    proof fn lemma_fits_own_length(&self) {
    }

    fn len(&self) -> (n: usize) {
        UDP_HEADER_SIZE + self.payload.len()
    }

    fn build(&mut self, buffer: &mut [u8]) {
        let total: usize = UDP_HEADER_SIZE + self.payload.len();
        let (datagram, rest) = buffer.split_at_mut(total);
        put_u16(datagram, 0, self.src.port);
        put_u16(datagram, 2, self.dst.port);
        put_u16(datagram, 4, total as u16);
        datagram[6] = 0;
        datagram[7] = 0;
        put_bytes(datagram, UDP_HEADER_SIZE, self.payload.as_slice());
        assert(datagram@ =~= udp_datagram_unsummed(self.src, self.dst, self.payload@));
        let sum: u16 = ipv4_checksum(datagram, 3, self.src.ip, self.dst.ip, PROTOCOL_UDP);
        put_u16(datagram, 6, sum);
        proof {
            assert(datagram@ =~= self.datagram());
            assert(buffer@ =~= patched(old(buffer)@, old(self).image(old(buffer)@.len())));
        }
    }
}

/// The datagram that `UdpBuilder` writes carries a valid checksum.
pub proof fn lemma_udp_checksum_valid(src: SocketAddrV4, dst: SocketAddrV4, payload: Seq<u8>)
    ensures
        udp_checksum_valid(udp_datagram(src, dst, payload), src.ip, dst.ip),
{
    let unsummed = udp_datagram_unsummed(src, dst, payload);
    let sum = pseudo_header_checksum(unsummed, 3, src.ip.bytes(), dst.ip.bytes(), PROTOCOL_UDP);
    assert(udp_datagram(src, dst, payload).update(6, 0u8).update(7, 0u8) =~= unsummed);
    lemma_u16_round_trip(sum);
}

/// The UDP sender between two ports, on top of an IPv4 sender.
#[derive(Debug)]
pub struct UdpTx<T: Ipv4Tx> {
    src: u16,
    dst: u16,
    ipv4: T,
}

impl<T: Ipv4Tx> UdpTx<T> {
    /// The IPv4 sender underneath.
    pub closed spec fn inner(&self) -> T {
        self.ipv4
    }

    pub closed spec fn spec_src_port(&self) -> u16 {
        self.src
    }

    pub closed spec fn spec_dst_port(&self) -> u16 {
        self.dst
    }

    /// The socket address that datagrams are sent from.
    pub open spec fn spec_src(&self) -> SocketAddrV4 {
        SocketAddrV4 { ip: self.inner().spec_src(), port: self.spec_src_port() }
    }

    /// The socket address that datagrams are sent to.
    pub open spec fn spec_dst(&self) -> SocketAddrV4 {
        SocketAddrV4 { ip: self.inner().spec_dst(), port: self.spec_dst_port() }
    }

    pub fn new(ipv4: T, src: u16, dst: u16) -> (udp: Self)
        ensures
            udp.inner() == ipv4,
            udp.spec_src_port() == src,
            udp.spec_dst_port() == dst,
    {
        UdpTx { src, dst, ipv4 }
    }

    /// Sends `payload` as one datagram in one IPv4 packet.
    pub fn send(&mut self, barrier: &mut TxBarrier, payload: &[u8]) -> (result: TxResult)
        ensures
            *final(self) == *old(self),
            udp_sent(
                old(self).inner().spec_mtu(),
                old(self).inner().admitted(old(barrier)),
                *old(barrier),
                *final(barrier),
                result,
                payload@.len(),
                udp_frame(
                    old(self).inner().spec_src_mac(),
                    old(self).inner().spec_dst_mac(),
                    old(self).spec_src(),
                    old(self).spec_dst(),
                    payload@,
                ),
            ),
    {
        if payload.len() > UDP_MAX_DATAGRAM_SIZE - UDP_HEADER_SIZE {
            return Err(TxError::OversizedPacket);
        }
        let src = SocketAddrV4::new(self.ipv4.src(), self.src);
        let dst = SocketAddrV4::new(self.ipv4.dst(), self.dst);
        let builder = UdpBuilder::new(src, dst, slice_to_vec(payload));
        proof {
            let packet = Ipv4Builder {
                src: self.ipv4.spec_src(),
                dst: self.ipv4.spec_dst(),
                identification: 0,
                payload: builder,
            };
            let frame = EthernetBuilder {
                src: self.ipv4.spec_src_mac(),
                dst: self.ipv4.spec_dst_mac(),
                payload: packet,
            };
            if !oversized(self.ipv4.spec_mtu(), builder.spec_len() as int) {
                assert(frame.image(frame.spec_len()) =~= udp_frame(
                    self.ipv4.spec_src_mac(),
                    self.ipv4.spec_dst_mac(),
                    self.spec_src(),
                    self.spec_dst(),
                    payload@,
                ));
                lemma_single_frame(frame, frame.spec_len());
            }
        }
        self.ipv4.send(barrier, builder)
    }
}

/// The frame that carries one UDP datagram: Ethernet header, IPv4 header,
/// datagram.
pub open spec fn udp_frame(
    src_mac: MacAddr,
    dst_mac: MacAddr,
    src: SocketAddrV4,
    dst: SocketAddrV4,
    payload: Seq<u8>,
) -> Seq<u8> {
    ethernet_header(src_mac, dst_mac, EtherType(ETHERTYPE_IPV4)) + ipv4_header(
        src.ip,
        dst.ip,
        0,
        IpNextHeaderProtocol(PROTOCOL_UDP),
        total_length_for(UDP_HEADER_SIZE + payload.len()),
    ) + udp_datagram(src, dst, payload)
}

/// What sending one datagram of `len` payload bytes comes to: refused where
/// it does not fit one packet, else the one `frame` through the barrier.
pub open spec fn udp_sent(
    mtu: usize,
    admitted: bool,
    pre: TxBarrier,
    post: TxBarrier,
    result: TxResult,
    len: nat,
    frame: Seq<u8>,
) -> bool {
    if oversized(mtu, UDP_HEADER_SIZE + len) {
        &&& result == Err::<(), TxError>(TxError::OversizedPacket)
        &&& post == pre
    } else {
        sent(admitted, pre, post, result, 1, frame.len(), seq![frame])
    }
}

/// Whether `packet` starts with a UDP header whose length field covers the
/// header and stays inside the packet.
pub open spec fn udp_parsable(packet: Seq<u8>) -> bool {
    &&& packet.len() >= UDP_HEADER_SIZE
    &&& UDP_HEADER_SIZE <= udp_length(packet) <= packet.len()
}

/// The source port field.
pub open spec fn udp_src_port(packet: Seq<u8>) -> u16 {
    be_u16(packet[0], packet[1])
}

/// The destination port field.
pub open spec fn udp_dst_port(packet: Seq<u8>) -> u16 {
    be_u16(packet[2], packet[3])
}

/// The length field: header and payload.
pub open spec fn udp_length(packet: Seq<u8>) -> u16 {
    be_u16(packet[4], packet[5])
}

/// The bytes behind the header, as far as the length field says.
pub open spec fn udp_payload(packet: Seq<u8>) -> Seq<u8> {
    packet.subrange(UDP_HEADER_SIZE as int, udp_length(packet) as int)
}

/// Parsing what `UdpBuilder` wrote gives back both ports and the payload.
pub proof fn lemma_udp_round_trip(src: SocketAddrV4, dst: SocketAddrV4, payload: Seq<u8>)
    requires
        UDP_HEADER_SIZE + payload.len() <= UDP_MAX_DATAGRAM_SIZE,
    ensures
        udp_parsable(udp_datagram(src, dst, payload)),
        udp_src_port(udp_datagram(src, dst, payload)) == src.port,
        udp_dst_port(udp_datagram(src, dst, payload)) == dst.port,
        udp_payload(udp_datagram(src, dst, payload)) == payload,
{
    let datagram = udp_datagram(src, dst, payload);
    lemma_u16_round_trip(src.port);
    lemma_u16_round_trip(dst.port);
    lemma_u16_round_trip((UDP_HEADER_SIZE + payload.len()) as u16);
    assert(datagram.len() == UDP_HEADER_SIZE + payload.len());
    assert(udp_payload(datagram) =~= payload);
}

/// One received datagram and the listener that it goes to.
#[derive(Debug)]
pub struct UdpDelivery {
    pub listener: ListenerId,
    pub src: SocketAddrV4,
    pub dst: SocketAddrV4,
    pub payload: Vec<u8>,
}

/// The listeners of one local address, by port.
#[derive(Debug)]
pub struct UdpListenerLookup {
    listeners: HashMap<u16, ListenerId>,
}

impl UdpListenerLookup {
    /// Which listener holds which port.
    pub closed spec fn bound(&self) -> Map<u16, ListenerId> {
        self.listeners@
    }

    pub fn new() -> (lookup: Self)
        ensures
            lookup.bound() == Map::<u16, ListenerId>::empty(),
    {
        UdpListenerLookup { listeners: HashMap::new() }
    }

    pub fn contains_key(&self, port: u16) -> (held: bool)
        ensures
            held == self.bound().contains_key(port),
    {
        self.listeners.contains_key(&port)
    }

    pub fn get(&self, port: u16) -> (listener: Option<ListenerId>)
        ensures
            listener == if self.bound().contains_key(port) {
                Some(self.bound()[port])
            } else {
                None
            },
    {
        match self.listeners.get(&port) {
            Some(listener) => Some(*listener),
            None => None,
        }
    }

    /// Binds `port` to `listener`, in place of whoever held it.
    pub fn insert(&mut self, port: u16, listener: ListenerId)
        ensures
            final(self).bound() == old(self).bound().insert(port, listener),
    {
        self.listeners.insert(port, listener);
    }

    /// Finds the listener for a datagram that came from `src` for `dst`.
    /// A packet that does not parse, or whose port nobody holds, is dropped.
    pub fn recv(
        &self,
        src: Ipv4Addr,
        dst: Ipv4Addr,
        packet: &[u8],
    ) -> (delivery: Option<UdpDelivery>)
        ensures
            delivery.is_some() == (udp_parsable(packet@) && self.bound().contains_key(
                udp_dst_port(packet@),
            )),
            delivery matches Some(d) ==> {
                &&& d.listener == self.bound()[udp_dst_port(packet@)]
                &&& d.src == (SocketAddrV4 { ip: src, port: udp_src_port(packet@) })
                &&& d.dst == (SocketAddrV4 { ip: dst, port: udp_dst_port(packet@) })
                &&& d.payload@ == udp_payload(packet@)
            },
    {
        if packet.len() < UDP_HEADER_SIZE {
            return None;
        }
        let src_port: u16 = get_u16(packet, 0);
        let dst_port: u16 = get_u16(packet, 2);
        let length: usize = get_u16(packet, 4) as usize;
        if length < UDP_HEADER_SIZE || length > packet.len() {
            return None;
        }
        match self.get(dst_port) {
            None => None,
            Some(listener) => {
                let payload = slice_to_vec(slice_subrange(packet, UDP_HEADER_SIZE, length));
                Some(
                    UdpDelivery {
                        listener,
                        src: SocketAddrV4::new(src, src_port),
                        dst: SocketAddrV4::new(dst, dst_port),
                        payload,
                    },
                )
            },
        }
    }
}

/// Decoding the frame that `EthernetBuilder(Ipv4Builder(UdpBuilder(P)))`
/// fills gives back `P`, both ports and all addresses, and finds both
/// checksums valid, whatever the frame's size and the packet's
/// identification.
pub proof fn lemma_udp_frame_round_trip(
    src_mac: MacAddr,
    dst_mac: MacAddr,
    identification: u16,
    udp: UdpBuilder,
    size: nat,
)
    requires
        IPV4_HEADER_SIZE + UDP_HEADER_SIZE + udp.data().len() <= IPV4_MAX_PACKET_SIZE,
        size >= ETHERNET_HEADER_SIZE + IPV4_HEADER_SIZE + UDP_HEADER_SIZE
            + udp.data().len(),
    ensures
        ({
            let builder = EthernetBuilder {
                src: src_mac,
                dst: dst_mac,
                payload: Ipv4Builder {
                    src: udp.spec_src().ip,
                    dst: udp.spec_dst().ip,
                    identification,
                    payload: udp,
                },
            };
            let frame = frame_of(builder, size);
            let packet = ethernet_payload(frame);
            let datagram = ipv4_payload(packet);
            &&& frame.len() == size
            &&& ethernet_src(frame) == src_mac
            &&& ethernet_dst(frame) == dst_mac
            &&& ethernet_type(frame) == EtherType(ETHERTYPE_IPV4)
            &&& ipv4_parsable(packet)
            &&& ipv4_checksum_valid(packet)
            &&& ipv4_src(packet) == udp.spec_src().ip
            &&& ipv4_dst(packet) == udp.spec_dst().ip
            &&& ipv4_protocol(packet) == IpNextHeaderProtocol(PROTOCOL_UDP)
            &&& udp_parsable(datagram)
            &&& udp_checksum_valid(datagram, udp.spec_src().ip, udp.spec_dst().ip)
            &&& udp_src_port(datagram) == udp.spec_src().port
            &&& udp_dst_port(datagram) == udp.spec_dst().port
            &&& udp_payload(datagram) == udp.data()
        }),
{
    let src = udp.spec_src();
    let dst = udp.spec_dst();
    let packet_builder = Ipv4Builder { src: src.ip, dst: dst.ip, identification, payload: udp };
    let builder = EthernetBuilder { src: src_mac, dst: dst_mac, payload: packet_builder };
    let frame = frame_of(builder, size);
    let link = ethernet_header(src_mac, dst_mac, EtherType(ETHERTYPE_IPV4));
    let header = ipv4_header(
        src.ip,
        dst.ip,
        identification,
        IpNextHeaderProtocol(PROTOCOL_UDP),
        total_length_for(UDP_HEADER_SIZE + udp.data().len()),
    );
    let datagram = udp_datagram(src, dst, udp.data());
    let used = link.len() + header.len() + datagram.len();
    let padding = zeros(size).skip(used as int);
    assert(builder.image(size) =~= link + header + datagram);
    assert(frame =~= link + (header + datagram + padding));
    lemma_ethernet_round_trip(
        src_mac,
        dst_mac,
        EtherType(ETHERTYPE_IPV4),
        header + datagram + padding,
    );
    lemma_ipv4_round_trip(
        src.ip,
        dst.ip,
        identification,
        IpNextHeaderProtocol(PROTOCOL_UDP),
        datagram,
        padding,
    );
    lemma_udp_round_trip(src, dst, udp.data());
    lemma_udp_checksum_valid(src, dst, udp.data());
}

} // verus!
