//! IPv4: the packet builder, the sender on top of an `EthernetTx`, and the
//! receive-side header parser.

use crate::addr::{Ipv4Addr, MacAddr};
use crate::checksum::{checksum, internet_checksum};
use crate::error::{TxError, TxResult};
use crate::ethernet::{EtherType, EthernetBuilder, EthernetPayload, EthernetTx, ETHERTYPE_IPV4};
use crate::payload::{
    be_u16, frames_of, get_u16, lemma_u16_round_trip, patched, put_u16, u16_be, Payload,
};
use crate::tx::{sent, TxBarrier};
use vstd::prelude::*;

verus! {

/// Bytes of an IPv4 header without options.
pub const IPV4_HEADER_SIZE: usize = 20;

/// Largest total length that the 16-bit length field can hold.
pub const IPV4_MAX_PACKET_SIZE: usize = 0xffff;

/// Hop limit of the packets that the stack sends.
pub const DEFAULT_TTL: u8 = 64;

/// Protocol number of ICMP.
pub const PROTOCOL_ICMP: u8 = 1;

/// Protocol number of UDP.
pub const PROTOCOL_UDP: u8 = 17;

/// The protocol number in an IPv4 header.
#[derive(Clone, Copy, Debug, PartialEq, Eq, Structural, Hash)]
pub struct IpNextHeaderProtocol(pub u8);

/// Trait for anything wishing to be the payload of an IPv4 packet.
pub trait Ipv4Payload: Payload {
    spec fn spec_next_level_protocol(&self) -> IpNextHeaderProtocol;

    fn next_level_protocol(&self) -> (protocol: IpNextHeaderProtocol)
        ensures
            protocol == self.spec_next_level_protocol(),
    ;
}

/// The header of a packet with every field set but the checksum, which is 0.
///
/// Version 4, header length 5 words, no fragmentation, TTL 64.
pub open spec fn ipv4_header_unsummed(
    src: Ipv4Addr,
    dst: Ipv4Addr,
    identification: u16,
    protocol: IpNextHeaderProtocol,
    total_length: u16,
) -> Seq<u8> {
    seq![0x45u8, 0u8] + u16_be(total_length) + u16_be(identification) + seq![
        0u8,
        0u8,
        DEFAULT_TTL,
        protocol.0,
        0u8,
        0u8,
    ] + src.bytes() + dst.bytes()
}

/// The total-length field of a packet that carries `payload_len` bytes.
pub open spec fn total_length_for(payload_len: int) -> u16 {
    (IPV4_HEADER_SIZE + payload_len) as u16
}

/// The complete header: the checksum is that of the header itself.
pub open spec fn ipv4_header(
    src: Ipv4Addr,
    dst: Ipv4Addr,
    identification: u16,
    protocol: IpNextHeaderProtocol,
    total_length: u16,
) -> Seq<u8> {
    let unsummed = ipv4_header_unsummed(src, dst, identification, protocol, total_length);
    let sum = u16_be(internet_checksum(unsummed, 5));
    unsummed.update(10, sum[0]).update(11, sum[1])
}

/// Whether the checksum field of the header at the front of `packet` is the
/// checksum of that header.
pub open spec fn ipv4_checksum_valid(packet: Seq<u8>) -> bool {
    &&& packet.len() >= IPV4_HEADER_SIZE
    &&& be_u16(packet[10], packet[11]) == internet_checksum(
        packet.take(IPV4_HEADER_SIZE as int).update(10, 0u8).update(11, 0u8),
        5,
    )
}

/// Struct building IPv4 packets.
#[derive(Debug)]
pub struct Ipv4Builder<P: Ipv4Payload> {
    pub src: Ipv4Addr,
    pub dst: Ipv4Addr,
    pub identification: u16,
    pub payload: P,
}

impl<P: Ipv4Payload> Ipv4Builder<P> {
    /// Creates a new `Ipv4Builder` with the given parameters.
    pub fn new(src: Ipv4Addr, dst: Ipv4Addr, identification: u16, payload: P) -> (builder: Self)
        ensures
            builder == (Ipv4Builder { src, dst, identification, payload }),
    {
        Ipv4Builder { src, dst, identification, payload }
    }

    /// The value of the total-length field.
    pub open spec fn total_length(&self) -> u16 {
        (IPV4_HEADER_SIZE + self.payload.spec_len()) as u16
    }

    /// The header that `build` writes.
    pub open spec fn header(&self) -> Seq<u8> {
        ipv4_header(
            self.src,
            self.dst,
            self.identification,
            self.payload.spec_next_level_protocol(),
            self.total_length(),
        )
    }
}

impl<P: Ipv4Payload> EthernetPayload for Ipv4Builder<P> {
    open spec fn spec_ether_type(&self) -> EtherType {
        EtherType(ETHERTYPE_IPV4)
    }

    proof fn lemma_ether_type_kept(&self, n: nat) {
    }

    fn ether_type(&self) -> (ether_type: EtherType) {
        EtherType(ETHERTYPE_IPV4)
    }
}

impl<P: Ipv4Payload> Payload for Ipv4Builder<P> {
    /// The packet, header included, fits the 16-bit length field.
    open spec fn wf(&self) -> bool {
        self.payload.wf() && IPV4_HEADER_SIZE + self.payload.spec_len() <= IPV4_MAX_PACKET_SIZE
    }

    open spec fn spec_len(&self) -> nat {
        IPV4_HEADER_SIZE as nat + self.payload.spec_len()
    }

    open spec fn min_buffer(&self) -> nat {
        IPV4_HEADER_SIZE as nat + self.payload.min_buffer()
    }

    /// The header, then what the payload makes of the rest of the buffer.
    open spec fn image(&self, n: nat) -> Seq<u8> {
        self.header() + self.payload.image((n - IPV4_HEADER_SIZE) as nat)
    }

    open spec fn advanced(&self, n: nat) -> Self {
        Ipv4Builder {
            src: self.src,
            dst: self.dst,
            identification: self.identification,
            payload: self.payload.advanced((n - IPV4_HEADER_SIZE) as nat),
        }
    }

    proof fn lemma_advanced(&self, n: nat) {
        self.payload.lemma_advanced((n - IPV4_HEADER_SIZE) as nat);
    }

    proof fn lemma_fits_own_length(&self) {
        self.payload.lemma_fits_own_length();
    }

    fn len(&self) -> (n: usize) {
        IPV4_HEADER_SIZE + self.payload.len()
    }

    fn build(&mut self, buffer: &mut [u8]) {
        let protocol: IpNextHeaderProtocol = self.payload.next_level_protocol();
        let total_length: u16 = (IPV4_HEADER_SIZE + self.payload.len()) as u16;
        let ghost rest: nat = (old(buffer)@.len() - IPV4_HEADER_SIZE) as nat;
        let (header, body) = buffer.split_at_mut(IPV4_HEADER_SIZE);
        header[0] = 0x45;
        header[1] = 0;
        put_u16(header, 2, total_length);
        put_u16(header, 4, self.identification);
        header[6] = 0;
        header[7] = 0;
        header[8] = DEFAULT_TTL;
        header[9] = protocol.0;
        header[10] = 0;
        header[11] = 0;
        header[12] = self.src.0;
        header[13] = self.src.1;
        header[14] = self.src.2;
        header[15] = self.src.3;
        header[16] = self.dst.0;
        header[17] = self.dst.1;
        header[18] = self.dst.2;
        header[19] = self.dst.3;
        assert(header@ =~= ipv4_header_unsummed(
            self.src,
            self.dst,
            self.identification,
            protocol,
            total_length,
        ));
        let sum: u16 = checksum(header, 5);
        put_u16(header, 10, sum);
        self.payload.build(body);
        proof {
            old(self).payload.lemma_advanced(rest);
            assert(header@ =~= old(self).header());
            assert(buffer@ =~= patched(old(buffer)@, old(self).image(old(buffer)@.len())));
        }
    }
}

/// The header that `Ipv4Builder` writes carries a valid checksum.
pub proof fn lemma_ipv4_header_checksum_valid(
    src: Ipv4Addr,
    dst: Ipv4Addr,
    identification: u16,
    protocol: IpNextHeaderProtocol,
    total_length: u16,
    rest: Seq<u8>,
)
    ensures
        ipv4_checksum_valid(
            ipv4_header(src, dst, identification, protocol, total_length) + rest,
        ),
{
    let unsummed = ipv4_header_unsummed(src, dst, identification, protocol, total_length);
    let header = ipv4_header(src, dst, identification, protocol, total_length);
    let packet = header + rest;
    let sum = internet_checksum(unsummed, 5);
    assert(packet.take(IPV4_HEADER_SIZE as int) =~= header);
    assert(header.update(10, 0u8).update(11, 0u8) =~= unsummed);
    lemma_u16_round_trip(sum);
}

/// Something that IPv4 packets can be sent through.
pub trait Ipv4Tx: Sized {
    spec fn spec_src(&self) -> Ipv4Addr;

    spec fn spec_dst(&self) -> Ipv4Addr;

    /// The hardware addresses that the packets travel between.
    spec fn spec_src_mac(&self) -> MacAddr;

    spec fn spec_dst_mac(&self) -> MacAddr;

    /// Largest packet, header included, that goes out in one frame.
    spec fn spec_mtu(&self) -> usize;

    /// Whether `barrier` still lets this sender through.
    spec fn admitted(&self, barrier: &TxBarrier) -> bool;

    fn src(&self) -> (src: Ipv4Addr)
        ensures
            src == self.spec_src(),
    ;

    fn dst(&self) -> (dst: Ipv4Addr)
        ensures
            dst == self.spec_dst(),
    ;

    /// Sends `payload` as one packet. A payload that does not fit the MTU, or
    /// the 16-bit length field, is refused: packets are never fragmented.
    fn send<P: Ipv4Payload>(&mut self, barrier: &mut TxBarrier, payload: P) -> (result: TxResult)
        requires
            payload.wf(),
        ensures
            *final(self) == *old(self),
            ipv4_sent(
                old(self).spec_mtu(),
                old(self).admitted(old(barrier)),
                *old(barrier),
                *final(barrier),
                result,
                EthernetBuilder {
                    src: old(self).spec_src_mac(),
                    dst: old(self).spec_dst_mac(),
                    payload: Ipv4Builder {
                        src: old(self).spec_src(),
                        dst: old(self).spec_dst(),
                        identification: 0,
                        payload,
                    },
                },
            ),
    ;
}

/// Whether a payload of `len` bytes is too long for one packet under `mtu`.
pub open spec fn oversized(mtu: usize, len: int) -> bool {
    IPV4_HEADER_SIZE + len > mtu || IPV4_HEADER_SIZE + len > IPV4_MAX_PACKET_SIZE
}

/// What sending one IPv4 packet comes to: refused where the payload is
/// oversized, else one frame of exactly header plus payload through the
/// barrier.
pub open spec fn ipv4_sent<P: Ipv4Payload>(
    mtu: usize,
    admitted: bool,
    pre: TxBarrier,
    post: TxBarrier,
    result: TxResult,
    frame: EthernetBuilder<Ipv4Builder<P>>,
) -> bool {
    if oversized(mtu, frame.payload.payload.spec_len() as int) {
        &&& result == Err::<(), TxError>(TxError::OversizedPacket)
        &&& post == pre
    } else {
        sent(
            admitted,
            pre,
            post,
            result,
            1,
            frame.spec_len(),
            frames_of(frame, 1, frame.spec_len()),
        )
    }
}

/// The IPv4 sender of an interface: packets from `src` to `dst`, none larger
/// than `mtu`.
#[derive(Debug)]
pub struct Ipv4TxImpl<E: EthernetTx> {
    src: Ipv4Addr,
    dst: Ipv4Addr,
    mtu: usize,
    ethernet: E,
}

impl<E: EthernetTx> Ipv4TxImpl<E> {
    /// The Ethernet sender underneath.
    pub closed spec fn inner(&self) -> E {
        self.ethernet
    }

    pub fn new(ethernet: E, src: Ipv4Addr, dst: Ipv4Addr, mtu: usize) -> (ipv4: Self)
        ensures
            ipv4.inner() == ethernet,
            ipv4.spec_src() == src,
            ipv4.spec_dst() == dst,
            ipv4.spec_mtu() == mtu,
    {
        Ipv4TxImpl { src, dst, mtu, ethernet }
    }

    pub fn mtu(&self) -> (mtu: usize)
        ensures
            mtu == self.spec_mtu(),
    {
        self.mtu
    }
}

impl<E: EthernetTx> Ipv4Tx for Ipv4TxImpl<E> {
    closed spec fn spec_src(&self) -> Ipv4Addr {
        self.src
    }

    closed spec fn spec_dst(&self) -> Ipv4Addr {
        self.dst
    }

    open spec fn spec_src_mac(&self) -> MacAddr {
        self.inner().spec_src()
    }

    open spec fn spec_dst_mac(&self) -> MacAddr {
        self.inner().spec_dst()
    }

    closed spec fn spec_mtu(&self) -> usize {
        self.mtu
    }

    open spec fn admitted(&self, barrier: &TxBarrier) -> bool {
        self.inner().admitted(barrier)
    }

    fn src(&self) -> (src: Ipv4Addr) {
        self.src
    }

    fn dst(&self) -> (dst: Ipv4Addr) {
        self.dst
    }

    fn send<P: Ipv4Payload>(&mut self, barrier: &mut TxBarrier, payload: P) -> (result: TxResult) {
        let len: usize = payload.len();
        let limit: usize = if self.mtu < IPV4_MAX_PACKET_SIZE {
            self.mtu
        } else {
            IPV4_MAX_PACKET_SIZE
        };
        if limit < IPV4_HEADER_SIZE || len > limit - IPV4_HEADER_SIZE {
            return Err(TxError::OversizedPacket);
        }
        proof {
            payload.lemma_fits_own_length();
        }
        let builder = Ipv4Builder::new(self.src, self.dst, 0, payload);
        self.ethernet.send(barrier, 1, IPV4_HEADER_SIZE + len, builder)
    }
}

/// The version field: the high four bits of the first byte.
pub open spec fn ipv4_version(packet: Seq<u8>) -> int {
    (packet[0] / 16) as int
}

/// The header length in bytes: the low four bits of the first byte count
/// 32-bit words.
pub open spec fn ipv4_header_len(packet: Seq<u8>) -> int {
    (packet[0] % 16) * 4
}

/// The total-length field: header and payload.
pub open spec fn ipv4_total_length(packet: Seq<u8>) -> int {
    be_u16(packet[2], packet[3]) as int
}

/// Whether `packet` starts with an IPv4 packet: version 4, a header of at
/// least 20 bytes inside the total length, the total length inside `packet`.
pub open spec fn ipv4_parsable(packet: Seq<u8>) -> bool {
    &&& packet.len() >= IPV4_HEADER_SIZE
    &&& ipv4_version(packet) == 4
    &&& IPV4_HEADER_SIZE <= ipv4_header_len(packet) <= ipv4_total_length(packet) <= packet.len()
}

/// The protocol field.
pub open spec fn ipv4_protocol(packet: Seq<u8>) -> IpNextHeaderProtocol {
    IpNextHeaderProtocol(packet[9])
}

/// The source address field.
pub open spec fn ipv4_src(packet: Seq<u8>) -> Ipv4Addr {
    Ipv4Addr::at(packet, 12)
}

/// The destination address field.
pub open spec fn ipv4_dst(packet: Seq<u8>) -> Ipv4Addr {
    Ipv4Addr::at(packet, 16)
}

/// The bytes between the header and the end that the total length names.
pub open spec fn ipv4_payload(packet: Seq<u8>) -> Seq<u8> {
    packet.subrange(ipv4_header_len(packet), ipv4_total_length(packet))
}

/// Parsing what `Ipv4Builder` wrote in front of `payload` gives back the
/// addresses, the protocol and the payload, whatever follows the packet.
pub proof fn lemma_ipv4_round_trip(
    src: Ipv4Addr,
    dst: Ipv4Addr,
    identification: u16,
    protocol: IpNextHeaderProtocol,
    payload: Seq<u8>,
    padding: Seq<u8>,
)
    requires
        IPV4_HEADER_SIZE + payload.len() <= IPV4_MAX_PACKET_SIZE,
    ensures
        ({
            let header = ipv4_header(
                src,
                dst,
                identification,
                protocol,
                total_length_for(payload.len() as int),
            );
            let packet = header + payload + padding;
            &&& header.len() == IPV4_HEADER_SIZE
            &&& ipv4_parsable(packet)
            &&& ipv4_src(packet) == src
            &&& ipv4_dst(packet) == dst
            &&& ipv4_protocol(packet) == protocol
            &&& ipv4_payload(packet) == payload
            &&& ipv4_checksum_valid(packet)
        }),
{
    let total = total_length_for(payload.len() as int);
    let header = ipv4_header(src, dst, identification, protocol, total);
    let packet = header + payload + padding;
    lemma_u16_round_trip(total);
    assert(packet[0] == 0x45u8);
    assert(packet[2] == u16_be(total)[0]);
    assert(packet[3] == u16_be(total)[1]);
    assert(ipv4_payload(packet) =~= payload);
    lemma_ipv4_header_checksum_valid(src, dst, identification, protocol, total, payload + padding);
    assert(header + (payload + padding) =~= packet);
}

/// The fields of a received packet's header that the stack acts on.
#[derive(Clone, Copy, Debug, PartialEq, Eq, Structural)]
pub struct Ipv4Header {
    pub src: Ipv4Addr,
    pub dst: Ipv4Addr,
    pub protocol: IpNextHeaderProtocol,
    /// Where the payload starts.
    pub header_len: usize,
    /// Where the payload ends.
    pub total_length: usize,
}

/// Reads the header at the front of `packet`, if it is an IPv4 packet.
pub fn parse_ipv4(packet: &[u8]) -> (header: Option<Ipv4Header>)
    ensures
        header.is_some() == ipv4_parsable(packet@),
        header matches Some(h) ==> {
            &&& h.src == ipv4_src(packet@)
            &&& h.dst == ipv4_dst(packet@)
            &&& h.protocol == ipv4_protocol(packet@)
            &&& h.header_len == ipv4_header_len(packet@)
            &&& h.total_length == ipv4_total_length(packet@)
        },
{
    if packet.len() < IPV4_HEADER_SIZE {
        return None;
    }
    let first: u8 = packet[0];
    if first / 16 != 4 {
        return None;
    }
    let header_len: usize = ((first % 16) as usize) * 4;
    let total_length: usize = get_u16(packet, 2) as usize;
    if header_len < IPV4_HEADER_SIZE || header_len > total_length || total_length > packet.len() {
        return None;
    }
    Some(
        Ipv4Header {
            src: Ipv4Addr::read(packet, 12),
            dst: Ipv4Addr::read(packet, 16),
            protocol: IpNextHeaderProtocol(packet[9]),
            header_len,
            total_length,
        },
    )
}

} // verus!
