//! ICMP: the message builder, the sender on top of an `Ipv4Tx`, the listener
//! table and the receive-side dispatch.

use crate::addr::{Ipv4Addr, MacAddr};
use crate::checksum::{checksum, internet_checksum};
use crate::error::{TxError, TxResult};
use crate::ethernet::{ethernet_header, EtherType, EthernetBuilder, ETHERTYPE_IPV4};
use crate::ipv4::{
    ipv4_header, oversized, total_length_for, IpNextHeaderProtocol, Ipv4Builder, Ipv4Payload,
    Ipv4Tx, PROTOCOL_ICMP,
};
use crate::listener::ListenerId;
use crate::payload::{
    be_u16, lemma_single_frame, lemma_u16_round_trip, patched, put_bytes, put_u16, u16_be,
    Payload,
};
use crate::tx::{sent, TxBarrier};
use crate::util::first_n;
use vstd::prelude::*;
use vstd::slice::slice_to_vec;

verus! {

/// Bytes in front of an ICMP message's body: type, code, checksum.
pub const ICMP_HEADER_SIZE: usize = 4;

/// Largest message that one IPv4 packet's length field leaves room to name.
pub const ICMP_MAX_MESSAGE_SIZE: usize = 0xffff;

/// Type of an echo reply.
pub const ICMP_ECHO_REPLY: u8 = 0;

/// Type of an echo request.
pub const ICMP_ECHO_REQUEST: u8 = 8;

/// The type field of an ICMP message.
#[derive(Clone, Copy, Debug, PartialEq, Eq, Structural, Hash)]
pub struct IcmpType(pub u8);

/// The message with every field set but the checksum, which is 0.
pub open spec fn icmp_message_unsummed(
    icmp_type: IcmpType,
    icmp_code: u8,
    body: Seq<u8>,
) -> Seq<u8> {
    seq![icmp_type.0, icmp_code, 0u8, 0u8] + body
}

/// The complete message: the checksum covers header and body.
pub open spec fn icmp_message(icmp_type: IcmpType, icmp_code: u8, body: Seq<u8>) -> Seq<u8> {
    let unsummed = icmp_message_unsummed(icmp_type, icmp_code, body);
    let sum = u16_be(internet_checksum(unsummed, 1));
    unsummed.update(2, sum[0]).update(3, sum[1])
}

/// Whether the checksum field of `message` is the checksum of the message.
pub open spec fn icmp_checksum_valid(message: Seq<u8>) -> bool {
    &&& message.len() >= ICMP_HEADER_SIZE
    &&& be_u16(message[2], message[3]) == internet_checksum(
        message.update(2, 0u8).update(3, 0u8),
        1,
    )
}

/// Struct building ICMP messages.
#[derive(Debug)]
pub struct IcmpBuilder {
    icmp_type: IcmpType,
    icmp_code: u8,
    payload: Vec<u8>,
}

impl IcmpBuilder {
    pub closed spec fn spec_icmp_type(&self) -> IcmpType {
        self.icmp_type
    }

    pub closed spec fn spec_icmp_code(&self) -> u8 {
        self.icmp_code
    }

    /// The bytes behind the checksum: the rest of the header and the data.
    pub closed spec fn body(&self) -> Seq<u8> {
        self.payload@
    }

    /// The message that `build` writes.
    pub open spec fn message(&self) -> Seq<u8> {
        icmp_message(self.spec_icmp_type(), self.spec_icmp_code(), self.body())
    }

    /// Creates a new `IcmpBuilder` with the given parameters.
    pub fn new(icmp_type: IcmpType, icmp_code: u8, payload: Vec<u8>) -> (builder: Self)
        ensures
            builder.spec_icmp_type() == icmp_type,
            builder.spec_icmp_code() == icmp_code,
            builder.body() == payload@,
    {
        IcmpBuilder { icmp_type, icmp_code, payload }
    }
}

impl Ipv4Payload for IcmpBuilder {
    open spec fn spec_next_level_protocol(&self) -> IpNextHeaderProtocol {
        IpNextHeaderProtocol(PROTOCOL_ICMP)
    }

    fn next_level_protocol(&self) -> (protocol: IpNextHeaderProtocol) {
        IpNextHeaderProtocol(PROTOCOL_ICMP)
    }
}

impl Payload for IcmpBuilder {
    open spec fn wf(&self) -> bool {
        ICMP_HEADER_SIZE + self.body().len() <= ICMP_MAX_MESSAGE_SIZE
    }

    open spec fn spec_len(&self) -> nat {
        ICMP_HEADER_SIZE as nat + self.body().len()
    }

    /// The checksum covers the body, so the whole message has to fit.
    open spec fn min_buffer(&self) -> nat {
        self.spec_len()
    }

    open spec fn image(&self, n: nat) -> Seq<u8> {
        self.message()
    }

    open spec fn advanced(&self, n: nat) -> Self {
        *self
    }

    proof fn lemma_advanced(&self, n: nat) {
    }

    proof fn lemma_fits_own_length(&self) {
    }

    fn len(&self) -> (n: usize) {
        ICMP_HEADER_SIZE + self.payload.len()
    }

    fn build(&mut self, buffer: &mut [u8]) {
        let total: usize = ICMP_HEADER_SIZE + self.payload.len();
        let (message, rest) = buffer.split_at_mut(total);
        message[0] = self.icmp_type.0;
        message[1] = self.icmp_code;
        message[2] = 0;
        message[3] = 0;
        put_bytes(message, ICMP_HEADER_SIZE, self.payload.as_slice());
        assert(message@ =~= icmp_message_unsummed(self.icmp_type, self.icmp_code, self.payload@));
        let sum: u16 = checksum(message, 1);
        put_u16(message, 2, sum);
        proof {
            assert(message@ =~= self.message());
            assert(buffer@ =~= patched(old(buffer)@, old(self).image(old(buffer)@.len())));
        }
    }
}

/// The message that `IcmpBuilder` writes carries a valid checksum.
pub proof fn lemma_icmp_checksum_valid(icmp_type: IcmpType, icmp_code: u8, body: Seq<u8>)
    ensures
        icmp_checksum_valid(icmp_message(icmp_type, icmp_code, body)),
{
    let unsummed = icmp_message_unsummed(icmp_type, icmp_code, body);
    let sum = internet_checksum(unsummed, 1);
    assert(icmp_message(icmp_type, icmp_code, body).update(2, 0u8).update(3, 0u8) =~= unsummed);
    lemma_u16_round_trip(sum);
}

/// The frame that carries one ICMP message: Ethernet header, IPv4 header,
/// message.
pub open spec fn icmp_frame(
    src_mac: MacAddr,
    dst_mac: MacAddr,
    src: Ipv4Addr,
    dst: Ipv4Addr,
    icmp_type: IcmpType,
    icmp_code: u8,
    body: Seq<u8>,
) -> Seq<u8> {
    ethernet_header(src_mac, dst_mac, EtherType(ETHERTYPE_IPV4)) + ipv4_header(
        src,
        dst,
        0,
        IpNextHeaderProtocol(PROTOCOL_ICMP),
        total_length_for(ICMP_HEADER_SIZE + body.len()),
    ) + icmp_message(icmp_type, icmp_code, body)
}

/// What sending one message with `len` body bytes comes to: refused where it
/// does not fit one packet, else the one `frame` through the barrier.
pub open spec fn icmp_sent(
    mtu: usize,
    admitted: bool,
    pre: TxBarrier,
    post: TxBarrier,
    result: TxResult,
    len: nat,
    frame: Seq<u8>,
) -> bool {
    if oversized(mtu, ICMP_HEADER_SIZE + len) {
        &&& result == Err::<(), TxError>(TxError::OversizedPacket)
        &&& post == pre
    } else {
        sent(admitted, pre, post, result, 1, frame.len(), seq![frame])
    }
}

/// The ICMP sender on top of an IPv4 sender.
#[derive(Debug)]
pub struct IcmpTx<T: Ipv4Tx> {
    ipv4: T,
}

impl<T: Ipv4Tx> IcmpTx<T> {
    /// The IPv4 sender underneath.
    pub closed spec fn inner(&self) -> T {
        self.ipv4
    }

    /// Creates a new `IcmpTx` based on `ipv4`.
    pub fn new(ipv4: T) -> (icmp: Self)
        ensures
            icmp.inner() == ipv4,
    {
        IcmpTx { ipv4 }
    }

    /// Sends a general ICMP message: `payload` is everything behind the
    /// checksum.
    pub fn send(
        &mut self,
        barrier: &mut TxBarrier,
        icmp_type: IcmpType,
        icmp_code: u8,
        payload: &[u8],
    ) -> (result: TxResult)
        ensures
            *final(self) == *old(self),
            icmp_sent(
                old(self).inner().spec_mtu(),
                old(self).inner().admitted(old(barrier)),
                *old(barrier),
                *final(barrier),
                result,
                payload@.len(),
                icmp_frame(
                    old(self).inner().spec_src_mac(),
                    old(self).inner().spec_dst_mac(),
                    old(self).inner().spec_src(),
                    old(self).inner().spec_dst(),
                    icmp_type,
                    icmp_code,
                    payload@,
                ),
            ),
    {
        if payload.len() > ICMP_MAX_MESSAGE_SIZE - ICMP_HEADER_SIZE {
            return Err(TxError::OversizedPacket);
        }
        let builder = IcmpBuilder::new(icmp_type, icmp_code, slice_to_vec(payload));
        proof {
            let packet = Ipv4Builder {
                src: self.ipv4.spec_src(),
                dst: self.ipv4.spec_dst(),
                identification: 0,
                payload: builder,
            };
            let frame = EthernetBuilder {
                src: self.ipv4.spec_src_mac(),
                dst: self.ipv4.spec_dst_mac(),
                payload: packet,
            };
            if !oversized(self.ipv4.spec_mtu(), ICMP_HEADER_SIZE + payload@.len()) {
                assert(frame.image(frame.spec_len()) =~= icmp_frame(
                    self.ipv4.spec_src_mac(),
                    self.ipv4.spec_dst_mac(),
                    self.ipv4.spec_src(),
                    self.ipv4.spec_dst(),
                    icmp_type,
                    icmp_code,
                    payload@,
                ));
                lemma_single_frame(frame, frame.spec_len());
            }
        }
        self.ipv4.send(barrier, builder)
    }

    /// Sends an echo request, also called ping. `payload` holds the
    /// identifier, the sequence number and the data.
    pub fn send_echo(&mut self, barrier: &mut TxBarrier, payload: &[u8]) -> (result: TxResult)
        ensures
            *final(self) == *old(self),
            icmp_sent(
                old(self).inner().spec_mtu(),
                old(self).inner().admitted(old(barrier)),
                *old(barrier),
                *final(barrier),
                result,
                payload@.len(),
                icmp_frame(
                    old(self).inner().spec_src_mac(),
                    old(self).inner().spec_dst_mac(),
                    old(self).inner().spec_src(),
                    old(self).inner().spec_dst(),
                    IcmpType(ICMP_ECHO_REQUEST),
                    0,
                    payload@,
                ),
            ),
    {
        self.send(barrier, IcmpType(ICMP_ECHO_REQUEST), 0, payload)
    }
}

/// The listeners among `entries` that registered for `icmp_type`, in the
/// order in which they registered.
pub open spec fn listeners_of(
    entries: Seq<(IcmpType, ListenerId)>,
    icmp_type: IcmpType,
) -> Seq<ListenerId>
    decreases entries.len(),
{
    if entries.len() == 0 {
        Seq::empty()
    } else {
        let earlier = listeners_of(entries.drop_last(), icmp_type);
        if entries.last().0 == icmp_type {
            earlier.push(entries.last().1)
        } else {
            earlier
        }
    }
}

/// One received ICMP message and the listeners that it goes to, in order.
#[derive(Debug)]
pub struct IcmpDelivery {
    pub listeners: Vec<ListenerId>,
    pub src: Ipv4Addr,
    pub icmp_type: IcmpType,
    /// The whole message, header included.
    pub packet: Vec<u8>,
}

/// The listeners of one local address, by ICMP type.
#[derive(Debug)]
pub struct IcmpListenerLookup {
    listeners: Vec<(IcmpType, ListenerId)>,
}

impl IcmpListenerLookup {
    /// Every registration, oldest first.
    pub closed spec fn entries(&self) -> Seq<(IcmpType, ListenerId)> {
        self.listeners@
    }

    /// The listeners for `icmp_type`, in registration order.
    pub open spec fn registered(&self, icmp_type: IcmpType) -> Seq<ListenerId> {
        listeners_of(self.entries(), icmp_type)
    }

    pub fn new() -> (lookup: Self)
        ensures
            lookup.entries() == Seq::<(IcmpType, ListenerId)>::empty(),
    {
        IcmpListenerLookup { listeners: Vec::new() }
    }

    /// Registers `listener` for `icmp_type`, behind those already there.
    pub fn add(&mut self, icmp_type: IcmpType, listener: ListenerId)
        ensures
            final(self).entries() == old(self).entries().push((icmp_type, listener)),
            final(self).registered(icmp_type) == old(self).registered(icmp_type).push(listener),
            forall|other: IcmpType|
                other != icmp_type ==> final(self).registered(other) == old(self).registered(
                    other,
                ),
    {
        self.listeners.push((icmp_type, listener));
        assert(self.listeners@.drop_last() =~= old(self).listeners@);
    }

    /// The listeners for `icmp_type`, in registration order.
    pub fn get(&self, icmp_type: IcmpType) -> (found: Vec<ListenerId>)
        ensures
            found@ == self.registered(icmp_type),
    {
        let mut found: Vec<ListenerId> = Vec::new();
        let mut i: usize = 0;
        while i < self.listeners.len()
            invariant
                i <= self.listeners@.len(),
                found@ == listeners_of(first_n(self.listeners@, i), icmp_type),
            decreases self.listeners@.len() - i,
        {
            let entry = self.listeners[i];
            assert(self.listeners@.take(i + 1).drop_last() =~= first_n(self.listeners@, i));
            if entry.0 == icmp_type {
                found.push(entry.1);
            }
            i += 1;
        }
        assert(first_n(self.listeners@, i) =~= self.listeners@);
        found
    }

    /// Finds the listeners for a message that came from `src`. Every listener
    /// of the message's type gets the whole message. A packet too short to
    /// hold a header is dropped.
    pub fn recv(&self, src: Ipv4Addr, packet: &[u8]) -> (delivery: Option<IcmpDelivery>)
        ensures
            delivery.is_some() == (packet@.len() >= ICMP_HEADER_SIZE),
            delivery matches Some(d) ==> {
                &&& d.icmp_type == IcmpType(packet@[0])
                &&& d.listeners@ == self.registered(IcmpType(packet@[0]))
                &&& d.src == src
                &&& d.packet@ == packet@
            },
    {
        if packet.len() < ICMP_HEADER_SIZE {
            return None;
        }
        let icmp_type = IcmpType(packet[0]);
        Some(
            IcmpDelivery {
                listeners: self.get(icmp_type),
                src,
                icmp_type,
                packet: slice_to_vec(packet),
            },
        )
    }
}

} // verus!
