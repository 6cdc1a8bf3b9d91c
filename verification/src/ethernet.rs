//! Ethernet II: the frame builder, the sender on top of a `Tx`, and the
//! receive-side header parser.

use crate::addr::MacAddr;
use crate::error::TxResult;
use crate::payload::{
    advanced_by, be_u16, frame_of, frames_of, get_u16, lemma_advanced_by, lemma_frame_at,
    lemma_u16_round_trip, patched, put_u16, u16_be, Payload,
};
use crate::tx::{sent, Tx, TxBarrier};
use vstd::prelude::*;

verus! {

/// Bytes of the Ethernet II header: destination, source, EtherType.
pub const ETHERNET_HEADER_SIZE: usize = 14;

/// The EtherType of IPv4.
pub const ETHERTYPE_IPV4: u16 = 0x0800;

/// The EtherType of ARP.
pub const ETHERTYPE_ARP: u16 = 0x0806;

/// The protocol number in an Ethernet header's last field.
#[derive(Clone, Copy, Debug, PartialEq, Eq, Structural, Hash)]
pub struct EtherType(pub u16);

/// Trait for anything wishing to be the payload of an Ethernet frame.
pub trait EthernetPayload: Payload {
    spec fn spec_ether_type(&self) -> EtherType;

    /// A payload names the same protocol on every frame of a send.
    proof fn lemma_ether_type_kept(&self, n: nat)
        ensures
            self.advanced(n).spec_ether_type() == self.spec_ether_type(),
    ;

    fn ether_type(&self) -> (ether_type: EtherType)
        ensures
            ether_type == self.spec_ether_type(),
    ;
}

/// Basic reference implementation of an `EthernetPayload`.
/// Can be used to construct Ethernet frames with arbitrary payload from a
/// vector. A payload longer than one buffer is streamed: each `build` goes on
/// where the one before stopped.
#[derive(Debug)]
pub struct BasicEthernetPayload {
    ether_type: EtherType,
    offset: usize,
    payload: Vec<u8>,
}

impl BasicEthernetPayload {
    /// All bytes of the payload.
    pub closed spec fn data(&self) -> Seq<u8> {
        self.payload@
    }

    /// Number of bytes that earlier builds have written.
    pub closed spec fn spec_offset(&self) -> nat {
        self.offset as nat
    }

    /// Where a build into `n` bytes stops.
    pub open spec fn end(&self, n: nat) -> nat {
        if self.spec_offset() + n <= self.data().len() {
            self.spec_offset() + n
        } else {
            self.data().len()
        }
    }

    pub fn new(ether_type: EtherType, payload: Vec<u8>) -> (basic: BasicEthernetPayload)
        ensures
            basic.wf(),
            basic.spec_ether_type() == ether_type,
            basic.data() == payload@,
            basic.spec_offset() == 0,
    {
        BasicEthernetPayload { ether_type, offset: 0, payload }
    }
}

impl EthernetPayload for BasicEthernetPayload {
    closed spec fn spec_ether_type(&self) -> EtherType {
        self.ether_type
    }

    proof fn lemma_ether_type_kept(&self, n: nat) {
    }

    fn ether_type(&self) -> (ether_type: EtherType) {
        self.ether_type
    }
}

impl Payload for BasicEthernetPayload {
    open spec fn wf(&self) -> bool {
        self.spec_offset() <= self.data().len()
    }

    open spec fn spec_len(&self) -> nat {
        self.data().len()
    }

    open spec fn min_buffer(&self) -> nat {
        0
    }

    open spec fn image(&self, n: nat) -> Seq<u8> {
        self.data().subrange(self.spec_offset() as int, self.end(n) as int)
    }

    closed spec fn advanced(&self, n: nat) -> Self {
        BasicEthernetPayload {
            ether_type: self.ether_type,
            offset: self.end(n) as usize,
            payload: self.payload,
        }
    }

    proof fn lemma_advanced(&self, n: nat) {
    }

    proof fn lemma_fits_own_length(&self) {
    }

    fn len(&self) -> (n: usize) {
        self.payload.len()
    }

    fn build(&mut self, buffer: &mut [u8]) {
        let start: usize = self.offset;
        let total: usize = self.payload.len();
        let room: usize = total - start;
        let count: usize = if buffer.len() < room {
            buffer.len()
        } else {
            room
        };
        let mut i: usize = 0;
        while i < count
            invariant
                i <= count,
                total == self.payload@.len(),
                start + count <= total,
                count <= buffer@.len(),
                buffer@.len() == old(buffer)@.len(),
                self.payload == old(self).payload,
                self.ether_type == old(self).ether_type,
                self.offset == start,
                forall|k: int| 0 <= k < i ==> buffer@[k] == self.payload@[start + k],
                forall|k: int| i <= k < buffer@.len() ==> buffer@[k] == old(buffer)@[k],
            decreases count - i,
        {
            buffer[i] = self.payload[start + i];
            i += 1;
        }
        self.offset = start + count;
        assert(buffer@ =~= patched(old(buffer)@, old(self).image(old(buffer)@.len())));
    }
}

impl BasicEthernetPayload {
    /// What the builder has become after a build into `n` bytes: the same
    /// bytes and protocol, the offset moved to where the build stopped.
    pub proof fn lemma_advanced_fields(&self, n: nat)
        requires
            self.wf(),
        ensures
            self.advanced(n).data() == self.data(),
            self.advanced(n).spec_offset() == self.end(n),
            self.advanced(n).spec_ether_type() == self.spec_ether_type(),
    {
        assert(self.payload.len() == self.payload@.len());
    }
}

/// The 14 header bytes of a frame from `src` to `dst` carrying `ether_type`.
pub open spec fn ethernet_header(src: MacAddr, dst: MacAddr, ether_type: EtherType) -> Seq<u8> {
    dst.bytes() + src.bytes() + u16_be(ether_type.0)
}

/// Struct building Ethernet frames.
#[derive(Debug)]
pub struct EthernetBuilder<P: EthernetPayload> {
    pub src: MacAddr,
    pub dst: MacAddr,
    pub payload: P,
}

impl<P: EthernetPayload> EthernetBuilder<P> {
    /// Creates a new `EthernetBuilder` with the given parameters.
    pub fn new(src: MacAddr, dst: MacAddr, payload: P) -> (builder: Self)
        ensures
            builder == (EthernetBuilder { src, dst, payload }),
    {
        EthernetBuilder { src, dst, payload }
    }
}

impl<P: EthernetPayload> Payload for EthernetBuilder<P> {
    open spec fn wf(&self) -> bool {
        self.payload.wf() && ETHERNET_HEADER_SIZE + self.payload.spec_len() <= usize::MAX
    }

    open spec fn spec_len(&self) -> nat {
        ETHERNET_HEADER_SIZE as nat + self.payload.spec_len()
    }

    open spec fn min_buffer(&self) -> nat {
        ETHERNET_HEADER_SIZE as nat + self.payload.min_buffer()
    }

    /// The header, then what the payload makes of the rest of the buffer.
    open spec fn image(&self, n: nat) -> Seq<u8> {
        ethernet_header(self.src, self.dst, self.payload.spec_ether_type()) + self.payload.image(
            (n - ETHERNET_HEADER_SIZE) as nat,
        )
    }

    open spec fn advanced(&self, n: nat) -> Self {
        EthernetBuilder {
            src: self.src,
            dst: self.dst,
            payload: self.payload.advanced((n - ETHERNET_HEADER_SIZE) as nat),
        }
    }

    proof fn lemma_advanced(&self, n: nat) {
        self.payload.lemma_advanced((n - ETHERNET_HEADER_SIZE) as nat);
    }

    proof fn lemma_fits_own_length(&self) {
        self.payload.lemma_fits_own_length();
    }

    fn len(&self) -> (n: usize) {
        ETHERNET_HEADER_SIZE + self.payload.len()
    }

    /// Modifies `buffer` to have the correct header and payload.
    fn build(&mut self, buffer: &mut [u8]) {
        let ether_type: EtherType = self.payload.ether_type();
        let ghost rest: nat = (old(buffer)@.len() - ETHERNET_HEADER_SIZE) as nat;
        let (header, body) = buffer.split_at_mut(ETHERNET_HEADER_SIZE);
        header[0] = self.dst.0;
        header[1] = self.dst.1;
        header[2] = self.dst.2;
        header[3] = self.dst.3;
        header[4] = self.dst.4;
        header[5] = self.dst.5;
        header[6] = self.src.0;
        header[7] = self.src.1;
        header[8] = self.src.2;
        header[9] = self.src.3;
        header[10] = self.src.4;
        header[11] = self.src.5;
        put_u16(header, 12, ether_type.0);
        self.payload.build(body);
        proof {
            old(self).payload.lemma_advanced(rest);
            assert(header@ =~= ethernet_header(self.src, self.dst, ether_type));
            assert(buffer@ =~= patched(old(buffer)@, old(self).image(old(buffer)@.len())));
        }
    }
}

/// However many frames an `EthernetBuilder` has built, it goes on with the
/// same addresses and the same protocol.
pub proof fn lemma_builder_keeps_header<P: EthernetPayload>(
    builder: EthernetBuilder<P>,
    count: nat,
    size: nat,
)
    requires
        builder.wf(),
        builder.min_buffer() <= size,
    ensures
        advanced_by(builder, count, size).src == builder.src,
        advanced_by(builder, count, size).dst == builder.dst,
        advanced_by(builder, count, size).payload.spec_ether_type()
            == builder.payload.spec_ether_type(),
    decreases count,
{
    if count > 0 {
        let before = advanced_by(builder, (count - 1) as nat, size);
        lemma_builder_keeps_header(builder, (count - 1) as nat, size);
        before.payload.lemma_ether_type_kept((size - ETHERNET_HEADER_SIZE) as nat);
    }
}

/// Every frame of a send has the size that was asked for and starts with the
/// same header.
pub proof fn lemma_every_frame_has_header<P: EthernetPayload>(
    builder: EthernetBuilder<P>,
    count: nat,
    size: nat,
    k: int,
)
    requires
        builder.wf(),
        builder.min_buffer() <= size,
        0 <= k < count,
    ensures
        frames_of(builder, count, size)[k].len() == size,
        frames_of(builder, count, size)[k].take(ETHERNET_HEADER_SIZE as int) == ethernet_header(
            builder.src,
            builder.dst,
            builder.payload.spec_ether_type(),
        ),
{
    let at = advanced_by(builder, k as nat, size);
    lemma_frame_at(builder, count, size, k);
    lemma_advanced_by(builder, k as nat, size);
    lemma_builder_keeps_header(builder, k as nat, size);
    at.lemma_advanced(size);
    let header = ethernet_header(builder.src, builder.dst, builder.payload.spec_ether_type());
    assert(frame_of(at, size).take(ETHERNET_HEADER_SIZE as int) =~= header);
}

/// Something that Ethernet frames can be sent through.
pub trait EthernetTx: Sized {
    spec fn spec_src(&self) -> MacAddr;

    spec fn spec_dst(&self) -> MacAddr;

    /// Whether `barrier` still lets this sender through.
    spec fn admitted(&self, barrier: &TxBarrier) -> bool;

    fn src(&self) -> (src: MacAddr)
        ensures
            src == self.spec_src(),
    ;

    fn dst(&self) -> (dst: MacAddr)
        ensures
            dst == self.spec_dst(),
    ;

    /// Sends `packets` frames whose payload region has `size` bytes.
    fn send<P: EthernetPayload>(
        &mut self,
        barrier: &mut TxBarrier,
        packets: usize,
        size: usize,
        payload: P,
    ) -> (result: TxResult)
        requires
            payload.wf(),
            payload.min_buffer() <= size,
            ETHERNET_HEADER_SIZE + payload.spec_len() <= usize::MAX,
            ETHERNET_HEADER_SIZE + size <= usize::MAX,
        ensures
            *final(self) == *old(self),
            sent(
                old(self).admitted(old(barrier)),
                *old(barrier),
                *final(barrier),
                result,
                packets as nat,
                (size + ETHERNET_HEADER_SIZE) as nat,
                frames_of(
                    EthernetBuilder {
                        src: old(self).spec_src(),
                        dst: old(self).spec_dst(),
                        payload,
                    },
                    packets as nat,
                    (size + ETHERNET_HEADER_SIZE) as nat,
                ),
            ),
    ;
}

/// The Ethernet sender of an interface: frames from `src` to `dst`.
#[derive(Debug)]
pub struct EthernetTxImpl<T: Tx> {
    src: MacAddr,
    dst: MacAddr,
    tx: T,
}

impl<T: Tx> EthernetTxImpl<T> {
    /// The sender underneath.
    pub closed spec fn inner(&self) -> T {
        self.tx
    }

    pub fn new(tx: T, src: MacAddr, dst: MacAddr) -> (ethernet: Self)
        ensures
            ethernet.inner() == tx,
            ethernet.spec_src() == src,
            ethernet.spec_dst() == dst,
    {
        EthernetTxImpl { src, dst, tx }
    }
}

impl<T: Tx> EthernetTx for EthernetTxImpl<T> {
    closed spec fn spec_src(&self) -> MacAddr {
        self.src
    }

    closed spec fn spec_dst(&self) -> MacAddr {
        self.dst
    }

    open spec fn admitted(&self, barrier: &TxBarrier) -> bool {
        self.inner().admitted(barrier)
    }

    fn src(&self) -> (src: MacAddr) {
        self.src
    }

    fn dst(&self) -> (dst: MacAddr) {
        self.dst
    }

    /// Send ethernet packets to the network.
    ///
    /// For every packet, all `header_size+size` bytes will be sent, no
    /// matter how small payload is provided. So in total
    /// `packets * (header_size+size)` bytes will be sent. This is usually not
    /// a problem since the IP layer has the length in the header and the extra
    /// bytes should thus not cause any trouble.
    fn send<P: EthernetPayload>(
        &mut self,
        barrier: &mut TxBarrier,
        packets: usize,
        size: usize,
        payload: P,
    ) -> (result: TxResult) {
        let builder = EthernetBuilder::new(self.src, self.dst, payload);
        let total_size: usize = size + ETHERNET_HEADER_SIZE;
        self.tx.send(barrier, packets, total_size, builder)
    }
}

/// The destination address of a frame of at least 14 bytes.
pub open spec fn ethernet_dst(frame: Seq<u8>) -> MacAddr {
    MacAddr::at(frame, 0)
}

/// The source address of a frame of at least 14 bytes.
pub open spec fn ethernet_src(frame: Seq<u8>) -> MacAddr {
    MacAddr::at(frame, 6)
}

/// The protocol of a frame of at least 14 bytes.
pub open spec fn ethernet_type(frame: Seq<u8>) -> EtherType {
    EtherType(be_u16(frame[12], frame[13]))
}

/// The bytes behind the header.
pub open spec fn ethernet_payload(frame: Seq<u8>) -> Seq<u8> {
    frame.skip(ETHERNET_HEADER_SIZE as int)
}

/// Parsing a header followed by `payload` gives back what was put in.
pub proof fn lemma_ethernet_round_trip(
    src: MacAddr,
    dst: MacAddr,
    ether_type: EtherType,
    payload: Seq<u8>,
)
    ensures
        ethernet_header(src, dst, ether_type).len() == ETHERNET_HEADER_SIZE,
        ethernet_dst(ethernet_header(src, dst, ether_type) + payload) == dst,
        ethernet_src(ethernet_header(src, dst, ether_type) + payload) == src,
        ethernet_type(ethernet_header(src, dst, ether_type) + payload) == ether_type,
        ethernet_payload(ethernet_header(src, dst, ether_type) + payload) == payload,
{
    lemma_u16_round_trip(ether_type.0);
    assert(ethernet_payload(ethernet_header(src, dst, ether_type) + payload) =~= payload);
}

/// The fields of a received frame's header.
#[derive(Clone, Copy, Debug, PartialEq, Eq, Structural)]
pub struct EthernetHeader {
    pub dst: MacAddr,
    pub src: MacAddr,
    pub ether_type: EtherType,
}

/// Reads the header of `frame`; a frame shorter than a header has none.
pub fn parse_ethernet(frame: &[u8]) -> (header: Option<EthernetHeader>)
    ensures
        header == if frame@.len() >= ETHERNET_HEADER_SIZE {
            Some(
                EthernetHeader {
                    dst: ethernet_dst(frame@),
                    src: ethernet_src(frame@),
                    ether_type: ethernet_type(frame@),
                },
            )
        } else {
            None
        },
{
    if frame.len() < ETHERNET_HEADER_SIZE {
        None
    } else {
        Some(
            EthernetHeader {
                dst: MacAddr::read(frame, 0),
                src: MacAddr::read(frame, 6),
                ether_type: EtherType(get_u16(frame, 12)),
            },
        )
    }
}

/// Who takes the frames of one protocol on an interface.
#[derive(Clone, Copy, Debug, PartialEq, Eq, Structural)]
pub enum EthernetListener {
    /// The ARP receiver.
    Arp,
    /// The IPv4 receiver.
    Ipv4,
}

impl EthernetListener {
    /// The protocol that the listener advertises.
    pub open spec fn spec_ether_type(self) -> EtherType {
        match self {
            EthernetListener::Arp => EtherType(ETHERTYPE_ARP),
            EthernetListener::Ipv4 => EtherType(ETHERTYPE_IPV4),
        }
    }

    pub fn ether_type(self) -> (ether_type: EtherType)
        ensures
            ether_type == self.spec_ether_type(),
    {
        match self {
            EthernetListener::Arp => EtherType(ETHERTYPE_ARP),
            EthernetListener::Ipv4 => EtherType(ETHERTYPE_IPV4),
        }
    }
}

/// The listeners among `listeners` that advertise `ether_type`, in the order
/// in which they were registered.
pub open spec fn matching_listeners(
    listeners: Seq<EthernetListener>,
    ether_type: EtherType,
) -> Seq<EthernetListener> {
    listeners.filter(|l: EthernetListener| l.spec_ether_type() == ether_type)
}

/// Receiver and parser of Ethernet frames: finds the listeners that a frame
/// goes to.
#[derive(Debug)]
pub struct EthernetRx {
    listeners: Vec<EthernetListener>,
}

impl EthernetRx {
    /// The listeners, in registration order.
    pub closed spec fn listeners(&self) -> Seq<EthernetListener> {
        self.listeners@
    }

    /// The listeners that `frame` goes to, in registration order. A frame
    /// too short for a header goes to nobody.
    pub open spec fn spec_recv(&self, frame: Seq<u8>) -> Seq<EthernetListener> {
        if frame.len() >= ETHERNET_HEADER_SIZE {
            matching_listeners(self.listeners(), ethernet_type(frame))
        } else {
            Seq::empty()
        }
    }

    pub fn new(listeners: Vec<EthernetListener>) -> (rx: Self)
        ensures
            rx.listeners() == listeners@,
    {
        EthernetRx { listeners }
    }

    pub fn recv(&self, frame: &[u8]) -> (takers: Vec<EthernetListener>)
        ensures
            takers@ == self.spec_recv(frame@),
    {
        let mut takers: Vec<EthernetListener> = Vec::new();
        match parse_ethernet(frame) {
            None => {},
            Some(header) => {
                let ghost wanted = |l: EthernetListener| l.spec_ether_type() == header.ether_type;
                let mut i: usize = 0;
                assert(self.listeners@.take(0).filter(wanted) =~= Seq::<EthernetListener>::empty());
                while i < self.listeners.len()
                    invariant
                        i <= self.listeners@.len(),
                        wanted == |l: EthernetListener| l.spec_ether_type() == header.ether_type,
                        takers@ == self.listeners@.take(i as int).filter(wanted),
                    decreases self.listeners@.len() - i,
                {
                    let listener = self.listeners[i];
                    proof {
                        assert(self.listeners@.take(i + 1) =~= self.listeners@.take(i as int).push(
                            listener,
                        ));
                        self.listeners@.take(i as int).lemma_filter_push(listener, wanted);
                    }
                    if listener.ether_type() == header.ether_type {
                        takers.push(listener);
                    }
                    i += 1;
                }
                assert(self.listeners@.take(i as int) =~= self.listeners@);
            },
        }
        takers
    }
}

} // verus!
