//! ARP: the table with its waiters, the packet builder, the request and
//! reply senders, and the receive-side parser.

use crate::addr::{Ipv4Addr, MacAddr};
use crate::error::TxResult;
use crate::ethernet::{
    ethernet_header, EtherType, EthernetBuilder, EthernetPayload, EthernetTx,
    ETHERNET_HEADER_SIZE, ETHERTYPE_ARP,
};
use crate::interface::StackInterfaceMsg;
use crate::payload::{
    be_u16, get_u16, lemma_single_frame, lemma_u16_round_trip, patched, put_u16, u16_be, Payload,
};
use crate::tx::{sent, TxBarrier};
use crate::util::wrapping_next;
use std::collections::HashMap;
use vstd::prelude::*;

verus! {

broadcast use vstd::std_specs::hash::group_hash_axioms;

/// Bytes of an ARP packet for IPv4 over Ethernet.
pub const ARP_PACKET_SIZE: usize = 28;

/// Operation of a request.
pub const ARP_REQUEST: u16 = 1;

/// Operation of a reply.
pub const ARP_REPLY: u16 = 2;

/// Names one caller that waits for an address to be resolved.
#[derive(Clone, Copy, Debug, PartialEq, Eq, Structural, Hash)]
pub struct WaiterId(pub u64);

/// Tells `waiter` that the address it asked for is at `mac`.
#[derive(Clone, Copy, Debug, PartialEq, Eq, Structural)]
pub struct Notification {
    pub waiter: WaiterId,
    pub mac: MacAddr,
}

/// The notifications that the waiters in `waiters` get when their address
/// turns out to be at `mac`, in the order in which they started to wait.
pub open spec fn notifications_for(waiters: Seq<WaiterId>, mac: MacAddr) -> Seq<Notification> {
    Seq::new(waiters.len(), |i: int| Notification { waiter: waiters[i], mac })
}

/// A table that knows no address, with nobody waiting and nothing to tell.
pub open spec fn is_empty_table(table: ArpTable) -> bool {
    &&& forall|ip: Ipv4Addr| (#[trigger] table.lookup(ip)).is_none()
    &&& forall|ip: Ipv4Addr| (#[trigger] table.waiting(ip)).len() == 0
    &&& table.notifications().len() == 0
    &&& table.spec_next_waiter() == 0
}

/// `post` is `pre` with `waiter`, the next in number, waiting for `ip` behind
/// those who already do.
pub open spec fn waiter_added(
    pre: ArpTable,
    post: ArpTable,
    ip: Ipv4Addr,
    waiter: WaiterId,
) -> bool {
    &&& waiter == WaiterId(pre.spec_next_waiter())
    &&& post.spec_next_waiter() == wrapping_next(pre.spec_next_waiter())
    &&& post.waiting(ip) == pre.waiting(ip).push(waiter)
    &&& post.notifications() == pre.notifications()
    &&& forall|other: Ipv4Addr| #[trigger] post.lookup(other) == pre.lookup(other)
    &&& forall|other: Ipv4Addr|
        other != ip ==> #[trigger] post.waiting(other) == pre.waiting(other)
}

/// `post` is `pre` with `ip` bound to `mac`: everyone who waited for `ip` has
/// got one notification that names `mac`, and waits no more.
pub open spec fn binding_inserted(
    pre: ArpTable,
    post: ArpTable,
    ip: Ipv4Addr,
    mac: MacAddr,
) -> bool {
    &&& post.lookup(ip) == Some(mac)
    &&& post.waiting(ip).len() == 0
    &&& post.notifications() == pre.notifications() + notifications_for(pre.waiting(ip), mac)
    &&& post.spec_next_waiter() == pre.spec_next_waiter()
    &&& forall|other: Ipv4Addr|
        other != ip ==> #[trigger] post.lookup(other) == pre.lookup(other)
    &&& forall|other: Ipv4Addr|
        other != ip ==> #[trigger] post.waiting(other) == pre.waiting(other)
}

/// An insert notifies every waiter exactly once, with the address that was
/// inserted: there are as many notifications as waiters, and the one at a
/// waiter's place names that waiter and `mac`.
pub proof fn lemma_each_waiter_notified_once(waiters: Seq<WaiterId>, mac: MacAddr)
    ensures
        notifications_for(waiters, mac).len() == waiters.len(),
        forall|i: int|
            0 <= i < waiters.len() ==> #[trigger] notifications_for(waiters, mac)[i]
                == (Notification { waiter: waiters[i], mac }),
{
}

/// The cache from IP to MAC addresses. A lookup of an unknown address leaves a waiter behind; the
/// insert that makes the address known notifies every waiter once.
#[derive(Debug)]
pub struct ArpTable {
    table: HashMap<u32, MacAddr>,
    waiters: HashMap<u32, Vec<WaiterId>>,
    notified: Vec<Notification>,
    next_waiter: u64,
}

impl ArpTable {
    /// The hardware address that `ip` is known at, if any.
    pub closed spec fn lookup(&self, ip: Ipv4Addr) -> Option<MacAddr> {
        if self.table@.contains_key(ip.bits()) {
            Some(self.table@[ip.bits()])
        } else {
            None
        }
    }

    /// The waiters registered for `ip`, oldest first.
    pub closed spec fn waiting(&self, ip: Ipv4Addr) -> Seq<WaiterId> {
        if self.waiters@.contains_key(ip.bits()) {
            self.waiters@[ip.bits()]@
        } else {
            Seq::empty()
        }
    }

    /// The notifications not yet handed out, oldest first.
    pub closed spec fn notifications(&self) -> Seq<Notification> {
        self.notified@
    }

    /// The number that the next waiter gets.
    pub closed spec fn spec_next_waiter(&self) -> u64 {
        self.next_waiter
    }

    /// Nobody waits for an address that is known.
    pub open spec fn wf(&self) -> bool {
        forall|ip: Ipv4Addr| (#[trigger] self.lookup(ip)).is_some() ==> self.waiting(ip).len() == 0
    }

    /// Creates a new `ArpTable` with no entries in it.
    pub fn new() -> (table: ArpTable)
        ensures
            table.wf(),
            is_empty_table(table),
    {
        ArpTable {
            table: HashMap::new(),
            waiters: HashMap::new(),
            notified: Vec::new(),
            next_waiter: 0,
        }
    }

    /// Looks `ip` up without leaving a waiter behind.
    pub fn peek(&self, ip: Ipv4Addr) -> (mac: Option<MacAddr>)
        ensures
            mac == self.lookup(ip),
    {
        match self.table.get(&ip.to_bits()) {
            Some(mac) => Some(*mac),
            None => None,
        }
    }

    /// Queries the table for a MAC. If it does not exist a waiter is
    /// registered for `ip` and returned; the caller sends a request and waits
    /// to be notified.
    pub fn get(&mut self, ip: Ipv4Addr) -> (result: Result<MacAddr, WaiterId>)
        requires
            old(self).wf(),
        ensures
            final(self).wf(),
            match result {
                Ok(mac) => old(self).lookup(ip) == Some(mac) && *final(self) == *old(self),
                Err(waiter) => old(self).lookup(ip).is_none() && waiter_added(
                    *old(self),
                    *final(self),
                    ip,
                    waiter,
                ),
            },
    {
        let key: u32 = ip.to_bits();
        proof {
            assert forall|other: Ipv4Addr| other != ip implies other.bits() != key by {
                Ipv4Addr::lemma_bits_injective(other, ip);
            }
        }
        match self.table.get(&key) {
            Some(mac) => Ok(*mac),
            None => {
                let waiter = WaiterId(self.next_waiter);
                self.next_waiter = self.next_waiter.wrapping_add(1);
                let mut list: Vec<WaiterId> = match self.waiters.remove(&key) {
                    Some(list) => list,
                    None => Vec::new(),
                };
                list.push(waiter);
                self.waiters.insert(key, list);
                proof {
                    assert forall|x: Ipv4Addr|
                        (#[trigger] self.lookup(x)).is_some() implies self.waiting(x).len()
                        == 0 by {
                        assert(old(self).lookup(x).is_some());
                        assert(x != ip);
                        assert(self.waiting(x) == old(self).waiting(x));
                    }
                }
                Err(waiter)
            },
        }
    }

    /// Records that `ip` is at `mac` and notifies everyone who waits for
    /// `ip`. Returns whether the binding changed: a new entry or another MAC.
    pub fn insert(&mut self, ip: Ipv4Addr, mac: MacAddr) -> (changed: bool)
        requires
            old(self).wf(),
        ensures
            final(self).wf(),
            changed == (old(self).lookup(ip) != Some(mac)),
            binding_inserted(*old(self), *final(self), ip, mac),
    {
        let key: u32 = ip.to_bits();
        proof {
            assert forall|other: Ipv4Addr| other != ip implies other.bits() != key by {
                Ipv4Addr::lemma_bits_injective(other, ip);
            }
        }
        let changed: bool = match self.table.insert(key, mac) {
            Some(previous) => previous != mac,
            None => true,
        };
        match self.waiters.remove(&key) {
            None => {
                assert(self.notified@ =~= old(self).notifications() + notifications_for(
                    old(self).waiting(ip),
                    mac,
                ));
            },
            Some(list) => {
                let mut i: usize = 0;
                while i < list.len()
                    invariant
                        i <= list@.len(),
                        self.table@ == old(self).table@.insert(key, mac),
                        self.waiters@ == old(self).waiters@.remove(key),
                        self.next_waiter == old(self).next_waiter,
                        self.notified@ == old(self).notified@ + notifications_for(
                            list@.take(i as int),
                            mac,
                        ),
                    decreases list@.len() - i,
                {
                    self.notified.push(Notification { waiter: list[i], mac });
                    i += 1;
                    assert(self.notified@ =~= old(self).notified@ + notifications_for(
                        list@.take(i as int),
                        mac,
                    ));
                }
                assert(list@.take(i as int) =~= list@);
            },
        }
        proof {
            assert forall|x: Ipv4Addr|
                (#[trigger] self.lookup(x)).is_some() implies self.waiting(x).len() == 0 by {
                if x != ip {
                    assert(old(self).lookup(x).is_some());
                    assert(self.waiting(x) == old(self).waiting(x));
                }
            }
        }
        changed
    }

    /// Hands the notifications over, oldest first, and forgets them.
    pub fn take_notifications(&mut self) -> (notifications: Vec<Notification>)
        ensures
            notifications@ == old(self).notifications(),
            final(self).notifications().len() == 0,
            final(self).spec_next_waiter() == old(self).spec_next_waiter(),
            forall|ip: Ipv4Addr| #[trigger] final(self).lookup(ip) == old(self).lookup(ip),
            forall|ip: Ipv4Addr| #[trigger] final(self).waiting(ip) == old(self).waiting(ip),
            old(self).wf() ==> final(self).wf(),
    {
        let mut notifications: Vec<Notification> = Vec::new();
        std::mem::swap(&mut notifications, &mut self.notified);
        proof {
            if old(self).wf() {
                assert forall|x: Ipv4Addr|
                    (#[trigger] self.lookup(x)).is_some() implies self.waiting(x).len() == 0 by {
                    assert(old(self).lookup(x).is_some());
                }
            }
        }
        notifications
    }
}

/// The operation field of an ARP packet.
#[derive(Clone, Copy, Debug, PartialEq, Eq, Structural, Hash)]
pub struct ArpOperation(pub u16);

/// The fields of an ARP packet for IPv4 over Ethernet.
#[derive(Clone, Copy, Debug, PartialEq, Eq, Structural)]
pub struct ArpPacket {
    pub operation: ArpOperation,
    pub sender_mac: MacAddr,
    pub sender_ip: Ipv4Addr,
    pub target_mac: MacAddr,
    pub target_ip: Ipv4Addr,
}

/// The six fixed leading bytes: hardware type Ethernet, protocol type IPv4,
/// address lengths 6 and 4.
pub open spec fn arp_preamble() -> Seq<u8> {
    seq![0u8, 1u8, 0x08u8, 0x00u8, 6u8, 4u8]
}

/// The 28 bytes of `packet` on the wire.
pub open spec fn arp_bytes(packet: ArpPacket) -> Seq<u8> {
    arp_preamble() + u16_be(packet.operation.0) + packet.sender_mac.bytes()
        + packet.sender_ip.bytes() + packet.target_mac.bytes() + packet.target_ip.bytes()
}

/// Whether `bytes` starts with an ARP packet for IPv4 over Ethernet.
pub open spec fn arp_parsable(bytes: Seq<u8>) -> bool {
    bytes.len() >= ARP_PACKET_SIZE && bytes.take(6) == arp_preamble()
}

/// The fields of the packet at the front of `bytes`.
pub open spec fn arp_fields(bytes: Seq<u8>) -> ArpPacket {
    ArpPacket {
        operation: ArpOperation(be_u16(bytes[6], bytes[7])),
        sender_mac: MacAddr::at(bytes, 8),
        sender_ip: Ipv4Addr::at(bytes, 14),
        target_mac: MacAddr::at(bytes, 18),
        target_ip: Ipv4Addr::at(bytes, 24),
    }
}

/// Parsing the bytes of a packet gives the packet again.
pub proof fn lemma_arp_round_trip(packet: ArpPacket, rest: Seq<u8>)
    ensures
        arp_bytes(packet).len() == ARP_PACKET_SIZE,
        arp_parsable(arp_bytes(packet) + rest),
        arp_fields(arp_bytes(packet) + rest) == packet,
{
    lemma_u16_round_trip(packet.operation.0);
    assert((arp_bytes(packet) + rest).take(6) =~= arp_preamble());
}

/// Reads the ARP packet at the front of `bytes`, if there is one.
pub fn parse_arp(bytes: &[u8]) -> (packet: Option<ArpPacket>)
    ensures
        packet == if arp_parsable(bytes@) {
            Some(arp_fields(bytes@))
        } else {
            None
        },
{
    if bytes.len() < ARP_PACKET_SIZE {
        return None;
    }
    if bytes[0] != 0 || bytes[1] != 1 || bytes[2] != 0x08 || bytes[3] != 0x00 || bytes[4] != 6
        || bytes[5] != 4 {
        assert(bytes@.take(6)[0] == bytes@[0]);
        assert(bytes@.take(6)[1] == bytes@[1]);
        assert(bytes@.take(6)[2] == bytes@[2]);
        assert(bytes@.take(6)[3] == bytes@[3]);
        assert(bytes@.take(6)[4] == bytes@[4]);
        assert(bytes@.take(6)[5] == bytes@[5]);
        return None;
    }
    assert(bytes@.take(6) =~= arp_preamble());
    Some(
        ArpPacket {
            operation: ArpOperation(get_u16(bytes, 6)),
            sender_mac: MacAddr::read(bytes, 8),
            sender_ip: Ipv4Addr::read(bytes, 14),
            target_mac: MacAddr::read(bytes, 18),
            target_ip: Ipv4Addr::read(bytes, 24),
        },
    )
}

/// What a received ARP packet makes the worker do. Every packet teaches the
/// sender's binding; a request also asks for an answer. Bytes that are no ARP
/// packet ask for nothing.
pub open spec fn arp_messages(bytes: Seq<u8>) -> Seq<StackInterfaceMsg> {
    if !arp_parsable(bytes) {
        Seq::empty()
    } else {
        let packet = arp_fields(bytes);
        let learn = StackInterfaceMsg::UpdateArpTable(packet.sender_ip, packet.sender_mac);
        if packet.operation == ArpOperation(ARP_REQUEST) {
            let ask = StackInterfaceMsg::ArpRequest(
                packet.sender_ip,
                packet.sender_mac,
                packet.target_ip,
            );
            seq![learn, ask]
        } else {
            seq![learn]
        }
    }
}

/// Receiver and parser of ARP packets.
#[derive(Debug)]
pub struct ArpRx {}

impl ArpRx {
    /// Turns the payload of a received ARP frame into messages for the
    /// worker.
    pub fn recv(bytes: &[u8]) -> (messages: Vec<StackInterfaceMsg>)
        ensures
            messages@ == arp_messages(bytes@),
    {
        let mut messages: Vec<StackInterfaceMsg> = Vec::new();
        match parse_arp(bytes) {
            None => {},
            Some(packet) => {
                messages.push(
                    StackInterfaceMsg::UpdateArpTable(packet.sender_ip, packet.sender_mac),
                );
                if packet.operation.0 == ARP_REQUEST {
                    messages.push(
                        StackInterfaceMsg::ArpRequest(
                            packet.sender_ip,
                            packet.sender_mac,
                            packet.target_ip,
                        ),
                    );
                }
            },
        }
        assert(messages@ =~= arp_messages(bytes@));
        messages
    }
}

/// Struct building ARP packets.
#[derive(Debug)]
pub struct ArpBuilder {
    pub packet: ArpPacket,
}

impl ArpBuilder {
    /// Constructs a new `ArpBuilder` able to build an ARP request.
    pub fn new_request(
        sender_mac: MacAddr,
        sender_ip: Ipv4Addr,
        target_ip: Ipv4Addr,
    ) -> (builder: Self)
        ensures
            builder.packet == arp_request(sender_mac, sender_ip, target_ip),
    {
        ArpBuilder {
            packet: ArpPacket {
                operation: ArpOperation(ARP_REQUEST),
                sender_mac,
                sender_ip,
                target_mac: MacAddr(0, 0, 0, 0, 0, 0),
                target_ip,
            },
        }
    }

    /// Constructs a new `ArpBuilder` able to build an ARP reply.
    pub fn new_reply(
        sender_mac: MacAddr,
        sender_ip: Ipv4Addr,
        target_mac: MacAddr,
        target_ip: Ipv4Addr,
    ) -> (builder: Self)
        ensures
            builder.packet == arp_reply(sender_mac, sender_ip, target_mac, target_ip),
    {
        ArpBuilder {
            packet: ArpPacket {
                operation: ArpOperation(ARP_REPLY),
                sender_mac,
                sender_ip,
                target_mac,
                target_ip,
            },
        }
    }
}

/// The request by which `(sender_ip, sender_mac)` asks who has `target_ip`.
/// The target's hardware address, being unknown, is left zero.
pub open spec fn arp_request(
    sender_mac: MacAddr,
    sender_ip: Ipv4Addr,
    target_ip: Ipv4Addr,
) -> ArpPacket {
    ArpPacket {
        operation: ArpOperation(ARP_REQUEST),
        sender_mac,
        sender_ip,
        target_mac: MacAddr(0, 0, 0, 0, 0, 0),
        target_ip,
    }
}

/// The reply by which `(sender_ip, sender_mac)` answers the station
/// `(target_ip, target_mac)`.
pub open spec fn arp_reply(
    sender_mac: MacAddr,
    sender_ip: Ipv4Addr,
    target_mac: MacAddr,
    target_ip: Ipv4Addr,
) -> ArpPacket {
    ArpPacket { operation: ArpOperation(ARP_REPLY), sender_mac, sender_ip, target_mac, target_ip }
}

impl EthernetPayload for ArpBuilder {
    open spec fn spec_ether_type(&self) -> EtherType {
        EtherType(ETHERTYPE_ARP)
    }

    proof fn lemma_ether_type_kept(&self, n: nat) {
    }

    fn ether_type(&self) -> (ether_type: EtherType) {
        EtherType(ETHERTYPE_ARP)
    }
}

impl Payload for ArpBuilder {
    open spec fn wf(&self) -> bool {
        true
    }

    open spec fn spec_len(&self) -> nat {
        ARP_PACKET_SIZE as nat
    }

    open spec fn min_buffer(&self) -> nat {
        ARP_PACKET_SIZE as nat
    }

    open spec fn image(&self, n: nat) -> Seq<u8> {
        arp_bytes(self.packet)
    }

    open spec fn advanced(&self, n: nat) -> Self {
        *self
    }

    proof fn lemma_advanced(&self, n: nat) {
    }

    proof fn lemma_fits_own_length(&self) {
    }

    fn len(&self) -> (n: usize) {
        ARP_PACKET_SIZE
    }

    fn build(&mut self, buffer: &mut [u8]) {
        let (packet, rest) = buffer.split_at_mut(ARP_PACKET_SIZE);
        packet[0] = 0;
        packet[1] = 1;
        packet[2] = 0x08;
        packet[3] = 0x00;
        packet[4] = 6;
        packet[5] = 4;
        put_u16(packet, 6, self.packet.operation.0);
        self.packet.sender_mac.write(packet, 8);
        self.packet.sender_ip.write(packet, 14);
        self.packet.target_mac.write(packet, 18);
        self.packet.target_ip.write(packet, 24);
        proof {
            assert(packet@ =~= arp_bytes(self.packet));
            assert(buffer@ =~= patched(old(buffer)@, old(self).image(old(buffer)@.len())));
        }
    }
}

/// The frame from `src` to `dst` that carries `packet`.
pub open spec fn arp_frame(src: MacAddr, dst: MacAddr, packet: ArpPacket) -> Seq<u8> {
    ethernet_header(src, dst, EtherType(ETHERTYPE_ARP)) + arp_bytes(packet)
}

/// Sends `packet` as one frame through `ethernet`.
fn send_arp<T: EthernetTx>(
    ethernet: &mut T,
    barrier: &mut TxBarrier,
    builder: ArpBuilder,
) -> (result: TxResult)
    ensures
        *final(ethernet) == *old(ethernet),
        sent(
            old(ethernet).admitted(old(barrier)),
            *old(barrier),
            *final(barrier),
            result,
            1,
            (ETHERNET_HEADER_SIZE + ARP_PACKET_SIZE) as nat,
            seq![arp_frame(old(ethernet).spec_src(), old(ethernet).spec_dst(), builder.packet)],
        ),
{
    proof {
        let frame = EthernetBuilder {
            src: ethernet.spec_src(),
            dst: ethernet.spec_dst(),
            payload: builder,
        };
        assert(frame.image(frame.spec_len()) =~= arp_frame(
            ethernet.spec_src(),
            ethernet.spec_dst(),
            builder.packet,
        ));
        lemma_single_frame(frame, frame.spec_len());
    }
    ethernet.send(barrier, 1, ARP_PACKET_SIZE, builder)
}

/// Sender of ARP requests, on top of an Ethernet sender to the broadcast
/// address.
#[derive(Debug)]
pub struct ArpRequestTx<T: EthernetTx> {
    ethernet: T,
}

impl<T: EthernetTx> ArpRequestTx<T> {
    /// The Ethernet sender underneath.
    pub closed spec fn inner(&self) -> T {
        self.ethernet
    }

    pub fn new(ethernet: T) -> (tx: Self)
        ensures
            tx.inner() == ethernet,
    {
        ArpRequestTx { ethernet }
    }

    /// Asks, in the name of `sender_ip`, who has `target_ip`.
    pub fn send(
        &mut self,
        barrier: &mut TxBarrier,
        sender_ip: Ipv4Addr,
        target_ip: Ipv4Addr,
    ) -> (result: TxResult)
        ensures
            *final(self) == *old(self),
            sent(
                old(self).inner().admitted(old(barrier)),
                *old(barrier),
                *final(barrier),
                result,
                1,
                (ETHERNET_HEADER_SIZE + ARP_PACKET_SIZE) as nat,
                seq![
                    arp_frame(
                        old(self).inner().spec_src(),
                        old(self).inner().spec_dst(),
                        arp_request(old(self).inner().spec_src(), sender_ip, target_ip),
                    ),
                ],
            ),
    {
        let builder = ArpBuilder::new_request(self.ethernet.src(), sender_ip, target_ip);
        send_arp(&mut self.ethernet, barrier, builder)
    }
}

/// Sender of ARP replies, on top of an Ethernet sender to the station that
/// asked.
#[derive(Debug)]
pub struct ArpReplyTx<T: EthernetTx> {
    ethernet: T,
}

impl<T: EthernetTx> ArpReplyTx<T> {
    /// The Ethernet sender underneath.
    pub closed spec fn inner(&self) -> T {
        self.ethernet
    }

    pub fn new(ethernet: T) -> (tx: Self)
        ensures
            tx.inner() == ethernet,
    {
        ArpReplyTx { ethernet }
    }

    /// Tells the station `(target_ip, target_mac)` that `source_ip` is at
    /// this sender's own hardware address.
    pub fn send(
        &mut self,
        barrier: &mut TxBarrier,
        source_ip: Ipv4Addr,
        target_mac: MacAddr,
        target_ip: Ipv4Addr,
    ) -> (result: TxResult)
        ensures
            *final(self) == *old(self),
            sent(
                old(self).inner().admitted(old(barrier)),
                *old(barrier),
                *final(barrier),
                result,
                1,
                (ETHERNET_HEADER_SIZE + ARP_PACKET_SIZE) as nat,
                seq![
                    arp_frame(
                        old(self).inner().spec_src(),
                        old(self).inner().spec_dst(),
                        arp_reply(old(self).inner().spec_src(), source_ip, target_mac, target_ip),
                    ),
                ],
            ),
    {
        let builder = ArpBuilder::new_reply(self.ethernet.src(), source_ip, target_mac, target_ip);
        send_arp(&mut self.ethernet, barrier, builder)
    }
}

} // verus!
