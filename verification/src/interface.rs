//! One interface of the stack: its local addresses with their listeners, its
//! ARP table, its worker, and the receive path from a raw frame to the
//! listener that takes it.

use crate::addr::{Interface, Ipv4Addr, Ipv4Network, MacAddr, SocketAddrV4};
use crate::arp::{
    arp_bytes, arp_fields, arp_frame, arp_messages, arp_parsable, arp_reply, arp_request,
    binding_inserted, is_empty_table, lemma_arp_round_trip, waiter_added, ArpOperation,
    ArpReplyTx, ArpRequestTx, ArpRx, ArpTable, WaiterId, ARP_PACKET_SIZE, ARP_REPLY,
};
use crate::datalink::FrameQueue;
use crate::error::{StackError, StackResult};
use crate::ethernet::{
    ethernet_dst, ethernet_payload, ethernet_src, ethernet_type, lemma_ethernet_round_trip,
    matching_listeners, EtherType, EthernetListener, EthernetRx, EthernetTx, EthernetTxImpl,
    ETHERNET_HEADER_SIZE, ETHERTYPE_ARP, ETHERTYPE_IPV4,
};
use crate::icmp::{IcmpDelivery, IcmpListenerLookup, IcmpType, ICMP_HEADER_SIZE};
use crate::ipv4::{
    ipv4_dst, ipv4_parsable, ipv4_payload, ipv4_protocol, ipv4_src, parse_ipv4,
    IpNextHeaderProtocol, Ipv4Tx, Ipv4TxImpl, PROTOCOL_ICMP, PROTOCOL_UDP,
};
use crate::listener::ListenerId;
use crate::stack::DEFAULT_MTU;
use crate::tx::{sent, TxBarrier, TxImpl};
use crate::udp::{
    udp_dst_port, udp_parsable, udp_payload, udp_src_port, UdpDelivery, UdpListenerLookup,
};
use crate::util::{position, wrapping_next};
use std::collections::HashSet;
use vstd::prelude::*;
use vstd::slice::slice_subrange;

verus! {

broadcast use vstd::std_specs::hash::group_hash_axioms;

/// What the receive path asks an interface's worker to do.
#[derive(Clone, Copy, Debug, PartialEq, Eq, Structural)]
pub enum StackInterfaceMsg {
    /// `ip` was seen at `mac`.
    UpdateArpTable(Ipv4Addr, MacAddr),
    /// The station `(sender_ip, sender_mac)` asks who has `target_ip`.
    ArpRequest(Ipv4Addr, MacAddr, Ipv4Addr),
    /// Stop working.
    Shutdown,
}

/// The sending half of the datalink that an interface is attached to. The
/// receiving half stays with whoever reads the device and hands each frame
/// to `StackInterface::recv`.
#[derive(Debug)]
pub struct EthernetChannel(pub FrameQueue);

/// What an attempt to make a sender comes to while the next hop's hardware
/// address may still be unknown.
#[derive(Debug)]
pub enum Resolution<T> {
    /// The address was known: here is the sender.
    Ready(T),
    /// An ARP request went out. Ask again once the waiter has been notified.
    Waiting(WaiterId),
}

/// The Ethernet sender of an interface as it is when made: frames from `src`
/// to `dst`, valid for the barrier version `version`.
pub open spec fn is_ethernet_tx(
    ethernet: EthernetTxImpl<TxImpl>,
    version: u64,
    src: MacAddr,
    dst: MacAddr,
) -> bool {
    &&& ethernet.spec_src() == src
    &&& ethernet.spec_dst() == dst
    &&& ethernet.inner().spec_version() == version
}

/// The IPv4 sender of an interface as it is when made: packets from `src` to
/// `dst` in frames from `src_mac` to `dst_mac`, none larger than `mtu`, valid
/// for the barrier version `version`.
pub open spec fn is_ipv4_tx(
    ipv4: Ipv4TxImpl<EthernetTxImpl<TxImpl>>,
    version: u64,
    src_mac: MacAddr,
    dst_mac: MacAddr,
    src: Ipv4Addr,
    dst: Ipv4Addr,
    mtu: usize,
) -> bool {
    &&& is_ethernet_tx(ipv4.inner(), version, src_mac, dst_mac)
    &&& ipv4.spec_src() == src
    &&& ipv4.spec_dst() == dst
    &&& ipv4.spec_mtu() == mtu
}

/// The barrier moved on to the next version and is otherwise as before.
pub open spec fn stepped(pre: TxBarrier, post: TxBarrier) -> bool {
    &&& post.spec_version() == wrapping_next(pre.spec_version())
    &&& post.spec_version() != pre.spec_version()
    &&& post.datalink() == pre.datalink()
}

/// One `frame` was handed to the datalink behind a barrier by a sender made
/// for the purpose: it is queued where the write buffer has room for it, and
/// dropped where it has not.
pub open spec fn emitted(pre: TxBarrier, post: TxBarrier, frame: Seq<u8>) -> bool {
    if pre.datalink().fits(1, frame.len()) {
        &&& post.spec_version() == pre.spec_version()
        &&& post.datalink().spec_capacity() == pre.datalink().spec_capacity()
        &&& post.spec_frames() == pre.spec_frames().push(frame)
    } else {
        post == pre
    }
}

/// What the interface's worker shares with the interface: the device's
/// identity, the barrier in front of the datalink, and the set of local
/// addresses.
#[derive(Debug)]
pub struct StackInterfaceData {
    interface: Interface,
    tx: TxBarrier,
    ipv4_addresses: HashSet<u32>,
}

impl StackInterfaceData {
    pub closed spec fn spec_interface(&self) -> Interface {
        self.interface
    }

    /// The barrier in front of the datalink.
    pub closed spec fn barrier(&self) -> TxBarrier {
        self.tx
    }

    /// The local addresses.
    pub closed spec fn addresses(&self) -> Set<Ipv4Addr> {
        Set::new(|ip: Ipv4Addr| self.ipv4_addresses@.contains(ip.bits()))
    }

    fn tx(&self) -> (tx: TxImpl)
        ensures
            tx.spec_version() == self.barrier().spec_version(),
    {
        let version: u64 = self.tx.version();
        TxImpl::new(version)
    }

    /// A sender of frames to `dst`, valid until the barrier next changes.
    pub fn ethernet_tx(&self, dst: MacAddr) -> (ethernet: EthernetTxImpl<TxImpl>)
        ensures
            is_ethernet_tx(
                ethernet,
                self.barrier().spec_version(),
                self.spec_interface().mac,
                dst,
            ),
    {
        EthernetTxImpl::new(self.tx(), self.interface.mac, dst)
    }

    /// A sender of ARP requests: they go to the broadcast address.
    pub fn arp_request_tx(&self) -> (arp: ArpRequestTx<EthernetTxImpl<TxImpl>>)
        ensures
            is_ethernet_tx(
                arp.inner(),
                self.barrier().spec_version(),
                self.spec_interface().mac,
                MacAddr::spec_broadcast(),
            ),
    {
        let dst_mac = MacAddr::new(0xff, 0xff, 0xff, 0xff, 0xff, 0xff);
        ArpRequestTx::new(self.ethernet_tx(dst_mac))
    }

    /// A sender of ARP replies to the station at `dst`.
    pub fn arp_reply_tx(&self, dst: MacAddr) -> (arp: ArpReplyTx<EthernetTxImpl<TxImpl>>)
        ensures
            is_ethernet_tx(
                arp.inner(),
                self.barrier().spec_version(),
                self.spec_interface().mac,
                dst,
            ),
    {
        ArpReplyTx::new(self.ethernet_tx(dst))
    }
}

/// The bundle of bindings attached to one local IPv4 address on one
/// interface.
#[derive(Debug)]
pub struct Ipv4Data {
    net: Ipv4Network,
    udp_listeners: UdpListenerLookup,
    icmp_listeners: IcmpListenerLookup,
}

impl Ipv4Data {
    /// The local address and its network prefix.
    pub closed spec fn spec_net(&self) -> Ipv4Network {
        self.net
    }

    /// The local address: the key of the bundle.
    pub open spec fn spec_ip(&self) -> Ipv4Addr {
        self.spec_net().spec_ip()
    }

    /// The UDP listeners, by port.
    pub closed spec fn udp(&self) -> UdpListenerLookup {
        self.udp_listeners
    }

    /// The ICMP listeners, by type.
    pub closed spec fn icmp(&self) -> IcmpListenerLookup {
        self.icmp_listeners
    }

    /// A bundle that nobody listens on yet.
    pub open spec fn is_fresh(&self, net: Ipv4Network) -> bool {
        &&& self.spec_net() == net
        &&& self.udp().bound() == Map::<u16, ListenerId>::empty()
        &&& self.icmp().entries() == Seq::<(IcmpType, ListenerId)>::empty()
    }

    fn new(net: Ipv4Network) -> (data: Ipv4Data)
        ensures
            data.is_fresh(net),
    {
        Ipv4Data {
            net,
            udp_listeners: UdpListenerLookup::new(),
            icmp_listeners: IcmpListenerLookup::new(),
        }
    }
}

/// The local addresses that `datas` holds a bundle for.
pub open spec fn data_keys(datas: Seq<Ipv4Data>) -> Set<Ipv4Addr> {
    Set::new(
        |ip: Ipv4Addr| exists|i: int| 0 <= i < datas.len() && #[trigger] datas[i].spec_ip() == ip,
    )
}

/// The index of the bundle for `ip` among `datas`, if there is one.
pub open spec fn data_index(datas: Seq<Ipv4Data>, ip: Ipv4Addr, index: int) -> bool {
    0 <= index < datas.len() && datas[index].spec_ip() == ip
}

/// The index among `datas` of the bundle for `ip`, where there is one.
pub open spec fn data_position(datas: Seq<Ipv4Data>, ip: Ipv4Addr) -> int {
    choose|i: int| data_index(datas, ip, i)
}

/// The index of the first bundle at or behind `from` whose network contains
/// `dst`.
pub open spec fn first_hit(datas: Seq<Ipv4Data>, dst: Ipv4Addr, from: int) -> Option<int>
    decreases datas.len() - from,
{
    if from < 0 || from >= datas.len() {
        None
    } else if datas[from].spec_net().spec_contains(dst) {
        Some(from)
    } else {
        first_hit(datas, dst, from + 1)
    }
}

/// The local address to send from when sending to `dst`: that of the first
/// local network that contains `dst`; where none does, the first local
/// address; none where the interface has no address at all.
pub open spec fn closest_ip(datas: Seq<Ipv4Data>, dst: Ipv4Addr) -> Option<Ipv4Addr> {
    match first_hit(datas, dst, 0) {
        Some(i) => Some(datas[i].spec_ip()),
        None => if datas.len() > 0 {
            Some(datas[0].spec_ip())
        } else {
            None
        },
    }
}

/// `post` is `pre` with `listener` registered for `kind` behind the ICMP
/// listeners of the bundle at `index`.
pub open spec fn icmp_listener_added(
    pre: Seq<Ipv4Data>,
    post: Seq<Ipv4Data>,
    index: int,
    kind: IcmpType,
    listener: ListenerId,
) -> bool {
    &&& 0 <= index < pre.len()
    &&& post.len() == pre.len()
    &&& forall|i: int| 0 <= i < pre.len() && i != index ==> #[trigger] post[i] == pre[i]
    &&& post[index].spec_net() == pre[index].spec_net()
    &&& post[index].udp() == pre[index].udp()
    &&& post[index].icmp().entries() == pre[index].icmp().entries().push((kind, listener))
}

/// `post` is `pre` with `port` bound to `listener` among the UDP listeners of
/// the bundle at `index`.
pub open spec fn udp_listener_bound(
    pre: Seq<Ipv4Data>,
    post: Seq<Ipv4Data>,
    index: int,
    port: u16,
    listener: ListenerId,
) -> bool {
    &&& 0 <= index < pre.len()
    &&& post.len() == pre.len()
    &&& forall|i: int| 0 <= i < pre.len() && i != index ==> #[trigger] post[i] == pre[i]
    &&& post[index].spec_net() == pre[index].spec_net()
    &&& post[index].icmp() == pre[index].icmp()
    &&& post[index].udp().bound() == pre[index].udp().bound().insert(port, listener)
}

/// The state of one interface of the stack.
pub struct StackInterfaceView {
    pub interface: Interface,
    /// The barrier in front of the datalink, with the frames sent so far.
    pub barrier: TxBarrier,
    /// The set of local addresses that the worker answers ARP requests for.
    pub addresses: Set<Ipv4Addr>,
    pub mtu: usize,
    pub arp_table: ArpTable,
    /// One bundle per local address, in the order in which they were added.
    pub datas: Seq<Ipv4Data>,
}

/// The state of an interface that was just attached to `channel`: the
/// barrier at version 0 in front of the channel's sender, no local address,
/// the default MTU, an empty ARP table.
pub open spec fn is_new_interface(state: StackInterfaceView, channel: EthernetChannel) -> bool {
    &&& state.barrier.spec_version() == 0
    &&& state.barrier.datalink() == channel.0
    &&& state.addresses == Set::<Ipv4Addr>::empty()
    &&& state.mtu == DEFAULT_MTU
    &&& state.datas == Seq::<Ipv4Data>::empty()
    &&& is_empty_table(state.arp_table)
}

/// The station that a packet for `dst` is handed to on the local network:
/// the gateway where the route names one, else `dst` itself.
pub open spec fn next_hop(dst: Ipv4Addr, gw: Option<Ipv4Addr>) -> Ipv4Addr {
    match gw {
        Some(gw) => gw,
        None => dst,
    }
}

/// The frame by which the station `(src, mac)` asks everyone who has
/// `target`.
pub open spec fn arp_request_frame(mac: MacAddr, src: Ipv4Addr, target: Ipv4Addr) -> Seq<u8> {
    arp_frame(mac, MacAddr::spec_broadcast(), arp_request(mac, src, target))
}

/// The frame by which the station `(src, mac)` answers the station
/// `(target, target_mac)` that asked for `src`.
pub open spec fn arp_reply_frame(
    mac: MacAddr,
    src: Ipv4Addr,
    target_mac: MacAddr,
    target: Ipv4Addr,
) -> Seq<u8> {
    arp_frame(mac, target_mac, arp_reply(mac, src, target_mac, target))
}

/// What `StackInterface::ipv4_tx` comes to, from the state `pre` to `post`.
pub open spec fn ipv4_tx_outcome(
    pre: StackInterfaceView,
    post: StackInterfaceView,
    dst: Ipv4Addr,
    gw: Option<Ipv4Addr>,
    result: StackResult<Resolution<Ipv4TxImpl<EthernetTxImpl<TxImpl>>>>,
) -> bool {
    let hop = next_hop(dst, gw);
    match closest_ip(pre.datas, hop) {
        None => {
            // no local address to send from
            &&& result matches Err(StackError::IllegalArgument)
            &&& post == pre
        },
        Some(src) => match pre.arp_table.lookup(hop) {
            Some(mac) => {
                // the next hop is known: the sender is ready
                &&& result matches Ok(Resolution::Ready(ipv4))
                &&& is_ipv4_tx(
                    ipv4,
                    pre.barrier.spec_version(),
                    pre.interface.mac,
                    mac,
                    src,
                    dst,
                    pre.mtu,
                )
                &&& post == pre
            },
            None => {
                // a waiter is registered and one ARP request is sent: where
                // the datalink takes it the caller waits, else the send's
                // error comes back
                let waiter = WaiterId(pre.arp_table.spec_next_waiter());
                let request = seq![arp_request_frame(pre.interface.mac, src, hop)];
                let size = (ETHERNET_HEADER_SIZE + ARP_PACKET_SIZE) as nat;
                &&& post == (StackInterfaceView {
                    arp_table: post.arp_table,
                    barrier: post.barrier,
                    ..pre
                })
                &&& waiter_added(pre.arp_table, post.arp_table, hop, waiter)
                &&& match result {
                    Ok(Resolution::Waiting(w)) => w == waiter && sent(
                        true,
                        pre.barrier,
                        post.barrier,
                        Ok(()),
                        1,
                        size,
                        request,
                    ),
                    Err(StackError::TxError(e)) => sent(
                        true,
                        pre.barrier,
                        post.barrier,
                        Err(e),
                        1,
                        size,
                        request,
                    ),
                    _ => false,
                }
            },
        },
    }
}

/// What registering an ICMP listener for `local_ip` makes of an interface:
/// the listener stands behind those of its type in the bundle of that
/// address, and nothing happens where the interface has no such address.
pub open spec fn icmp_listening(
    pre: StackInterfaceView,
    post: StackInterfaceView,
    local_ip: Ipv4Addr,
    kind: IcmpType,
    listener: ListenerId,
) -> bool {
    if pre.addresses.contains(local_ip) {
        &&& post == (StackInterfaceView { datas: post.datas, ..pre })
        &&& data_index(pre.datas, local_ip, data_position(pre.datas, local_ip))
        &&& icmp_listener_added(
            pre.datas,
            post.datas,
            data_position(pre.datas, local_ip),
            kind,
            listener,
        )
    } else {
        post == pre
    }
}

/// The worker has learned that `ip` is at `mac`: the binding is in the ARP
/// table, the waiters are notified, and where the binding changed the
/// barrier has moved on, so that senders resolved before are refused.
pub open spec fn arp_updated(
    pre: StackInterfaceView,
    post: StackInterfaceView,
    ip: Ipv4Addr,
    mac: MacAddr,
) -> bool {
    &&& post == (StackInterfaceView { arp_table: post.arp_table, barrier: post.barrier, ..pre })
    &&& binding_inserted(pre.arp_table, post.arp_table, ip, mac)
    &&& if pre.arp_table.lookup(ip) != Some(mac) {
        stepped(pre.barrier, post.barrier)
    } else {
        post.barrier == pre.barrier
    }
}

/// The worker has dealt with the request of `(sender_ip, sender_mac)` for
/// `target_ip`: where `target_ip` is a local address a reply went out to the
/// sender, else nothing happened.
pub open spec fn arp_answered(
    pre: StackInterfaceView,
    post: StackInterfaceView,
    sender_ip: Ipv4Addr,
    sender_mac: MacAddr,
    target_ip: Ipv4Addr,
) -> bool {
    if pre.addresses.contains(target_ip) {
        &&& post == (StackInterfaceView { barrier: post.barrier, ..pre })
        &&& emitted(
            pre.barrier,
            post.barrier,
            arp_reply_frame(pre.interface.mac, target_ip, sender_mac, sender_ip),
        )
    } else {
        post == pre
    }
}

/// What processing `msg` makes of the state `pre`, and whether the worker
/// goes on afterwards.
pub open spec fn worked(
    pre: StackInterfaceView,
    msg: StackInterfaceMsg,
    post: StackInterfaceView,
    go_on: bool,
) -> bool {
    match msg {
        StackInterfaceMsg::UpdateArpTable(ip, mac) => go_on && arp_updated(pre, post, ip, mac),
        StackInterfaceMsg::ArpRequest(sender_ip, sender_mac, target_ip) => go_on && arp_answered(
            pre,
            post,
            sender_ip,
            sender_mac,
            target_ip,
        ),
        StackInterfaceMsg::Shutdown => !go_on && post == pre,
    }
}

/// Where the worker stops in `msgs`: the index of the first `Shutdown` at or
/// behind `from`, or the length of `msgs` where there is none.
pub open spec fn shutdown_index(msgs: Seq<StackInterfaceMsg>, from: int) -> int
    decreases msgs.len() - from,
{
    if from < 0 || from >= msgs.len() {
        msgs.len() as int
    } else if msgs[from] == StackInterfaceMsg::Shutdown {
        from
    } else {
        shutdown_index(msgs, from + 1)
    }
}

/// Whether `post` is what processing every message of `msgs`, in order,
/// makes of `pre`, none of them telling the worker to stop.
pub open spec fn worked_through(
    pre: StackInterfaceView,
    msgs: Seq<StackInterfaceMsg>,
    post: StackInterfaceView,
) -> bool
    decreases msgs.len(),
{
    if msgs.len() == 0 {
        post == pre
    } else {
        exists|mid: StackInterfaceView|
            worked_through(pre, msgs.drop_last(), mid) && #[trigger] worked(
                mid,
                msgs.last(),
                post,
                true,
            )
    }
}

/// A received packet for a listener of the stack.
#[derive(Debug)]
pub enum Delivery {
    Udp(UdpDelivery),
    Icmp(IcmpDelivery),
}

/// What one received frame asks for: messages for the interface's worker,
/// and a packet for listeners.
#[derive(Debug)]
pub struct Received {
    /// Messages for the worker, in the order in which to process them.
    pub messages: Vec<StackInterfaceMsg>,
    pub delivery: Option<Delivery>,
}

/// The messages that a received frame asks the worker to process: those of
/// the ARP packet in it, none where it carries anything else.
pub open spec fn rx_messages(frame: Seq<u8>) -> Seq<StackInterfaceMsg> {
    if frame.len() >= ETHERNET_HEADER_SIZE && ethernet_type(frame) == EtherType(ETHERTYPE_ARP) {
        arp_messages(ethernet_payload(frame))
    } else {
        Seq::empty()
    }
}

/// Whether `delivery` is what the datagram `packet` from `src` for `dst`
/// comes to under the UDP listeners `lookup`: dropped unless it parses and
/// somebody holds its port, else handed to that listener with both socket
/// addresses and the payload.
pub open spec fn udp_delivered(
    lookup: UdpListenerLookup,
    src: Ipv4Addr,
    dst: Ipv4Addr,
    packet: Seq<u8>,
    delivery: Option<Delivery>,
) -> bool {
    if udp_parsable(packet) && lookup.bound().contains_key(udp_dst_port(packet)) {
        &&& delivery matches Some(Delivery::Udp(d))
        &&& d.listener == lookup.bound()[udp_dst_port(packet)]
        &&& d.src == (SocketAddrV4 { ip: src, port: udp_src_port(packet) })
        &&& d.dst == (SocketAddrV4 { ip: dst, port: udp_dst_port(packet) })
        &&& d.payload@ == udp_payload(packet)
    } else {
        delivery is None
    }
}

/// Whether `delivery` is what the message `packet` from `src` comes to
/// under the ICMP listeners `lookup`: dropped where it is too short for a
/// header, else handed whole to every listener of its type, in registration
/// order.
pub open spec fn icmp_delivered(
    lookup: IcmpListenerLookup,
    src: Ipv4Addr,
    packet: Seq<u8>,
    delivery: Option<Delivery>,
) -> bool {
    if packet.len() >= ICMP_HEADER_SIZE {
        &&& delivery matches Some(Delivery::Icmp(d))
        &&& d.icmp_type == IcmpType(packet[0])
        &&& d.listeners@ == lookup.registered(IcmpType(packet[0]))
        &&& d.src == src
        &&& d.packet@ == packet
    } else {
        delivery is None
    }
}

/// Whether `delivery` is what the IPv4 packet `packet` comes to on an
/// interface with the bundles `datas`: dropped unless it parses, is for a
/// local address and carries UDP or ICMP; else handed to the listeners of
/// that address.
pub open spec fn ipv4_delivered(
    datas: Seq<Ipv4Data>,
    packet: Seq<u8>,
    delivery: Option<Delivery>,
) -> bool {
    if ipv4_parsable(packet) && data_keys(datas).contains(ipv4_dst(packet)) {
        let data = datas[data_position(datas, ipv4_dst(packet))];
        if ipv4_protocol(packet) == IpNextHeaderProtocol(PROTOCOL_UDP) {
            udp_delivered(
                data.udp(),
                ipv4_src(packet),
                ipv4_dst(packet),
                ipv4_payload(packet),
                delivery,
            )
        } else if ipv4_protocol(packet) == IpNextHeaderProtocol(PROTOCOL_ICMP) {
            icmp_delivered(data.icmp(), ipv4_src(packet), ipv4_payload(packet), delivery)
        } else {
            delivery is None
        }
    } else {
        delivery is None
    }
}

/// Whether `delivery` is what a received frame comes to: that of the IPv4
/// packet in it, none where it carries anything else.
pub open spec fn rx_delivered(
    datas: Seq<Ipv4Data>,
    frame: Seq<u8>,
    delivery: Option<Delivery>,
) -> bool {
    if frame.len() >= ETHERNET_HEADER_SIZE && ethernet_type(frame) == EtherType(ETHERTYPE_IPV4) {
        ipv4_delivered(datas, ethernet_payload(frame), delivery)
    } else {
        delivery is None
    }
}

/// Represents the stack on one physical interface.
/// The larger `NetworkStack` comprises multiple of these.
#[derive(Debug)]
pub struct StackInterface {
    data: StackInterfaceData,
    mtu: usize,
    arp_table: ArpTable,
    ipv4_datas: Vec<Ipv4Data>,
    ethernet_rx: EthernetRx,
}

impl View for StackInterface {
    type V = StackInterfaceView;

    closed spec fn view(&self) -> StackInterfaceView {
        StackInterfaceView {
            interface: self.data.interface,
            barrier: self.data.tx,
            addresses: self.data.addresses(),
            mtu: self.mtu,
            arp_table: self.arp_table,
            datas: self.ipv4_datas@,
        }
    }
}

impl StackInterface {
    /// ARP frames go to the ARP receiver, IPv4 frames to the IPv4 receiver,
    /// and the ARP receiver was registered first.
    pub closed spec fn rx_wired(&self) -> bool {
        self.ethernet_rx.listeners() == seq![EthernetListener::Arp, EthernetListener::Ipv4]
    }

    /// The invariant of an interface: the set of local addresses is the set
    /// of keys of the bundles, no address has two bundles, every network has
    /// a valid prefix, and the ARP table is consistent.
    pub open spec fn wf(&self) -> bool {
        &&& self.rx_wired()
        &&& self@.arp_table.wf()
        &&& self@.addresses == data_keys(self@.datas)
        &&& forall|i: int|
            0 <= i < self@.datas.len() ==> (#[trigger] self@.datas[i]).spec_net().wf()
        &&& forall|i: int, j: int|
            0 <= i < j < self@.datas.len() ==> (#[trigger] self@.datas[i]).spec_ip()
                != (#[trigger] self@.datas[j]).spec_ip()
    }

    /// On a consistent interface the set of local addresses is the set of
    /// keys of the bundles, and every key has one bundle.
    pub proof fn lemma_local_ips_are_data_keys(&self, ip: Ipv4Addr)
        requires
            self.wf(),
        ensures
            self@.addresses == data_keys(self@.datas),
            self@.addresses.contains(ip) <==> exists|i: int| data_index(self@.datas, ip, i),
            forall|i: int, j: int|
                data_index(self@.datas, ip, i) && data_index(self@.datas, ip, j) ==> i == j,
    {
        if self@.addresses.contains(ip) {
            let i = choose|i: int|
                0 <= i < self@.datas.len() && #[trigger] self@.datas[i].spec_ip() == ip;
            assert(data_index(self@.datas, ip, i));
        }
        if exists|i: int| data_index(self@.datas, ip, i) {
            let i = choose|i: int| data_index(self@.datas, ip, i);
            assert(self@.datas[i].spec_ip() == ip);
        }
        assert forall|i: int, j: int|
            data_index(self@.datas, ip, i) && data_index(self@.datas, ip, j) implies i == j by {
            if i < j {
                assert(self@.datas[i].spec_ip() != self@.datas[j].spec_ip());
            }
            if j < i {
                assert(self@.datas[j].spec_ip() != self@.datas[i].spec_ip());
            }
        }
    }

    /// Where the bundles' addresses are distinct, the bundle for an address is
    /// found at one index only.
    pub proof fn lemma_data_position_unique(&self, ip: Ipv4Addr, index: int)
        requires
            self.wf(),
            data_index(self@.datas, ip, index),
        ensures
            data_position(self@.datas, ip) == index,
    {
        let k = data_position(self@.datas, ip);
        assert(data_index(self@.datas, ip, k));
        if k < index {
            assert(self@.datas[k].spec_ip() != self@.datas[index].spec_ip());
        }
        if index < k {
            assert(self@.datas[index].spec_ip() != self@.datas[k].spec_ip());
        }
    }

    /// Keys, prefixes and distinctness of the bundles depend on their networks
    /// alone.
    proof fn lemma_same_nets_keep_wf(pre: StackInterface, post: StackInterface)
        requires
            pre.wf(),
            post.rx_wired(),
            post@.arp_table.wf(),
            post@.addresses == pre@.addresses,
            post@.datas.len() == pre@.datas.len(),
            forall|i: int|
                0 <= i < pre@.datas.len() ==> (#[trigger] post@.datas[i]).spec_net()
                    == pre@.datas[i].spec_net(),
        ensures
            post.wf(),
    {
        let before = pre@.datas;
        let after = post@.datas;
        assert forall|x: Ipv4Addr| data_keys(after).contains(x) == data_keys(before).contains(
            x,
        ) by {
            if data_keys(after).contains(x) {
                let i = choose|i: int| 0 <= i < after.len() && #[trigger] after[i].spec_ip() == x;
                assert(before[i].spec_ip() == x);
            }
            if data_keys(before).contains(x) {
                let i = choose|i: int| 0 <= i < before.len() && #[trigger] before[i].spec_ip() == x;
                assert(after[i].spec_ip() == x);
            }
        }
        assert(data_keys(after) =~= data_keys(before));
        assert forall|i: int, j: int| 0 <= i < j < after.len() implies (
        #[trigger] after[i]).spec_ip() != (#[trigger] after[j]).spec_ip() by {
            assert(before[i].spec_ip() != before[j].spec_ip());
        }
        assert forall|i: int| 0 <= i < after.len() implies (
        #[trigger] after[i]).spec_net().wf() by {
            assert(before[i].spec_net().wf());
        }
    }

    /// An interface on `interface`, sending through `channel`: no local
    /// address, an empty ARP table, the default MTU.
    pub fn new(interface: Interface, channel: EthernetChannel) -> (stack_interface: StackInterface)
        ensures
            stack_interface.wf(),
            stack_interface@.interface == interface,
            is_new_interface(stack_interface@, channel),
    {
        let EthernetChannel(sender) = channel;
        let stack_interface_data = StackInterfaceData {
            interface,
            tx: TxBarrier::new(sender),
            ipv4_addresses: HashSet::new(),
        };
        let arp_table = ArpTable::new();
        let mut ethernet_listeners: Vec<EthernetListener> = Vec::new();
        ethernet_listeners.push(EthernetListener::Arp);
        ethernet_listeners.push(EthernetListener::Ipv4);
        assert(ethernet_listeners@ =~= seq![EthernetListener::Arp, EthernetListener::Ipv4]);
        let ethernet_rx = EthernetRx::new(ethernet_listeners);
        let stack_interface = StackInterface {
            data: stack_interface_data,
            mtu: DEFAULT_MTU,
            arp_table,
            ipv4_datas: Vec::new(),
            ethernet_rx,
        };
        assert(stack_interface@.addresses =~= Set::<Ipv4Addr>::empty());
        assert(data_keys(stack_interface@.datas) =~= Set::<Ipv4Addr>::empty());
        stack_interface
    }

    pub fn interface(&self) -> (interface: &Interface)
        ensures
            *interface == self@.interface,
    {
        &self.data.interface
    }

    /// The barrier in front of the interface's datalink, open to changes:
    /// the senders of this interface send through it.
    pub fn tx_barrier(&mut self) -> (barrier: &mut TxBarrier)
        ensures
            *barrier == old(self)@.barrier,
            final(self)@ == (StackInterfaceView { barrier: *final(barrier), ..old(self)@ }),
            final(self).rx_wired() == old(self).rx_wired(),
    {
        &mut self.data.tx
    }

    /// Hands over the frames that wait on the datalink, oldest first, for
    /// whoever owns the device to put them on the wire.
    pub fn take_frames(&mut self) -> (frames: Vec<Vec<u8>>)
        ensures
            frames@.len() == old(self)@.barrier.spec_frames().len(),
            forall|i: int|
                0 <= i < frames@.len() ==> frames@[i]@ == old(self)@.barrier.spec_frames()[i],
            final(self)@ == (StackInterfaceView { barrier: final(self)@.barrier, ..old(self)@ }),
            final(self)@.barrier.spec_frames() == Seq::<Seq<u8>>::empty(),
            final(self)@.barrier.spec_version() == old(self)@.barrier.spec_version(),
            final(self)@.barrier.datalink().spec_capacity()
                == old(self)@.barrier.datalink().spec_capacity(),
            old(self).wf() ==> final(self).wf(),
    {
        self.data.tx.take_frames()
    }

    /// A sender of frames to `dst`, valid until the barrier next changes.
    pub fn ethernet_tx(&self, dst: MacAddr) -> (ethernet: EthernetTxImpl<TxImpl>)
        ensures
            is_ethernet_tx(ethernet, self@.barrier.spec_version(), self@.interface.mac, dst),
    {
        self.data.ethernet_tx(dst)
    }

    /// A sender of ARP requests: they go to the broadcast address.
    pub fn arp_request_tx(&self) -> (arp: ArpRequestTx<EthernetTxImpl<TxImpl>>)
        ensures
            is_ethernet_tx(
                arp.inner(),
                self@.barrier.spec_version(),
                self@.interface.mac,
                MacAddr::spec_broadcast(),
            ),
    {
        self.data.arp_request_tx()
    }

    /// The ARP table of the interface, open to changes. What the caller
    /// leaves behind is the interface's table from then on.
    pub fn arp_table(&mut self) -> (table: &mut ArpTable)
        ensures
            *table == old(self)@.arp_table,
            final(self)@ == (StackInterfaceView { arp_table: *final(table), ..old(self)@ }),
            final(self).rx_wired() == old(self).rx_wired(),
    {
        &mut self.arp_table
    }

    pub fn get_mtu(&self) -> (mtu: usize)
        ensures
            mtu == self@.mtu,
    {
        self.mtu
    }

    /// Changes the MTU. Senders made before the change no longer pass the
    /// barrier.
    pub fn set_mtu(&mut self, mtu: usize)
        ensures
            final(self)@ == (StackInterfaceView {
                mtu,
                barrier: final(self)@.barrier,
                ..old(self)@
            }),
            stepped(old(self)@.barrier, final(self)@.barrier),
            old(self).wf() ==> final(self).wf(),
    {
        self.mtu = mtu;
        self.data.tx.inc();
    }

    /// The index of the bundle for `ip`, if the interface has that address.
    pub(crate) fn find_data(&self, ip: Ipv4Addr) -> (found: Option<usize>)
        ensures
            found.is_some() == data_keys(self@.datas).contains(ip),
            found matches Some(index) ==> data_index(self@.datas, ip, index as int),
    {
        let mut i: usize = 0;
        while i < self.ipv4_datas.len()
            invariant
                i <= self.ipv4_datas@.len(),
                forall|j: int| 0 <= j < i ==> (#[trigger] self.ipv4_datas@[j]).spec_ip() != ip,
            decreases self.ipv4_datas@.len() - i,
        {
            if self.ipv4_datas[i].net.ip() == ip {
                assert(self@.datas[i as int].spec_ip() == ip);
                return Some(i);
            }
            i += 1;
        }
        None
    }

    /// Binds the local address of `ip_net` to the interface. An address that
    /// the interface already has is refused with `IllegalArgument`.
    pub fn add_ipv4(&mut self, ip_net: Ipv4Network) -> (result: StackResult<()>)
        requires
            old(self).wf(),
            ip_net.wf(),
        ensures
            final(self).wf(),
            old(self)@.addresses.contains(ip_net.spec_ip()) ==> {
                &&& result == Err::<(), StackError>(StackError::IllegalArgument)
                &&& final(self)@ == old(self)@
            },
            !old(self)@.addresses.contains(ip_net.spec_ip()) ==> {
                &&& result == Ok::<(), StackError>(())
                &&& final(self)@ == (StackInterfaceView {
                    addresses: old(self)@.addresses.insert(ip_net.spec_ip()),
                    datas: final(self)@.datas,
                    ..old(self)@
                })
                &&& final(self)@.datas.drop_last() == old(self)@.datas
                &&& final(self)@.datas.len() == old(self)@.datas.len() + 1
                &&& final(self)@.datas.last().is_fresh(ip_net)
            },
    {
        let ip: Ipv4Addr = ip_net.ip();
        match self.find_data(ip) {
            Some(_) => Err(StackError::IllegalArgument),
            None => {
                let data = Ipv4Data::new(ip_net);
                self.ipv4_datas.push(data);
                self.data.ipv4_addresses.insert(ip.to_bits());
                proof {
                    let before = old(self)@.datas;
                    let after = self@.datas;
                    assert(after.drop_last() =~= before);
                    assert(after.last().spec_ip() == ip);
                    assert forall|x: Ipv4Addr|
                        self@.addresses.contains(x) == old(self)@.addresses.insert(ip).contains(
                            x,
                        ) by {
                        Ipv4Addr::lemma_bits_injective(x, ip);
                    }
                    assert(self@.addresses =~= old(self)@.addresses.insert(ip));
                    assert forall|x: Ipv4Addr| data_keys(after).contains(x) == data_keys(
                        before,
                    ).insert(ip).contains(x) by {
                        if data_keys(after).contains(x) {
                            let i = choose|i: int|
                                0 <= i < after.len() && #[trigger] after[i].spec_ip() == x;
                            if i < before.len() {
                                assert(before[i].spec_ip() == x);
                            }
                        }
                        if data_keys(before).contains(x) {
                            let i = choose|i: int|
                                0 <= i < before.len() && #[trigger] before[i].spec_ip() == x;
                            assert(after[i].spec_ip() == x);
                        }
                        if x == ip {
                            assert(after[after.len() - 1].spec_ip() == x);
                        }
                    }
                    assert(data_keys(after) =~= data_keys(before).insert(ip));
                    assert forall|i: int, j: int| 0 <= i < j < after.len() implies (
                    #[trigger] after[i]).spec_ip() != (#[trigger] after[j]).spec_ip() by {
                        assert(before[i] == after[i]);
                        if j < before.len() {
                            assert(before[j] == after[j]);
                        } else {
                            assert(!data_keys(before).contains(ip));
                        }
                    }
                    assert forall|i: int| 0 <= i < after.len() implies (
                    #[trigger] after[i]).spec_net().wf() by {
                        if i < before.len() {
                            assert(before[i] == after[i]);
                        }
                    }
                }
                Ok(())
            },
        }
    }

    /// Finds which local IP is suitable as source address for packets sent
    /// to `dst`.
    pub fn closest_local_ip(&self, dst: Ipv4Addr) -> (src: Option<Ipv4Addr>)
        requires
            self.wf(),
        ensures
            src == closest_ip(self@.datas, dst),
    {
        let mut i: usize = 0;
        while i < self.ipv4_datas.len()
            invariant
                i <= self.ipv4_datas@.len(),
                self.wf(),
                first_hit(self.ipv4_datas@, dst, 0) == first_hit(self.ipv4_datas@, dst, i as int),
            decreases self.ipv4_datas@.len() - i,
        {
            assert(self@.datas[i as int].spec_net().wf());
            if self.ipv4_datas[i].net.contains(dst) {
                return Some(self.ipv4_datas[i].net.ip());
            }
            i += 1;
        }
        if self.ipv4_datas.len() > 0 {
            Some(self.ipv4_datas[0].net.ip())
        } else {
            None
        }
    }

    /// A sender of IPv4 packets to `dst`, by way of `gw` if the route names a
    /// gateway.
    ///
    /// The source address is `closest_local_ip` of the next hop. Where the
    /// ARP table knows the next hop, the sender is ready. Where it does not,
    /// a waiter is registered, an ARP request is sent, and the caller is told
    /// to wait: once the waiter has been notified, the same call gives the
    /// sender.
    pub fn ipv4_tx(
        &mut self,
        dst: Ipv4Addr,
        gw: Option<Ipv4Addr>,
    ) -> (result: StackResult<Resolution<Ipv4TxImpl<EthernetTxImpl<TxImpl>>>>)
        requires
            old(self).wf(),
        ensures
            final(self).wf(),
            ipv4_tx_outcome(old(self)@, final(self)@, dst, gw, result),
    {
        let local_dst: Ipv4Addr = match gw {
            Some(gw) => gw,
            None => dst,
        };
        match self.closest_local_ip(local_dst) {
            None => Err(StackError::IllegalArgument),
            Some(src) => {
                match self.arp_table.get(local_dst) {
                    Ok(mac) => {
                        let ethernet_tx = self.ethernet_tx(mac);
                        Ok(Resolution::Ready(Ipv4TxImpl::new(ethernet_tx, src, dst, self.mtu)))
                    },
                    Err(waiter) => {
                        let mut arp = self.arp_request_tx();
                        match arp.send(&mut self.data.tx, src, local_dst) {
                            Ok(()) => Ok(Resolution::Waiting(waiter)),
                            Err(e) => Err(StackError::TxError(e)),
                        }
                    },
                }
            },
        }
    }

    /// Registers `listener` for ICMP messages of type `icmp_type` that arrive
    /// for `local_ip`. An address that the interface does not have is refused
    /// with `InvalidInput`.
    pub fn icmp_listen(
        &mut self,
        local_ip: Ipv4Addr,
        icmp_type: IcmpType,
        listener: ListenerId,
    ) -> (result: StackResult<()>)
        requires
            old(self).wf(),
        ensures
            final(self).wf(),
            icmp_listening(old(self)@, final(self)@, local_ip, icmp_type, listener),
            result == if old(self)@.addresses.contains(local_ip) {
                Ok::<(), StackError>(())
            } else {
                Err::<(), StackError>(StackError::InvalidInput)
            },
    {
        match self.find_data(local_ip) {
            Some(index) => {
                self.ipv4_datas[index].icmp_listeners.add(icmp_type, listener);
                proof {
                    Self::lemma_same_nets_keep_wf(*old(self), *self);
                    old(self).lemma_data_position_unique(local_ip, position(index));
                }
                Ok(())
            },
            None => Err(StackError::InvalidInput),
        }
    }

    /// The UDP listeners of the bundle at `index`.
    pub(crate) fn udp_listeners(&self, index: usize) -> (listeners: &UdpListenerLookup)
        requires
            index < self@.datas.len(),
        ensures
            *listeners == self@.datas[index as int].udp(),
    {
        &self.ipv4_datas[index].udp_listeners
    }

    /// Binds `port` to `listener` on the bundle at `index`.
    pub(crate) fn udp_bind(&mut self, index: usize, port: u16, listener: ListenerId)
        requires
            old(self).wf(),
            index < old(self)@.datas.len(),
        ensures
            final(self).wf(),
            final(self)@ == (StackInterfaceView { datas: final(self)@.datas, ..old(self)@ }),
            udp_listener_bound(old(self)@.datas, final(self)@.datas, index as int, port, listener),
    {
        self.ipv4_datas[index].udp_listeners.insert(port, listener);
        proof {
            Self::lemma_same_nets_keep_wf(*old(self), *self);
        }
    }

    /// Records that `ip` is at `mac`. A binding that changed invalidates
    /// every sender made so far: one of them may be bound to the stale MAC.
    pub fn update_arp(&mut self, ip: Ipv4Addr, mac: MacAddr)
        requires
            old(self).wf(),
        ensures
            final(self).wf(),
            arp_updated(old(self)@, final(self)@, ip, mac),
    {
        if self.arp_table.insert(ip, mac) {
            self.data.tx.inc();
        }
    }

    /// Answers an ARP request for `target_ip` if that is a local address.
    /// A reply that the datalink has no room for is dropped.
    pub fn handle_arp_request(
        &mut self,
        sender_ip: Ipv4Addr,
        sender_mac: MacAddr,
        target_ip: Ipv4Addr,
    )
        requires
            old(self).wf(),
        ensures
            final(self).wf(),
            arp_answered(old(self)@, final(self)@, sender_ip, sender_mac, target_ip),
    {
        if self.data.ipv4_addresses.contains(&target_ip.to_bits()) {
            let mut arp = self.data.arp_reply_tx(sender_mac);
            let _ = arp.send(&mut self.data.tx, target_ip, sender_mac, sender_ip);
            proof {
                let frame = arp_reply_frame(
                    self@.interface.mac,
                    target_ip,
                    sender_mac,
                    sender_ip,
                );
                assert(frame.len() == ETHERNET_HEADER_SIZE + ARP_PACKET_SIZE);
                let waiting = old(self)@.barrier.spec_frames();
                assert(waiting + seq![frame] =~= waiting.push(frame));
            }
        }
    }

    /// Processes one message of the control queue. Returns whether the
    /// worker goes on: `Shutdown` ends it.
    pub fn process_msg(&mut self, msg: StackInterfaceMsg) -> (go_on: bool)
        requires
            old(self).wf(),
        ensures
            final(self).wf(),
            worked(old(self)@, msg, final(self)@, go_on),
    {
        match msg {
            StackInterfaceMsg::UpdateArpTable(ip, mac) => self.update_arp(ip, mac),
            StackInterfaceMsg::ArpRequest(sender_ip, sender_mac, target_ip) => {
                self.handle_arp_request(sender_ip, sender_mac, target_ip)
            },
            StackInterfaceMsg::Shutdown => return false,
        }
        true
    }

    /// Runs the worker over the messages that wait in its queue, oldest
    /// first, until one of them is `Shutdown` or all are processed. Returns
    /// whether the worker is still running: `false` says that it was told to
    /// shut down and left the messages behind `Shutdown` alone.
    pub fn run(&mut self, queue: &Vec<StackInterfaceMsg>) -> (running: bool)
        requires
            old(self).wf(),
        ensures
            final(self).wf(),
            running == (shutdown_index(queue@, 0) == queue@.len()),
            worked_through(
                old(self)@,
                queue@.take(shutdown_index(queue@, 0)),
                final(self)@,
            ),
    {
        let mut i: usize = 0;
        assert(queue@.take(0) =~= Seq::<StackInterfaceMsg>::empty());
        while i < queue.len()
            invariant
                i <= queue@.len(),
                self.wf(),
                shutdown_index(queue@, 0) == shutdown_index(queue@, i as int),
                worked_through(old(self)@, queue@.take(i as int), self@),
            decreases queue@.len() - i,
        {
            let ghost before = self@;
            if !self.process_msg(queue[i]) {
                return false;
            }
            proof {
                let done = queue@.take(i + 1);
                assert(done.drop_last() =~= queue@.take(i as int));
                assert(worked(before, done.last(), self@, true));
            }
            i += 1;
        }
        true
    }

    /// Invalidates every sender made so far: the interface goes away.
    pub fn shutdown(&mut self)
        ensures
            final(self)@ == (StackInterfaceView { barrier: final(self)@.barrier, ..old(self)@ }),
            stepped(old(self)@.barrier, final(self)@.barrier),
            old(self).wf() ==> final(self).wf(),
    {
        self.data.tx.inc();
    }

    /// Finds the listeners of the IPv4 packet `packet`.
    fn ipv4_recv(&self, packet: &[u8]) -> (delivery: Option<Delivery>)
        requires
            self.wf(),
        ensures
            ipv4_delivered(self@.datas, packet@, delivery),
    {
        let header = match parse_ipv4(packet) {
            Some(header) => header,
            None => {
                return None;
            },
        };
        let index: usize = match self.find_data(header.dst) {
            Some(index) => index,
            None => {
                return None;
            },
        };
        let payload = slice_subrange(packet, header.header_len, header.total_length);
        let delivery: Option<Delivery> = if header.protocol.0 == PROTOCOL_UDP {
            match self.ipv4_datas[index].udp_listeners.recv(header.src, header.dst, payload) {
                Some(d) => Some(Delivery::Udp(d)),
                None => None,
            }
        } else if header.protocol.0 == PROTOCOL_ICMP {
            match self.ipv4_datas[index].icmp_listeners.recv(header.src, payload) {
                Some(d) => Some(Delivery::Icmp(d)),
                None => None,
            }
        } else {
            None
        };
        proof {
            self.lemma_data_position_unique(header.dst, position(index));
        }
        delivery
    }

    /// Takes one frame from the datalink. ARP packets become messages for
    /// the worker; IPv4 packets for a local address go to the listeners of
    /// their port or type. Everything else is dropped silently.
    pub fn recv(&self, frame: &[u8]) -> (received: Received)
        requires
            self.wf(),
        ensures
            received.messages@ == rx_messages(frame@),
            rx_delivered(self@.datas, frame@, received.delivery),
    {
        let mut messages: Vec<StackInterfaceMsg> = Vec::new();
        let mut delivery: Option<Delivery> = None;
        let takers = self.ethernet_rx.recv(frame);
        proof {
            if frame@.len() >= ETHERNET_HEADER_SIZE {
                lemma_wired_takers(ethernet_type(frame@));
            }
        }
        let mut i: usize = 0;
        while i < takers.len()
            invariant
                self.wf(),
                i <= takers@.len() <= 1,
                takers@ == self.ethernet_rx.spec_recv(frame@),
                takers@.len() == 1 ==> frame@.len() >= ETHERNET_HEADER_SIZE,
                takers@.len() == 1 ==> takers@[0].spec_ether_type() == ethernet_type(frame@),
                takers@.len() == 0 ==> rx_messages(frame@).len() == 0 && rx_delivered(
                    self@.datas,
                    frame@,
                    None,
                ),
                i == 0 ==> messages@.len() == 0 && delivery is None,
                i == 1 ==> messages@ == rx_messages(frame@) && rx_delivered(
                    self@.datas,
                    frame@,
                    delivery,
                ),
            decreases takers@.len() - i,
        {
            let payload = slice_subrange(frame, ETHERNET_HEADER_SIZE, frame.len());
            assert(payload@ =~= ethernet_payload(frame@));
            match takers[i] {
                EthernetListener::Arp => {
                    messages = ArpRx::recv(payload);
                },
                EthernetListener::Ipv4 => {
                    delivery = self.ipv4_recv(payload);
                },
            }
            i += 1;
        }
        Received { messages, delivery }
    }
}

/// Once the worker has learned the next hop's address, the call that had to
/// wait gives a sender: it is bound to the address that was learned and
/// passes the barrier as the update left it.
pub proof fn lemma_resolved_after_update(
    pre: StackInterfaceView,
    learned: StackInterfaceView,
    post: StackInterfaceView,
    dst: Ipv4Addr,
    gw: Option<Ipv4Addr>,
    mac: MacAddr,
    result: StackResult<Resolution<Ipv4TxImpl<EthernetTxImpl<TxImpl>>>>,
)
    requires
        arp_updated(pre, learned, next_hop(dst, gw), mac),
        closest_ip(pre.datas, next_hop(dst, gw)).is_some(),
        ipv4_tx_outcome(learned, post, dst, gw, result),
    ensures
        post == learned,
        result matches Ok(Resolution::Ready(ipv4)) && ipv4.spec_dst_mac() == mac && ipv4.admitted(
            &learned.barrier,
        ),
{
}

/// The reply that answers a request is addressed to the station that asked
/// and names the answering interface as sender, on the wire and in the ARP
/// packet.
pub proof fn lemma_arp_reply_answers_request(
    own_mac: MacAddr,
    own_ip: Ipv4Addr,
    peer_mac: MacAddr,
    peer_ip: Ipv4Addr,
)
    ensures
        ({
            let frame = arp_reply_frame(own_mac, own_ip, peer_mac, peer_ip);
            let packet = arp_fields(ethernet_payload(frame));
            &&& ethernet_dst(frame) == peer_mac
            &&& ethernet_src(frame) == own_mac
            &&& ethernet_type(frame) == EtherType(ETHERTYPE_ARP)
            &&& arp_parsable(ethernet_payload(frame))
            &&& packet.operation == ArpOperation(ARP_REPLY)
            &&& packet.sender_mac == own_mac
            &&& packet.sender_ip == own_ip
            &&& packet.target_mac == peer_mac
            &&& packet.target_ip == peer_ip
        }),
{
    let reply = arp_reply(own_mac, own_ip, peer_mac, peer_ip);
    lemma_ethernet_round_trip(own_mac, peer_mac, EtherType(ETHERTYPE_ARP), arp_bytes(reply));
    lemma_arp_round_trip(reply, Seq::empty());
    assert(arp_bytes(reply) + Seq::<u8>::empty() =~= arp_bytes(reply));
}

/// Of an interface's two receivers, the one that advertises the frame's
/// protocol takes the frame; a frame of another protocol goes to nobody.
pub proof fn lemma_wired_takers(ether_type: EtherType)
    ensures
        matching_listeners(seq![EthernetListener::Arp, EthernetListener::Ipv4], ether_type)
            == if ether_type == EtherType(ETHERTYPE_ARP) {
            seq![EthernetListener::Arp]
        } else if ether_type == EtherType(ETHERTYPE_IPV4) {
            seq![EthernetListener::Ipv4]
        } else {
            Seq::<EthernetListener>::empty()
        },
{
    let wanted = |l: EthernetListener| l.spec_ether_type() == ether_type;
    let none = Seq::<EthernetListener>::empty();
    let one = none.push(EthernetListener::Arp);
    let two = one.push(EthernetListener::Ipv4);
    assert(two =~= seq![EthernetListener::Arp, EthernetListener::Ipv4]);
    assert(none.filter(wanted) =~= none) by {
        reveal(Seq::filter);
    }
    none.lemma_filter_push(EthernetListener::Arp, wanted);
    one.lemma_filter_push(EthernetListener::Ipv4, wanted);
    if ether_type == EtherType(ETHERTYPE_ARP) {
        assert(two.filter(wanted) =~= seq![EthernetListener::Arp]);
    } else if ether_type == EtherType(ETHERTYPE_IPV4) {
        assert(two.filter(wanted) =~= seq![EthernetListener::Ipv4]);
    } else {
        assert(two.filter(wanted) =~= none);
    }
}

} // verus!
