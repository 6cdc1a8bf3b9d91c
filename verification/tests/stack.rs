use pnet::packet::arp::{ArpOperations, ArpPacket};
use pnet::packet::ethernet::{EtherTypes, EthernetPacket};
use pnet::packet::ip::IpNextHeaderProtocols;
use pnet::packet::ipv4::Ipv4Packet;
use pnet::packet::udp::UdpPacket;
use pnet::packet::Packet;
use rips::addr::{
    Interface, Ipv4Addr, Ipv4Network, Ipv6Addr, MacAddr, SocketAddr, SocketAddrV4, SocketAddrV6,
};
use rips::arp::{Notification, WaiterId};
use rips::datalink::FrameQueue;
use rips::error::{StackError, TxError};
use rips::ethernet::{EthernetTx, EthernetTxImpl};
use rips::icmp::{IcmpTx, IcmpType};
use rips::ipv4::{Ipv4Tx, Ipv4TxImpl};
use rips::listener::ListenerId;
use rips::stack::{
    accept_port, first_free_port, Delivery, EthernetChannel, NetworkStack, Resolution,
    StackInterface, StackInterfaceMsg, DEFAULT_MTU, LOCAL_PORT_RANGE_END, LOCAL_PORT_RANGE_START,
};
use rips::tx::TxImpl;
use rips::udp::{UdpListenerLookup, UdpTx};

type UdpSender = UdpTx<Ipv4TxImpl<EthernetTxImpl<TxImpl>>>;
type IcmpSender = IcmpTx<Ipv4TxImpl<EthernetTxImpl<TxImpl>>>;

fn own_mac() -> MacAddr {
    MacAddr::new(0x02, 0x00, 0x00, 0x00, 0x00, 0x01)
}

fn peer_mac() -> MacAddr {
    MacAddr::new(0x00, 0x11, 0x22, 0x33, 0x44, 0x55)
}

fn local_ip() -> Ipv4Addr {
    Ipv4Addr::new(10, 0, 0, 1)
}

fn peer_ip() -> Ipv4Addr {
    Ipv4Addr::new(10, 0, 0, 2)
}

fn eth0() -> Interface {
    Interface::new("eth0".to_string(), own_mac())
}

fn local_net() -> Ipv4Network {
    Ipv4Network::new(local_ip(), 24).unwrap()
}

/// A stack with the single interface eth0 and the local address 10.0.0.1/24.
fn single_interface_stack() -> NetworkStack {
    let mut stack = NetworkStack::new();
    stack.add_interface(eth0(), EthernetChannel(FrameQueue::new(4096))).unwrap();
    stack.add_ipv4(&eth0(), local_net()).unwrap();
    stack
}

/// An Ethernet frame with an ARP packet from the peer.
fn arp_frame_from_peer(operation: u8, target: [u8; 4]) -> Vec<u8> {
    let mut frame = vec![
        0x02, 0x00, 0x00, 0x00, 0x00, 0x01, /* destination */
        0x00, 0x11, 0x22, 0x33, 0x44, 0x55, /* source */
        0x08, 0x06, /* ARP */
        0, 1, 0x08, 0x00, 6, 4, 0, operation, /* fixed fields, operation */
        0x00, 0x11, 0x22, 0x33, 0x44, 0x55, 10, 0, 0, 2, /* sender */
        0x02, 0x00, 0x00, 0x00, 0x00, 0x01, /* target hardware address */
    ];
    frame.extend_from_slice(&target);
    frame
}

/// Feeds `frame` to the interface and lets the worker process what it asks.
fn receive(interface: &mut StackInterface, frame: &[u8]) -> Option<Delivery> {
    let received = interface.recv(frame);
    for msg in received.messages {
        assert!(interface.process_msg(msg));
    }
    received.delivery
}

fn resolved_udp_tx(stack: &mut NetworkStack) -> UdpSender {
    let reply = arp_frame_from_peer(2, [10, 0, 0, 1]);
    receive(stack.interface(&eth0()).unwrap(), &reply);
    match stack.udp_tx(peer_ip(), 5000, 53).unwrap() {
        Resolution::Ready(tx) => tx,
        Resolution::Waiting(_) => panic!("the peer's address is known"),
    }
}

#[test]
fn udp_tx_resolves_through_arp_and_sends() {
    let mut stack = single_interface_stack();
    // the peer is unknown: an ARP request goes out and the caller waits
    let waiter = match stack.udp_tx(peer_ip(), 5000, 53).unwrap() {
        Resolution::Waiting(waiter) => waiter,
        Resolution::Ready(_) => panic!("the peer's address is not known yet"),
    };
    let frames = stack.interface(&eth0()).unwrap().take_frames();
    assert_eq!(frames.len(), 1);
    let request = EthernetPacket::new(&frames[0]).unwrap();
    assert_eq!(request.get_destination().octets(), [0xff; 6]);
    assert_eq!(request.get_source().octets(), [0x02, 0, 0, 0, 0, 0x01]);
    assert_eq!(request.get_ethertype(), EtherTypes::Arp);
    let arp = ArpPacket::new(request.payload()).unwrap();
    assert_eq!(arp.get_operation(), ArpOperations::Request);
    assert_eq!(arp.get_sender_hw_addr().octets(), [0x02, 0, 0, 0, 0, 0x01]);
    assert_eq!(arp.get_sender_proto_addr().octets(), [10, 0, 0, 1]);
    assert_eq!(arp.get_target_proto_addr().octets(), [10, 0, 0, 2]);

    // the reply arrives: the waiter is notified, once
    let reply = arp_frame_from_peer(2, [10, 0, 0, 1]);
    let interface = stack.interface(&eth0()).unwrap();
    assert!(receive(interface, &reply).is_none());
    assert_eq!(
        interface.arp_table().take_notifications(),
        vec![Notification { waiter, mac: peer_mac() }]
    );
    assert_eq!(interface.take_frames().len(), 0);

    // the same call now completes, and the sender works
    let mut tx = match stack.udp_tx(peer_ip(), 5000, 53).unwrap() {
        Resolution::Ready(tx) => tx,
        Resolution::Waiting(_) => panic!("the peer's address is known"),
    };
    let interface = stack.interface(&eth0()).unwrap();
    assert!(tx.send(interface.tx_barrier(), &[1, 2, 3]).is_ok());
    let frames = interface.take_frames();
    assert_eq!(frames.len(), 1);
    assert_eq!(frames[0].len(), 14 + 20 + 8 + 3);
    let frame = EthernetPacket::new(&frames[0]).unwrap();
    assert_eq!(frame.get_destination().octets(), [0x00, 0x11, 0x22, 0x33, 0x44, 0x55]);
    assert_eq!(frame.get_source().octets(), [0x02, 0, 0, 0, 0, 0x01]);
    assert_eq!(frame.get_ethertype(), EtherTypes::Ipv4);
    let packet = Ipv4Packet::new(frame.payload()).unwrap();
    assert_eq!(packet.get_source().octets(), [10, 0, 0, 1]);
    assert_eq!(packet.get_destination().octets(), [10, 0, 0, 2]);
    assert_eq!(packet.get_next_level_protocol(), IpNextHeaderProtocols::Udp);
    assert_eq!(packet.get_total_length(), 31);
    assert_eq!(packet.get_checksum(), pnet::packet::ipv4::checksum(&packet));
    let datagram = UdpPacket::new(packet.payload()).unwrap();
    assert_eq!(datagram.get_source(), 5000);
    assert_eq!(datagram.get_destination(), 53);
    assert_eq!(datagram.payload(), &[1, 2, 3]);
    assert_eq!(
        datagram.get_checksum(),
        pnet::packet::udp::ipv4_checksum(&datagram, &[10, 0, 0, 1].into(), &[10, 0, 0, 2].into())
    );
}

#[test]
fn set_mtu_invalidates_senders() {
    let mut stack = single_interface_stack();
    let mut tx = resolved_udp_tx(&mut stack);
    let interface = stack.interface(&eth0()).unwrap();
    assert_eq!(interface.get_mtu(), DEFAULT_MTU);
    assert!(tx.send(interface.tx_barrier(), &[1]).is_ok());
    interface.set_mtu(600);
    assert_eq!(interface.get_mtu(), 600);
    assert!(matches!(tx.send(interface.tx_barrier(), &[1]), Err(TxError::InvalidTx)));
    assert!(matches!(tx.send(interface.tx_barrier(), &[1]), Err(TxError::InvalidTx)));
    assert_eq!(interface.take_frames().len(), 1);
    // a sender made after the change works, under the new MTU
    let mut tx = resolved_udp_tx(&mut stack);
    let interface = stack.interface(&eth0()).unwrap();
    assert!(tx.send(interface.tx_barrier(), &[0; 572]).is_ok());
    assert!(matches!(
        tx.send(interface.tx_barrier(), &[0; 573]),
        Err(TxError::OversizedPacket)
    ));
}

#[test]
fn udp_listen_allocates_port_in_local_range() {
    let mut stack = single_interface_stack();
    let addr = SocketAddr::V4(SocketAddrV4::new(local_ip(), 0));
    let bound = stack.udp_listen(addr, ListenerId(1)).unwrap();
    let port = match bound {
        SocketAddr::V4(v4) => {
            assert_eq!(v4.ip(), local_ip());
            v4.port()
        }
        SocketAddr::V6(_) => panic!("bound on IPv4"),
    };
    assert!(LOCAL_PORT_RANGE_START <= port && port < LOCAL_PORT_RANGE_END);
    assert!((32768..61000).contains(&port));
    let again = SocketAddr::V4(SocketAddrV4::new(local_ip(), port));
    assert!(matches!(stack.udp_listen(again, ListenerId(2)), Err(StackError::AddrInUse)));
}

#[test]
fn udp_listen_allocated_ports_are_distinct() {
    let mut stack = single_interface_stack();
    let mut seen = Vec::new();
    for i in 0..200u64 {
        let addr = SocketAddr::V4(SocketAddrV4::new(local_ip(), 0));
        match stack.udp_listen(addr, ListenerId(i)).unwrap() {
            SocketAddr::V4(v4) => {
                assert!((32768..61000).contains(&v4.port()));
                assert!(!seen.contains(&v4.port()));
                seen.push(v4.port());
            }
            SocketAddr::V6(_) => panic!("bound on IPv4"),
        }
    }
}

#[test]
fn udp_listen_given_port() {
    let mut stack = single_interface_stack();
    let addr = SocketAddr::V4(SocketAddrV4::new(local_ip(), 53));
    assert_eq!(stack.udp_listen(addr, ListenerId(1)).unwrap(), addr);
    assert!(matches!(stack.udp_listen(addr, ListenerId(2)), Err(StackError::AddrInUse)));
    let other = SocketAddr::V4(SocketAddrV4::new(local_ip(), 54));
    assert_eq!(stack.udp_listen(other, ListenerId(2)).unwrap(), other);
}

#[test]
fn udp_listen_rejects_unusable_addresses() {
    let mut stack = single_interface_stack();
    let any = SocketAddr::V4(SocketAddrV4::new(Ipv4Addr::new(0, 0, 0, 0), 53));
    assert!(matches!(stack.udp_listen(any, ListenerId(1)), Err(StackError::AddrNotAvailable)));
    let elsewhere = SocketAddr::V4(SocketAddrV4::new(Ipv4Addr::new(10, 0, 0, 9), 53));
    assert!(matches!(stack.udp_listen(elsewhere, ListenerId(1)), Err(StackError::InvalidInput)));
    let v6 = SocketAddr::V6(SocketAddrV6 { ip: Ipv6Addr(1), port: 53 });
    assert!(matches!(stack.udp_listen(v6, ListenerId(1)), Err(StackError::InvalidInput)));
}

#[test]
fn udp_ports_are_per_local_address() {
    let mut stack = single_interface_stack();
    let second = Ipv4Network::new(Ipv4Addr::new(192, 168, 0, 1), 16).unwrap();
    stack.add_ipv4(&eth0(), second).unwrap();
    let a = SocketAddr::V4(SocketAddrV4::new(local_ip(), 53));
    let b = SocketAddr::V4(SocketAddrV4::new(Ipv4Addr::new(192, 168, 0, 1), 53));
    assert_eq!(stack.udp_listen(a, ListenerId(1)).unwrap(), a);
    assert_eq!(stack.udp_listen(b, ListenerId(2)).unwrap(), b);
    assert!(matches!(stack.udp_listen(a, ListenerId(3)), Err(StackError::AddrInUse)));
}

#[test]
fn port_picking_helpers() {
    let mut lookup = UdpListenerLookup::new();
    assert_eq!(accept_port(&lookup, 40000), Some(40000));
    assert_eq!(first_free_port(&lookup, LOCAL_PORT_RANGE_START), Some(32768));
    lookup.insert(32768, ListenerId(1));
    lookup.insert(32769, ListenerId(1));
    lookup.insert(40000, ListenerId(1));
    assert_eq!(accept_port(&lookup, 40000), None);
    assert_eq!(accept_port(&lookup, 40001), Some(40001));
    assert_eq!(first_free_port(&lookup, LOCAL_PORT_RANGE_START), Some(32770));
    assert_eq!(first_free_port(&lookup, 40000), Some(40001));
    assert_eq!(first_free_port(&lookup, LOCAL_PORT_RANGE_END), None);
    lookup.insert(60999, ListenerId(1));
    assert_eq!(first_free_port(&lookup, 60999), None);
}

#[test]
fn udp_listen_reports_exhausted_range() {
    let mut stack = single_interface_stack();
    for port in LOCAL_PORT_RANGE_START..LOCAL_PORT_RANGE_END {
        let addr = SocketAddr::V4(SocketAddrV4::new(local_ip(), port));
        assert_eq!(stack.udp_listen(addr, ListenerId(1)).unwrap(), addr);
    }
    let addr = SocketAddr::V4(SocketAddrV4::new(local_ip(), 0));
    assert!(matches!(stack.udp_listen(addr, ListenerId(2)), Err(StackError::AddrInUse)));
}

#[test]
fn udp_listen_finds_the_last_free_port() {
    let mut stack = single_interface_stack();
    for port in LOCAL_PORT_RANGE_START..LOCAL_PORT_RANGE_END {
        if port != 50000 {
            let addr = SocketAddr::V4(SocketAddrV4::new(local_ip(), port));
            stack.udp_listen(addr, ListenerId(1)).unwrap();
        }
    }
    let addr = SocketAddr::V4(SocketAddrV4::new(local_ip(), 0));
    let expected = SocketAddr::V4(SocketAddrV4::new(local_ip(), 50000));
    assert_eq!(stack.udp_listen(addr, ListenerId(2)).unwrap(), expected);
}

#[test]
fn add_ipv4_twice_is_illegal() {
    let mut stack = NetworkStack::new();
    stack.add_interface(eth0(), EthernetChannel(FrameQueue::new(4096))).unwrap();
    assert!(stack.add_ipv4(&eth0(), local_net()).is_ok());
    assert!(matches!(stack.add_ipv4(&eth0(), local_net()), Err(StackError::IllegalArgument)));
    // the same address with another prefix is the same key
    let wider = Ipv4Network::new(local_ip(), 16).unwrap();
    assert!(matches!(stack.add_ipv4(&eth0(), wider), Err(StackError::IllegalArgument)));
    let interface = stack.interface(&eth0()).unwrap();
    assert!(matches!(interface.add_ipv4(local_net()), Err(StackError::IllegalArgument)));
}

#[test]
fn add_ipv4_on_unknown_interface() {
    let mut stack = NetworkStack::new();
    assert!(matches!(stack.add_ipv4(&eth0(), local_net()), Err(StackError::InvalidInterface)));
}

#[test]
fn ipv4_tx_without_route() {
    let mut stack = single_interface_stack();
    assert!(matches!(stack.ipv4_tx(Ipv4Addr::new(8, 8, 8, 8)), Err(StackError::NoRouteToHost)));
    assert!(matches!(
        stack.udp_tx(Ipv4Addr::new(8, 8, 8, 8), 1, 2),
        Err(StackError::NoRouteToHost)
    ));
    assert!(matches!(stack.icmp_tx(Ipv4Addr::new(8, 8, 8, 8)), Err(StackError::NoRouteToHost)));
    assert_eq!(stack.interface(&eth0()).unwrap().take_frames().len(), 0);
}

#[test]
fn ipv4_tx_route_to_missing_interface() {
    let mut stack = single_interface_stack();
    let ghost = Interface::new("eth9".to_string(), own_mac());
    let net = Ipv4Network::new(Ipv4Addr::new(172, 16, 0, 0), 12).unwrap();
    stack.routing_table().add_route(net, None, ghost);
    assert!(matches!(
        stack.ipv4_tx(Ipv4Addr::new(172, 16, 0, 1)),
        Err(StackError::IllegalArgument)
    ));
}

#[test]
fn ipv4_tx_through_gateway_resolves_the_gateway() {
    let mut stack = single_interface_stack();
    let everything = Ipv4Network::new(Ipv4Addr::new(0, 0, 0, 0), 0).unwrap();
    stack.routing_table().add_route(everything, Some(peer_ip()), eth0());
    assert!(matches!(
        stack.ipv4_tx(Ipv4Addr::new(8, 8, 8, 8)),
        Ok(Resolution::Waiting(WaiterId(0)))
    ));
    let frames = stack.interface(&eth0()).unwrap().take_frames();
    let request = EthernetPacket::new(&frames[0]).unwrap();
    let arp = ArpPacket::new(request.payload()).unwrap();
    assert_eq!(arp.get_target_proto_addr().octets(), [10, 0, 0, 2]);
    let reply = arp_frame_from_peer(2, [10, 0, 0, 1]);
    receive(stack.interface(&eth0()).unwrap(), &reply);
    let tx = match stack.ipv4_tx(Ipv4Addr::new(8, 8, 8, 8)).unwrap() {
        Resolution::Ready(tx) => tx,
        Resolution::Waiting(_) => panic!("the gateway's address is known"),
    };
    assert_eq!(tx.src(), local_ip());
    assert_eq!(tx.dst(), Ipv4Addr::new(8, 8, 8, 8));
    assert_eq!(tx.mtu(), DEFAULT_MTU);
}

#[test]
fn two_icmp_listeners_fire_in_registration_order() {
    let mut stack = single_interface_stack();
    assert!(stack.icmp_listen(local_ip(), IcmpType(8), ListenerId(1)).is_ok());
    assert!(stack.icmp_listen(local_ip(), IcmpType(8), ListenerId(2)).is_ok());
    assert!(stack.icmp_listen(local_ip(), IcmpType(0), ListenerId(3)).is_ok());
    let frame = vec![
        0x02, 0x00, 0x00, 0x00, 0x00, 0x01, 0x00, 0x11, 0x22, 0x33, 0x44, 0x55, 0x08, 0x00,
        0x45, 0, 0, 28, 0, 0, 0, 0, 64, 1, 0, 0, 10, 0, 0, 2, 10, 0, 0, 1, /* IPv4 */
        8, 0, 0xf7, 0xfd, 0, 1, 0, 1, /* echo request */
    ];
    for _ in 0..2 {
        match receive(stack.interface(&eth0()).unwrap(), &frame) {
            Some(Delivery::Icmp(d)) => {
                assert_eq!(d.listeners, vec![ListenerId(1), ListenerId(2)]);
                assert_eq!(d.icmp_type, IcmpType(8));
                assert_eq!(d.src, peer_ip());
                assert_eq!(d.packet, vec![8, 0, 0xf7, 0xfd, 0, 1, 0, 1]);
            }
            other => panic!("unexpected: {:?}", other),
        }
    }
}

#[test]
fn icmp_listen_rejects_unusable_addresses() {
    let mut stack = single_interface_stack();
    assert!(matches!(
        stack.icmp_listen(Ipv4Addr::new(0, 0, 0, 0), IcmpType(8), ListenerId(1)),
        Err(StackError::InvalidInput)
    ));
    assert!(matches!(
        stack.icmp_listen(Ipv4Addr::new(10, 0, 0, 9), IcmpType(8), ListenerId(1)),
        Err(StackError::InvalidInput)
    ));
    let interface = stack.interface(&eth0()).unwrap();
    assert!(matches!(
        interface.icmp_listen(Ipv4Addr::new(10, 0, 0, 9), IcmpType(8), ListenerId(1)),
        Err(StackError::InvalidInput)
    ));
    assert!(interface.icmp_listen(local_ip(), IcmpType(8), ListenerId(1)).is_ok());
}

#[test]
fn icmp_listen_registers_on_every_interface_with_the_address() {
    let mut stack = single_interface_stack();
    let eth1 = Interface::new("eth1".to_string(), peer_mac());
    let eth2 = Interface::new("eth2".to_string(), peer_mac());
    stack.add_interface(eth1.clone(), EthernetChannel(FrameQueue::new(4096))).unwrap();
    stack.add_interface(eth2.clone(), EthernetChannel(FrameQueue::new(4096))).unwrap();
    stack.add_ipv4(&eth2, local_net()).unwrap();
    assert!(stack.icmp_listen(local_ip(), IcmpType(8), ListenerId(5)).is_ok());
    let frame = vec![
        0x02, 0x00, 0x00, 0x00, 0x00, 0x01, 0x00, 0x11, 0x22, 0x33, 0x44, 0x55, 0x08, 0x00,
        0x45, 0, 0, 24, 0, 0, 0, 0, 64, 1, 0, 0, 10, 0, 0, 2, 10, 0, 0, 1, /* IPv4 */
        8, 0, 0, 0, /* echo request */
    ];
    for interface in [eth0(), eth2] {
        match stack.interface(&interface).unwrap().recv(&frame).delivery {
            Some(Delivery::Icmp(d)) => assert_eq!(d.listeners, vec![ListenerId(5)]),
            other => panic!("unexpected: {:?}", other),
        }
    }
    assert!(stack.interface(&eth1).unwrap().recv(&frame).delivery.is_none());
}

#[test]
fn arp_request_for_local_ip_is_answered() {
    let mut stack = single_interface_stack();
    let interface = stack.interface(&eth0()).unwrap();
    let request = arp_frame_from_peer(1, [10, 0, 0, 1]);
    let received = interface.recv(&request);
    assert_eq!(
        received.messages,
        vec![
            StackInterfaceMsg::UpdateArpTable(peer_ip(), peer_mac()),
            StackInterfaceMsg::ArpRequest(peer_ip(), peer_mac(), local_ip()),
        ]
    );
    assert!(received.delivery.is_none());
    for msg in received.messages {
        assert!(interface.process_msg(msg));
    }
    let frames = interface.take_frames();
    assert_eq!(frames.len(), 1);
    let reply = EthernetPacket::new(&frames[0]).unwrap();
    assert_eq!(reply.get_destination().octets(), [0x00, 0x11, 0x22, 0x33, 0x44, 0x55]);
    assert_eq!(reply.get_source().octets(), [0x02, 0, 0, 0, 0, 0x01]);
    assert_eq!(reply.get_ethertype(), EtherTypes::Arp);
    let arp = ArpPacket::new(reply.payload()).unwrap();
    assert_eq!(arp.get_operation(), ArpOperations::Reply);
    assert_eq!(arp.get_sender_hw_addr().octets(), [0x02, 0, 0, 0, 0, 0x01]);
    assert_eq!(arp.get_sender_proto_addr().octets(), [10, 0, 0, 1]);
    assert_eq!(arp.get_target_hw_addr().octets(), [0x00, 0x11, 0x22, 0x33, 0x44, 0x55]);
    assert_eq!(arp.get_target_proto_addr().octets(), [10, 0, 0, 2]);
    // the request also taught the peer's binding
    assert_eq!(interface.arp_table().peek(peer_ip()), Some(peer_mac()));
}

#[test]
fn arp_request_for_foreign_ip_is_ignored() {
    let mut stack = single_interface_stack();
    let interface = stack.interface(&eth0()).unwrap();
    let request = arp_frame_from_peer(1, [10, 0, 0, 3]);
    receive(interface, &request);
    assert_eq!(interface.take_frames().len(), 0);
    assert_eq!(interface.arp_table().peek(peer_ip()), Some(peer_mac()));
}

#[test]
fn arp_update_bumps_barrier_only_on_change() {
    let mut stack = single_interface_stack();
    let interface = stack.interface(&eth0()).unwrap();
    assert_eq!(interface.tx_barrier().version(), 0);
    interface.update_arp(peer_ip(), peer_mac());
    assert_eq!(interface.tx_barrier().version(), 1);
    interface.update_arp(peer_ip(), peer_mac());
    assert_eq!(interface.tx_barrier().version(), 1);
    interface.update_arp(peer_ip(), own_mac());
    assert_eq!(interface.tx_barrier().version(), 2);
    interface.shutdown();
    assert_eq!(interface.tx_barrier().version(), 3);
}

#[test]
fn arp_change_invalidates_resolved_senders() {
    let mut stack = single_interface_stack();
    let mut tx = resolved_udp_tx(&mut stack);
    let interface = stack.interface(&eth0()).unwrap();
    assert!(tx.send(interface.tx_barrier(), &[1]).is_ok());
    interface.update_arp(Ipv4Addr::new(10, 0, 0, 77), own_mac());
    assert!(matches!(tx.send(interface.tx_barrier(), &[1]), Err(TxError::InvalidTx)));
}

#[test]
fn worker_stops_on_shutdown() {
    let mut stack = single_interface_stack();
    let interface = stack.interface(&eth0()).unwrap();
    assert!(interface.process_msg(StackInterfaceMsg::UpdateArpTable(peer_ip(), peer_mac())));
    assert!(!interface.process_msg(StackInterfaceMsg::Shutdown));
    assert_eq!(interface.tx_barrier().version(), 1);
}

#[test]
fn received_udp_goes_to_the_port_listener() {
    let mut stack = single_interface_stack();
    let addr = SocketAddr::V4(SocketAddrV4::new(local_ip(), 53));
    stack.udp_listen(addr, ListenerId(9)).unwrap();
    let mut tx = resolved_udp_tx(&mut stack);
    let interface = stack.interface(&eth0()).unwrap();
    interface.take_frames();
    // what the stack sends to the peer, the peer could have sent to us:
    // swap the addresses of a frame built by hand
    let frame = vec![
        0x02, 0x00, 0x00, 0x00, 0x00, 0x01, 0x00, 0x11, 0x22, 0x33, 0x44, 0x55, 0x08, 0x00,
        0x45, 0, 0, 31, 0, 0, 0, 0, 64, 17, 0, 0, 10, 0, 0, 2, 10, 0, 0, 1, /* IPv4 */
        0x13, 0x88, 0x00, 0x35, 0, 11, 0, 0, 1, 2, 3, /* UDP */
        0, 0, 0, /* padding */
    ];
    match interface.recv(&frame).delivery {
        Some(Delivery::Udp(d)) => {
            assert_eq!(d.listener, ListenerId(9));
            assert_eq!(d.src, SocketAddrV4::new(peer_ip(), 5000));
            assert_eq!(d.dst, SocketAddrV4::new(local_ip(), 53));
            assert_eq!(d.payload, vec![1, 2, 3]);
        }
        other => panic!("unexpected: {:?}", other),
    }
    // and what the stack builds itself parses the same way
    assert!(tx.send(interface.tx_barrier(), &[1, 2, 3]).is_ok());
    let mut sent = interface.take_frames().remove(0);
    sent[26..34].copy_from_slice(&[10, 0, 0, 2, 10, 0, 0, 1]);
    match interface.recv(&sent).delivery {
        Some(Delivery::Udp(d)) => {
            assert_eq!(d.listener, ListenerId(9));
            assert_eq!(d.payload, vec![1, 2, 3]);
        }
        other => panic!("unexpected: {:?}", other),
    }
}

#[test]
fn received_packets_for_others_are_dropped() {
    let mut stack = single_interface_stack();
    let addr = SocketAddr::V4(SocketAddrV4::new(local_ip(), 53));
    stack.udp_listen(addr, ListenerId(9)).unwrap();
    let interface = stack.interface(&eth0()).unwrap();
    let mut frame = vec![
        0x02, 0x00, 0x00, 0x00, 0x00, 0x01, 0x00, 0x11, 0x22, 0x33, 0x44, 0x55, 0x08, 0x00,
        0x45, 0, 0, 31, 0, 0, 0, 0, 64, 17, 0, 0, 10, 0, 0, 2, 10, 0, 0, 1, /* IPv4 */
        0x13, 0x88, 0x00, 0x35, 0, 11, 0, 0, 1, 2, 3, /* UDP */
    ];
    assert!(interface.recv(&frame).delivery.is_some());
    // another destination address
    frame[33] = 7;
    assert!(interface.recv(&frame).delivery.is_none());
    frame[33] = 1;
    // another protocol
    frame[23] = 6;
    assert!(interface.recv(&frame).delivery.is_none());
    frame[23] = 17;
    // another port
    frame[37] = 0x36;
    assert!(interface.recv(&frame).delivery.is_none());
    frame[37] = 0x35;
    // another EtherType
    frame[13] = 0xdd;
    let received = interface.recv(&frame);
    assert!(received.delivery.is_none());
    assert!(received.messages.is_empty());
    // too short for an Ethernet header
    assert!(interface.recv(&frame[..10]).delivery.is_none());
}

#[test]
fn local_ips_equal_data_keys_after_adds() {
    let mut stack = single_interface_stack();
    let nets = [[192, 168, 0, 1], [172, 16, 0, 1], [10, 0, 0, 1], [192, 168, 0, 1]];
    let mut expected = vec![true, true, false, false];
    for (net, ok) in nets.iter().zip(expected.drain(..)) {
        let net = Ipv4Network::new(Ipv4Addr::new(net[0], net[1], net[2], net[3]), 24).unwrap();
        assert_eq!(stack.add_ipv4(&eth0(), net).is_ok(), ok);
    }
    // every local address answers ARP (set of addresses) and can be listened
    // on (bundles); no other address does either
    for (ip, local) in [
        ([10, 0, 0, 1], true),
        ([192, 168, 0, 1], true),
        ([172, 16, 0, 1], true),
        ([10, 0, 0, 2], false),
    ] {
        let interface = stack.interface(&eth0()).unwrap();
        receive(interface, &arp_frame_from_peer(1, ip));
        assert_eq!(interface.take_frames().len() == 1, local);
        let ip = Ipv4Addr::new(ip[0], ip[1], ip[2], ip[3]);
        assert_eq!(interface.icmp_listen(ip, IcmpType(8), ListenerId(1)).is_ok(), local);
    }
}

#[test]
fn closest_local_ip_prefers_containing_network() {
    let mut stack = NetworkStack::new();
    stack.add_interface(eth0(), EthernetChannel(FrameQueue::new(4096))).unwrap();
    let interface = stack.interface(&eth0()).unwrap();
    assert_eq!(interface.closest_local_ip(peer_ip()), None);
    interface.add_ipv4(Ipv4Network::new(Ipv4Addr::new(192, 168, 0, 1), 24).unwrap()).unwrap();
    interface.add_ipv4(local_net()).unwrap();
    interface.add_ipv4(Ipv4Network::new(Ipv4Addr::new(10, 0, 0, 5), 8).unwrap()).unwrap();
    assert_eq!(interface.closest_local_ip(peer_ip()), Some(local_ip()));
    assert_eq!(
        interface.closest_local_ip(Ipv4Addr::new(10, 9, 9, 9)),
        Some(Ipv4Addr::new(10, 0, 0, 5))
    );
    assert_eq!(
        interface.closest_local_ip(Ipv4Addr::new(192, 168, 0, 200)),
        Some(Ipv4Addr::new(192, 168, 0, 1))
    );
    // no local network contains it: the first local address
    assert_eq!(
        interface.closest_local_ip(Ipv4Addr::new(8, 8, 8, 8)),
        Some(Ipv4Addr::new(192, 168, 0, 1))
    );
}

#[test]
fn ipv4_tx_without_local_address() {
    let mut stack = NetworkStack::new();
    stack.add_interface(eth0(), EthernetChannel(FrameQueue::new(4096))).unwrap();
    let interface = stack.interface(&eth0()).unwrap();
    assert!(matches!(interface.ipv4_tx(peer_ip(), None), Err(StackError::IllegalArgument)));
}

#[test]
fn ipv4_tx_reports_full_datalink() {
    let mut stack = NetworkStack::new();
    stack.add_interface(eth0(), EthernetChannel(FrameQueue::new(41))).unwrap();
    stack.add_ipv4(&eth0(), local_net()).unwrap();
    match stack.ipv4_tx(peer_ip()) {
        Err(StackError::TxError(TxError::Other(text))) => {
            assert_eq!(text, "Insufficient buffer space")
        }
        other => panic!("unexpected: {:?}", other),
    }
}

#[test]
fn add_interface_twice_is_invalid() {
    let mut stack = NetworkStack::default();
    assert!(stack.add_interface(eth0(), EthernetChannel(FrameQueue::new(16))).is_ok());
    assert!(matches!(
        stack.add_interface(eth0(), EthernetChannel(FrameQueue::new(16))),
        Err(StackError::InvalidInterface)
    ));
    let eth1 = Interface::new("eth1".to_string(), own_mac());
    assert!(stack.add_interface(eth1.clone(), EthernetChannel(FrameQueue::new(16))).is_ok());
    let names: Vec<String> = stack.interfaces().iter().map(|i| i.name.clone()).collect();
    assert_eq!(names, vec!["eth0".to_string(), "eth1".to_string()]);
    assert!(stack.interface(&eth1).is_ok());
    let eth2 = Interface::new("eth2".to_string(), own_mac());
    assert!(matches!(stack.interface(&eth2), Err(StackError::InvalidInterface)));
}

#[test]
fn interface_from_name_finds_by_name() {
    let mut stack = single_interface_stack();
    assert!(stack.interface_from_name("eth0").unwrap().interface().is_same(&eth0()));
    assert!(matches!(stack.interface_from_name("eth1"), Err(StackError::InvalidInterface)));
    assert!(matches!(stack.interface_from_name(""), Err(StackError::InvalidInterface)));
}

#[test]
fn interface_senders_carry_addresses() {
    let mut stack = single_interface_stack();
    let interface = stack.interface(&eth0()).unwrap();
    let ethernet = interface.ethernet_tx(peer_mac());
    assert_eq!(ethernet.src(), own_mac());
    assert_eq!(ethernet.dst(), peer_mac());
    let mut arp = interface.arp_request_tx();
    assert!(arp.send(interface.tx_barrier(), local_ip(), peer_ip()).is_ok());
    let frames = interface.take_frames();
    assert_eq!(&frames[0][..6], &[0xff; 6]);
    assert_eq!(frames[0].len(), 42);
}

#[test]
fn icmp_tx_sends_echo_request() {
    let mut stack = single_interface_stack();
    let reply = arp_frame_from_peer(2, [10, 0, 0, 1]);
    receive(stack.interface(&eth0()).unwrap(), &reply);
    let mut tx: IcmpSender = match stack.icmp_tx(peer_ip()).unwrap() {
        Resolution::Ready(tx) => tx,
        Resolution::Waiting(_) => panic!("the peer's address is known"),
    };
    let interface = stack.interface(&eth0()).unwrap();
    assert!(tx.send_echo(interface.tx_barrier(), &[0, 1, 0, 1]).is_ok());
    let frames = interface.take_frames();
    assert_eq!(frames.len(), 1);
    assert_eq!(frames[0].len(), 14 + 20 + 8);
    assert_eq!(frames[0][23], 1);
    assert_eq!(&frames[0][34..], &[8, 0, 0xf7, 0xfd, 0, 1, 0, 1]);
}

#[test]
fn udp_tx_refuses_oversized_payload() {
    let mut stack = single_interface_stack();
    let mut tx = resolved_udp_tx(&mut stack);
    let interface = stack.interface(&eth0()).unwrap();
    assert!(tx.send(interface.tx_barrier(), &vec![0; 1472]).is_ok());
    assert!(matches!(
        tx.send(interface.tx_barrier(), &vec![0; 1473]),
        Err(TxError::OversizedPacket)
    ));
    assert!(matches!(
        tx.send(interface.tx_barrier(), &vec![0; 70000]),
        Err(TxError::OversizedPacket)
    ));
    assert_eq!(interface.take_frames().len(), 1);
}

#[test]
fn udp_listen_draws_vary() {
    let mut first_ports = Vec::new();
    for _ in 0..20 {
        let mut stack = single_interface_stack();
        let addr = SocketAddr::V4(SocketAddrV4::new(local_ip(), 0));
        match stack.udp_listen(addr, ListenerId(1)).unwrap() {
            SocketAddr::V4(v4) => first_ports.push(v4.port()),
            SocketAddr::V6(_) => panic!("bound on IPv4"),
        }
    }
    assert!(first_ports.iter().all(|port| (32768..61000).contains(port)));
    assert!(first_ports.iter().any(|port| *port != first_ports[0]));
}

#[test]
fn worker_runs_queue_until_shutdown() {
    let mut stack = single_interface_stack();
    let interface = stack.interface(&eth0()).unwrap();
    let third = Ipv4Addr::new(10, 0, 0, 3);
    let queue = vec![
        StackInterfaceMsg::UpdateArpTable(peer_ip(), peer_mac()),
        StackInterfaceMsg::ArpRequest(peer_ip(), peer_mac(), local_ip()),
        StackInterfaceMsg::Shutdown,
        StackInterfaceMsg::UpdateArpTable(third, peer_mac()),
    ];
    assert!(!interface.run(&queue));
    assert_eq!(interface.arp_table().peek(peer_ip()), Some(peer_mac()));
    assert_eq!(interface.arp_table().peek(third), None);
    assert_eq!(interface.take_frames().len(), 1);
    assert_eq!(interface.tx_barrier().version(), 1);
    assert!(interface.run(&queue[3..].to_vec()));
    assert_eq!(interface.arp_table().peek(third), Some(peer_mac()));
    assert_eq!(interface.tx_barrier().version(), 2);
    assert!(interface.run(&Vec::new()));
}

#[test]
fn built_udp_frame_decodes_to_what_was_sent() {
    let mut stack = single_interface_stack();
    let mut tx = resolved_udp_tx(&mut stack);
    let interface = stack.interface(&eth0()).unwrap();
    interface.take_frames();
    let payload: Vec<u8> = (0..=255).collect();
    assert!(tx.send(interface.tx_barrier(), &payload).is_ok());
    let frame = interface.take_frames().remove(0);
    let ethernet = rips::ethernet::parse_ethernet(&frame).unwrap();
    assert_eq!(ethernet.src, own_mac());
    assert_eq!(ethernet.dst, peer_mac());
    assert_eq!(ethernet.ether_type, rips::ethernet::EtherType(0x0800));
    let packet = &frame[14..];
    let header = rips::ipv4::parse_ipv4(packet).unwrap();
    assert_eq!(header.src, local_ip());
    assert_eq!(header.dst, peer_ip());
    assert_eq!(header.protocol, rips::ipv4::IpNextHeaderProtocol(17));
    assert_eq!(header.total_length, 20 + 8 + 256);
    let mut lookup = UdpListenerLookup::new();
    lookup.insert(53, ListenerId(4));
    let datagram = &packet[header.header_len..header.total_length];
    let delivery = lookup.recv(header.src, header.dst, datagram).unwrap();
    assert_eq!(delivery.src, SocketAddrV4::new(local_ip(), 5000));
    assert_eq!(delivery.dst, SocketAddrV4::new(peer_ip(), 53));
    assert_eq!(delivery.payload, payload);
}
