use rips::addr::{Interface, Ipv4Addr, Ipv4Network, MacAddr, SocketAddrV4};
use rips::arp::{ArpRx, ArpTable, Notification, WaiterId};
use rips::datalink::FrameQueue;
use rips::error::TxError;
use rips::ethernet::{
    BasicEthernetPayload, EtherType, EthernetListener, EthernetRx, EthernetTx, EthernetTxImpl,
};
use rips::icmp::{IcmpListenerLookup, IcmpType};
use rips::listener::ListenerId;
use rips::routing::RoutingTable;
use rips::stack::StackInterfaceMsg;
use rips::tx::{Tx, TxBarrier, TxImpl};
use rips::udp::UdpListenerLookup;

fn mac(last: u8) -> MacAddr {
    MacAddr::new(0x00, 0x11, 0x22, 0x33, 0x44, last)
}

#[test]
fn network_contains_by_prefix() {
    let net = Ipv4Network::new(Ipv4Addr::new(10, 0, 0, 1), 24).unwrap();
    assert_eq!(net.ip(), Ipv4Addr::new(10, 0, 0, 1));
    assert_eq!(net.prefix(), 24);
    assert!(net.contains(Ipv4Addr::new(10, 0, 0, 1)));
    assert!(net.contains(Ipv4Addr::new(10, 0, 0, 0)));
    assert!(net.contains(Ipv4Addr::new(10, 0, 0, 255)));
    assert!(!net.contains(Ipv4Addr::new(10, 0, 1, 0)));
    assert!(!net.contains(Ipv4Addr::new(11, 0, 0, 1)));
}

#[test]
fn network_contains_edge_prefixes() {
    let all = Ipv4Network::new(Ipv4Addr::new(10, 0, 0, 1), 0).unwrap();
    assert!(all.contains(Ipv4Addr::new(8, 8, 8, 8)));
    assert!(all.contains(Ipv4Addr::new(255, 255, 255, 255)));
    let host = Ipv4Network::new(Ipv4Addr::new(10, 0, 0, 1), 32).unwrap();
    assert!(host.contains(Ipv4Addr::new(10, 0, 0, 1)));
    assert!(!host.contains(Ipv4Addr::new(10, 0, 0, 0)));
    let odd = Ipv4Network::new(Ipv4Addr::new(192, 168, 129, 7), 17).unwrap();
    assert!(odd.contains(Ipv4Addr::new(192, 168, 255, 255)));
    assert!(odd.contains(Ipv4Addr::new(192, 168, 128, 0)));
    assert!(!odd.contains(Ipv4Addr::new(192, 168, 127, 255)));
}

#[test]
fn network_rejects_long_prefix() {
    assert!(Ipv4Network::new(Ipv4Addr::new(10, 0, 0, 1), 33).is_none());
    assert!(Ipv4Network::new(Ipv4Addr::new(10, 0, 0, 1), 32).is_some());
}

#[test]
fn interface_identity() {
    let a = Interface::new("eth0".to_string(), mac(1));
    let b = a.clone();
    assert!(a.is_same(&b));
    assert!(!a.is_same(&Interface::new("eth1".to_string(), mac(1))));
    assert!(!a.is_same(&Interface::new("eth0".to_string(), mac(2))));
}

#[test]
fn arp_table_get_unknown_registers_waiters_in_order() {
    let mut table = ArpTable::new();
    let ip = Ipv4Addr::new(10, 0, 0, 2);
    assert_eq!(table.peek(ip), None);
    assert_eq!(table.get(ip), Err(WaiterId(0)));
    assert_eq!(table.get(ip), Err(WaiterId(1)));
    assert_eq!(table.get(Ipv4Addr::new(10, 0, 0, 3)), Err(WaiterId(2)));
    assert_eq!(table.peek(ip), None);
}

#[test]
fn arp_table_insert_notifies_each_waiter_once() {
    let mut table = ArpTable::new();
    let ip = Ipv4Addr::new(10, 0, 0, 2);
    let other = Ipv4Addr::new(10, 0, 0, 3);
    let first = table.get(ip).unwrap_err();
    let stranger = table.get(other).unwrap_err();
    let second = table.get(ip).unwrap_err();
    assert!(table.insert(ip, mac(0x55)));
    assert_eq!(
        table.take_notifications(),
        vec![
            Notification { waiter: first, mac: mac(0x55) },
            Notification { waiter: second, mac: mac(0x55) },
        ]
    );
    assert_eq!(table.get(ip), Ok(mac(0x55)));
    // a second insert finds nobody left to notify
    assert!(table.insert(ip, mac(0x66)));
    assert_eq!(table.take_notifications(), vec![]);
    assert!(table.insert(other, mac(0x77)));
    assert_eq!(
        table.take_notifications(),
        vec![Notification { waiter: stranger, mac: mac(0x77) }]
    );
}

#[test]
fn arp_table_insert_reports_change() {
    let mut table = ArpTable::new();
    let ip = Ipv4Addr::new(10, 0, 0, 2);
    assert!(table.insert(ip, mac(1)));
    assert!(!table.insert(ip, mac(1)));
    assert!(table.insert(ip, mac(2)));
    assert_eq!(table.peek(ip), Some(mac(2)));
    assert_eq!(table.get(ip), Ok(mac(2)));
    assert_eq!(table.take_notifications(), vec![]);
}

#[test]
fn arp_table_keys_do_not_collide() {
    let mut table = ArpTable::new();
    assert!(table.insert(Ipv4Addr::new(1, 2, 3, 4), mac(1)));
    assert!(table.insert(Ipv4Addr::new(4, 3, 2, 1), mac(2)));
    assert!(table.insert(Ipv4Addr::new(1, 2, 4, 3), mac(3)));
    assert_eq!(table.peek(Ipv4Addr::new(1, 2, 3, 4)), Some(mac(1)));
    assert_eq!(table.peek(Ipv4Addr::new(4, 3, 2, 1)), Some(mac(2)));
    assert_eq!(table.peek(Ipv4Addr::new(1, 2, 4, 3)), Some(mac(3)));
    assert_eq!(table.peek(Ipv4Addr::new(1, 3, 2, 4)), None);
}

fn arp_bytes(operation: u8) -> Vec<u8> {
    vec![
        0, 1, 0x08, 0x00, 6, 4, 0, operation, /* fixed fields, operation */
        0x00, 0x11, 0x22, 0x33, 0x44, 0x55, 10, 0, 0, 2, /* sender */
        0x02, 0, 0, 0, 0, 1, 10, 0, 0, 1, /* target */
    ]
}

#[test]
fn arp_rx_reply_updates_table_only() {
    assert_eq!(
        ArpRx::recv(&arp_bytes(2)),
        vec![StackInterfaceMsg::UpdateArpTable(Ipv4Addr::new(10, 0, 0, 2), mac(0x55))]
    );
}

#[test]
fn arp_rx_request_updates_and_asks() {
    assert_eq!(
        ArpRx::recv(&arp_bytes(1)),
        vec![
            StackInterfaceMsg::UpdateArpTable(Ipv4Addr::new(10, 0, 0, 2), mac(0x55)),
            StackInterfaceMsg::ArpRequest(
                Ipv4Addr::new(10, 0, 0, 2),
                mac(0x55),
                Ipv4Addr::new(10, 0, 0, 1)
            ),
        ]
    );
}

#[test]
fn arp_rx_drops_garbage() {
    assert_eq!(ArpRx::recv(&[0, 1, 2]), vec![]);
    assert_eq!(ArpRx::recv(&arp_bytes(1)[..27]), vec![]);
}

#[test]
fn barrier_version_starts_at_zero_and_counts() {
    let mut barrier = TxBarrier::new(FrameQueue::new(64));
    assert_eq!(barrier.version(), 0);
    barrier.inc();
    assert_eq!(barrier.version(), 1);
    barrier.inc();
    assert_eq!(barrier.version(), 2);
}

#[test]
fn barrier_maps_datalink_results() {
    let barrier = TxBarrier::new(FrameQueue::new(64));
    assert!(matches!(barrier.io_result_to_tx_result(Some(Ok(()))), Ok(())));
    let error = std::io::Error::new(std::io::ErrorKind::BrokenPipe, "down");
    match barrier.io_result_to_tx_result(Some(Err(error))) {
        Err(TxError::IoError(e)) => assert_eq!(e.kind(), std::io::ErrorKind::BrokenPipe),
        other => panic!("unexpected: {:?}", other),
    }
    match barrier.io_result_to_tx_result(None) {
        Err(TxError::Other(text)) => assert_eq!(text, "Insufficient buffer space"),
        other => panic!("unexpected: {:?}", other),
    }
}

#[test]
fn barrier_send_queues_zero_padded_frames() {
    let mut barrier = TxBarrier::new(FrameQueue::new(64));
    let payload = BasicEthernetPayload::new(EtherType(0x0806), vec![1, 2, 3]);
    assert!(barrier.send(2, 2, payload).is_ok());
    assert_eq!(barrier.pending(), 2);
    assert_eq!(barrier.frame(0), &vec![1, 2]);
    assert_eq!(barrier.frame(1), &vec![3, 0]);
    assert_eq!(barrier.take_frames(), vec![vec![1, 2], vec![3, 0]]);
    assert_eq!(barrier.pending(), 0);
    assert_eq!(barrier.version(), 0);
}

#[test]
fn barrier_send_refuses_what_does_not_fit() {
    let mut barrier = TxBarrier::new(FrameQueue::new(10));
    let payload = BasicEthernetPayload::new(EtherType(0x0806), vec![1, 2, 3]);
    match barrier.send(3, 4, payload) {
        Err(TxError::Other(text)) => assert_eq!(text, "Insufficient buffer space"),
        other => panic!("unexpected: {:?}", other),
    }
    assert_eq!(barrier.pending(), 0);
    let payload = BasicEthernetPayload::new(EtherType(0x0806), vec![1, 2, 3]);
    assert!(barrier.send(2, 5, payload).is_ok());
    assert_eq!(barrier.pending(), 2);
    let payload = BasicEthernetPayload::new(EtherType(0x0806), vec![]);
    assert!(barrier.send(usize::MAX, 2, payload).is_err());
}

#[test]
fn stale_tx_fails_with_invalid_tx() {
    let mut barrier = TxBarrier::new(FrameQueue::new(64));
    let mut tx = TxImpl::new(barrier.version());
    let payload = BasicEthernetPayload::new(EtherType(0x0806), vec![1]);
    assert!(tx.send(&mut barrier, 1, 1, payload).is_ok());
    barrier.inc();
    for _ in 0..3 {
        let payload = BasicEthernetPayload::new(EtherType(0x0806), vec![1]);
        assert!(matches!(tx.send(&mut barrier, 1, 1, payload), Err(TxError::InvalidTx)));
    }
    assert_eq!(barrier.pending(), 1);
    let mut fresh = TxImpl::new(barrier.version());
    let payload = BasicEthernetPayload::new(EtherType(0x0806), vec![2]);
    assert!(fresh.send(&mut barrier, 1, 1, payload).is_ok());
    assert_eq!(barrier.pending(), 2);
}

#[test]
fn ethernet_tx_sends_header_and_padding() {
    let mut barrier = TxBarrier::new(FrameQueue::new(64));
    let tx = TxImpl::new(barrier.version());
    let mut ethernet = EthernetTxImpl::new(tx, mac(1), mac(2));
    assert_eq!(ethernet.src(), mac(1));
    assert_eq!(ethernet.dst(), mac(2));
    let payload = BasicEthernetPayload::new(EtherType(0x1337), vec![8, 9]);
    assert!(ethernet.send(&mut barrier, 1, 4, payload).is_ok());
    assert_eq!(
        barrier.take_frames(),
        vec![vec![
            0x00, 0x11, 0x22, 0x33, 0x44, 2, 0x00, 0x11, 0x22, 0x33, 0x44, 1, 0x13, 0x37, 8, 9,
            0, 0
        ]]
    );
    barrier.inc();
    let payload = BasicEthernetPayload::new(EtherType(0x1337), vec![8, 9]);
    assert!(matches!(ethernet.send(&mut barrier, 1, 4, payload), Err(TxError::InvalidTx)));
}

#[test]
fn ethernet_rx_dispatches_in_registration_order() {
    let rx = EthernetRx::new(vec![
        EthernetListener::Arp,
        EthernetListener::Ipv4,
        EthernetListener::Arp,
    ]);
    let mut frame = vec![0u8; 14];
    frame[12] = 0x08;
    frame[13] = 0x06;
    assert_eq!(rx.recv(&frame), vec![EthernetListener::Arp, EthernetListener::Arp]);
    frame[13] = 0x00;
    assert_eq!(rx.recv(&frame), vec![EthernetListener::Ipv4]);
    frame[13] = 0x01;
    assert_eq!(rx.recv(&frame), vec![]);
    assert_eq!(rx.recv(&frame[..13]), vec![]);
}

#[test]
fn udp_lookup_binds_ports() {
    let mut lookup = UdpListenerLookup::new();
    assert!(!lookup.contains_key(53));
    assert_eq!(lookup.get(53), None);
    lookup.insert(53, ListenerId(7));
    assert!(lookup.contains_key(53));
    assert!(!lookup.contains_key(54));
    assert_eq!(lookup.get(53), Some(ListenerId(7)));
}

#[test]
fn udp_lookup_recv_delivers_to_port_holder() {
    let mut lookup = UdpListenerLookup::new();
    lookup.insert(53, ListenerId(7));
    let src = Ipv4Addr::new(10, 0, 0, 2);
    let dst = Ipv4Addr::new(10, 0, 0, 1);
    let packet = [0x13, 0x88, 0x00, 0x35, 0x00, 0x0b, 0, 0, 1, 2, 3, 0xee];
    let delivery = lookup.recv(src, dst, &packet).unwrap();
    assert_eq!(delivery.listener, ListenerId(7));
    assert_eq!(delivery.src, SocketAddrV4::new(src, 5000));
    assert_eq!(delivery.dst, SocketAddrV4::new(dst, 53));
    assert_eq!(delivery.payload, vec![1, 2, 3]);
}

#[test]
fn udp_lookup_recv_drops_unknown_and_malformed() {
    let mut lookup = UdpListenerLookup::new();
    lookup.insert(53, ListenerId(7));
    let src = Ipv4Addr::new(10, 0, 0, 2);
    let dst = Ipv4Addr::new(10, 0, 0, 1);
    // nobody holds port 54
    assert!(lookup.recv(src, dst, &[0x13, 0x88, 0x00, 0x36, 0x00, 0x08, 0, 0]).is_none());
    // shorter than a header
    assert!(lookup.recv(src, dst, &[0x13, 0x88, 0x00, 0x35, 0x00, 0x08, 0]).is_none());
    // length field below the header size
    assert!(lookup.recv(src, dst, &[0x13, 0x88, 0x00, 0x35, 0x00, 0x07, 0, 0]).is_none());
    // length field beyond the packet
    assert!(lookup.recv(src, dst, &[0x13, 0x88, 0x00, 0x35, 0x00, 0x09, 0, 0]).is_none());
    // an empty datagram is fine
    let delivery = lookup.recv(src, dst, &[0x13, 0x88, 0x00, 0x35, 0x00, 0x08, 0, 0]).unwrap();
    assert_eq!(delivery.payload, Vec::<u8>::new());
}

#[test]
fn icmp_lookup_keeps_registration_order_per_type() {
    let mut lookup = IcmpListenerLookup::new();
    lookup.add(IcmpType(8), ListenerId(1));
    lookup.add(IcmpType(0), ListenerId(2));
    lookup.add(IcmpType(8), ListenerId(3));
    assert_eq!(lookup.get(IcmpType(8)), vec![ListenerId(1), ListenerId(3)]);
    assert_eq!(lookup.get(IcmpType(0)), vec![ListenerId(2)]);
    assert_eq!(lookup.get(IcmpType(3)), vec![]);
    let delivery = lookup.recv(Ipv4Addr::new(1, 1, 1, 1), &[8, 0, 0, 0, 9]).unwrap();
    assert_eq!(delivery.listeners, vec![ListenerId(1), ListenerId(3)]);
    assert_eq!(delivery.icmp_type, IcmpType(8));
    assert_eq!(delivery.src, Ipv4Addr::new(1, 1, 1, 1));
    assert_eq!(delivery.packet, vec![8, 0, 0, 0, 9]);
    assert!(lookup.recv(Ipv4Addr::new(1, 1, 1, 1), &[8, 0, 0]).is_none());
}

#[test]
fn routing_prefers_longest_prefix_then_first() {
    let eth0 = Interface::new("eth0".to_string(), mac(1));
    let eth1 = Interface::new("eth1".to_string(), mac(2));
    let mut table = RoutingTable::new();
    assert!(table.route(Ipv4Addr::new(10, 0, 0, 2)).is_none());
    table.add_route(
        Ipv4Network::new(Ipv4Addr::new(0, 0, 0, 0), 0).unwrap(),
        Some(Ipv4Addr::new(10, 0, 0, 254)),
        eth0.clone(),
    );
    table.add_route(Ipv4Network::new(Ipv4Addr::new(10, 0, 1, 1), 24).unwrap(), None, eth1.clone());
    table.add_route(Ipv4Network::new(Ipv4Addr::new(10, 0, 1, 9), 24).unwrap(), None, eth0.clone());
    let (gw, interface) = table.route(Ipv4Addr::new(8, 8, 8, 8)).unwrap();
    assert_eq!(gw, Some(Ipv4Addr::new(10, 0, 0, 254)));
    assert!(interface.is_same(&eth0));
    let (gw, interface) = table.route(Ipv4Addr::new(10, 0, 1, 77)).unwrap();
    assert_eq!(gw, None);
    assert!(interface.is_same(&eth1));
}
