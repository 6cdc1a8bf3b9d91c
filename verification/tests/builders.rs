use pnet::packet::arp::{ArpOperations, ArpPacket};
use pnet::packet::ethernet::{EtherTypes, EthernetPacket};
use pnet::packet::icmp::{IcmpPacket, IcmpTypes};
use pnet::packet::ip::IpNextHeaderProtocols;
use pnet::packet::ipv4::Ipv4Packet;
use pnet::packet::udp::UdpPacket;
use pnet::packet::Packet;
use rips::addr::{Ipv4Addr, MacAddr, SocketAddrV4};
use rips::arp::{parse_arp, ArpBuilder, ArpOperation, ARP_REPLY, ARP_REQUEST};
use rips::ethernet::{
    parse_ethernet, BasicEthernetPayload, EtherType, EthernetBuilder, EthernetPayload,
};
use rips::icmp::{IcmpBuilder, IcmpType};
use rips::ipv4::{parse_ipv4, IpNextHeaderProtocol, Ipv4Builder, Ipv4Payload};
use rips::payload::{get_u16, put_bytes, put_u16, zeroed, Payload};
use rips::udp::UdpBuilder;

fn src_mac() -> MacAddr {
    MacAddr::new(0x12, 0x34, 0x56, 0x78, 0x9a, 0xbc)
}

fn dst_mac() -> MacAddr {
    MacAddr::new(0xde, 0xf0, 0x12, 0x34, 0x45, 0x67)
}

/// Ones-complement sum of big-endian 16-bit words, folded and inverted.
fn reference_checksum(data: &[u8]) -> u16 {
    let mut sum: u32 = 0;
    let mut i = 0;
    while i + 1 < data.len() {
        sum += ((data[i] as u32) << 8) | data[i + 1] as u32;
        i += 2;
    }
    if i < data.len() {
        sum += (data[i] as u32) << 8;
    }
    while sum >> 16 != 0 {
        sum = (sum >> 16) + (sum & 0xffff);
    }
    !(sum as u16)
}

#[test]
fn mac_broadcast_is_all_ones() {
    assert_eq!(MacAddr::broadcast(), MacAddr::new(0xff, 0xff, 0xff, 0xff, 0xff, 0xff));
}

#[test]
fn ipv4_addr_bits_are_big_endian() {
    assert_eq!(Ipv4Addr::new(10, 0, 0, 1).to_bits(), 0x0a00_0001);
    assert_eq!(Ipv4Addr::new(255, 255, 255, 255).to_bits(), 0xffff_ffff);
    assert_eq!(Ipv4Addr::new(0, 0, 0, 0).to_bits(), 0);
    assert!(Ipv4Addr::new(0, 0, 0, 0).is_unspecified());
    assert!(!Ipv4Addr::new(0, 0, 0, 1).is_unspecified());
}

#[test]
fn u16_helpers_are_big_endian() {
    let mut buffer = vec![0u8; 4];
    put_u16(&mut buffer, 1, 0x86dd);
    assert_eq!(buffer, vec![0, 0x86, 0xdd, 0]);
    assert_eq!(get_u16(&buffer, 1), 0x86dd);
    assert_eq!(get_u16(&buffer, 0), 0x0086);
}

#[test]
fn put_bytes_overwrites_the_middle_only() {
    let mut buffer = vec![9u8; 6];
    put_bytes(&mut buffer, 2, &[1, 2, 3]);
    assert_eq!(buffer, vec![9, 9, 1, 2, 3, 9]);
    put_bytes(&mut buffer, 6, &[]);
    assert_eq!(buffer, vec![9, 9, 1, 2, 3, 9]);
}

#[test]
fn zeroed_gives_zero_bytes() {
    assert_eq!(zeroed(0), Vec::<u8>::new());
    assert_eq!(zeroed(3), vec![0, 0, 0]);
}

#[test]
fn ethernet_builder_len_adds_header() {
    let payload = BasicEthernetPayload::new(EtherType(EtherTypes::Arp.0), vec![5, 6, 7]);
    let builder = EthernetBuilder::new(src_mac(), dst_mac(), payload);
    assert_eq!(builder.len(), 17);
}

#[test]
fn ethernet_builder_writes_reference_header() {
    let payload = BasicEthernetPayload::new(EtherType(EtherTypes::Ipv6.0), vec![1, 2, 3]);
    let mut builder = EthernetBuilder::new(src_mac(), dst_mac(), payload);
    let mut buffer = vec![0xeeu8; 20];
    builder.build(&mut buffer);
    let expected = [
        0xde, 0xf0, 0x12, 0x34, 0x45, 0x67, /* destination */
        0x12, 0x34, 0x56, 0x78, 0x9a, 0xbc, /* source */
        0x86, 0xdd, /* ethertype */
        1, 2, 3, /* payload */
        0xee, 0xee, 0xee, /* untouched */
    ];
    assert_eq!(&expected[..], &buffer[..]);
}

#[test]
fn ethernet_builder_is_read_by_pnet() {
    let payload = BasicEthernetPayload::new(EtherType(EtherTypes::Ipv4.0), vec![7, 8]);
    let mut builder = EthernetBuilder::new(src_mac(), dst_mac(), payload);
    let mut buffer = vec![0u8; 16];
    builder.build(&mut buffer);
    let packet = EthernetPacket::new(&buffer).unwrap();
    assert_eq!(packet.get_source().octets(), [0x12, 0x34, 0x56, 0x78, 0x9a, 0xbc]);
    assert_eq!(packet.get_destination().octets(), [0xde, 0xf0, 0x12, 0x34, 0x45, 0x67]);
    assert_eq!(packet.get_ethertype(), EtherTypes::Ipv4);
    assert_eq!(packet.payload(), &[7, 8]);
}

#[test]
fn ethernet_builder_streams_payload_over_frames() {
    let payload = BasicEthernetPayload::new(EtherType(EtherTypes::Arp.0), vec![1, 2, 3]);
    let mut builder = EthernetBuilder::new(src_mac(), dst_mac(), payload);
    let mut first = vec![0u8; 16];
    builder.build(&mut first);
    let mut second = vec![0u8; 16];
    builder.build(&mut second);
    assert_eq!(&first[14..], &[1, 2]);
    assert_eq!(&second[14..], &[3, 0]);
    assert_eq!(&first[..14], &second[..14]);
}

#[test]
fn parse_ethernet_reads_header() {
    let frame = [
        0xde, 0xf0, 0x12, 0x34, 0x45, 0x67, 0x12, 0x34, 0x56, 0x78, 0x9a, 0xbc, 0x08, 0x06, 1,
    ];
    let header = parse_ethernet(&frame).unwrap();
    assert_eq!(header.dst, dst_mac());
    assert_eq!(header.src, src_mac());
    assert_eq!(header.ether_type, EtherType(0x0806));
    assert!(parse_ethernet(&frame[..13]).is_none());
    assert!(parse_ethernet(&frame[..14]).is_some());
}

struct RawIpv4Payload {
    protocol: u8,
    data: Vec<u8>,
}

fn build_ipv4(identification: u16, raw: RawIpv4Payload, room: usize) -> Vec<u8> {
    let src = Ipv4Addr::new(192, 168, 0, 1);
    let dst = Ipv4Addr::new(192, 168, 0, 199);
    let mut buffer = vec![0u8; room];
    if raw.protocol == 17 {
        let udp = UdpBuilder::new(
            SocketAddrV4::new(src, 12345),
            SocketAddrV4::new(dst, 54321),
            raw.data,
        );
        let mut builder = Ipv4Builder::new(src, dst, identification, udp);
        builder.build(&mut buffer);
    } else {
        let icmp = IcmpBuilder::new(IcmpType(8), 0, raw.data);
        let mut builder = Ipv4Builder::new(src, dst, identification, icmp);
        builder.build(&mut buffer);
    }
    buffer
}

#[test]
fn ipv4_builder_header_fields() {
    let buffer = build_ipv4(0x1234, RawIpv4Payload { protocol: 17, data: b"test".to_vec() }, 32);
    assert_eq!(
        &buffer[..10],
        &[0x45, 0x00, 0x00, 0x20, 0x12, 0x34, 0x00, 0x00, 64, 17]
    );
    assert_eq!(&buffer[12..20], &[192, 168, 0, 1, 192, 168, 0, 199]);
    let packet = Ipv4Packet::new(&buffer).unwrap();
    assert_eq!(packet.get_version(), 4);
    assert_eq!(packet.get_header_length(), 5);
    assert_eq!(packet.get_total_length(), 32);
    assert_eq!(packet.get_identification(), 0x1234);
    assert_eq!(packet.get_flags(), 0);
    assert_eq!(packet.get_fragment_offset(), 0);
    assert_eq!(packet.get_ttl(), 64);
    assert_eq!(packet.get_next_level_protocol(), IpNextHeaderProtocols::Udp);
    assert_eq!(packet.get_source().octets(), [192, 168, 0, 1]);
    assert_eq!(packet.get_destination().octets(), [192, 168, 0, 199]);
}

#[test]
fn ipv4_builder_checksum_is_the_internet_checksum() {
    let buffer = build_ipv4(7, RawIpv4Payload { protocol: 17, data: b"test".to_vec() }, 32);
    let stored = get_u16(&buffer, 10);
    let mut header = buffer[..20].to_vec();
    header[10] = 0;
    header[11] = 0;
    assert_eq!(stored, reference_checksum(&header));
    assert_eq!(reference_checksum(&buffer[..20]), 0);
    let packet = Ipv4Packet::new(&buffer).unwrap();
    assert_eq!(pnet::packet::ipv4::checksum(&packet), stored);
    assert_ne!(stored, 0);
}

#[test]
fn ipv4_builder_known_checksum() {
    let buffer = build_ipv4(0, RawIpv4Payload { protocol: 17, data: b"test".to_vec() }, 32);
    // 4500 + 0020 + 0000 + 0000 + 4011 + c0a8 + 0001 + c0a8 + 00c7 = 0x20749
    // folded: 0x074b, inverted: 0xf8b4
    assert_eq!(get_u16(&buffer, 10), 0xf8b4);
}

#[test]
fn ipv4_builder_total_length_counts_payload_not_buffer() {
    let buffer = build_ipv4(0, RawIpv4Payload { protocol: 17, data: vec![1, 2] }, 100);
    assert_eq!(get_u16(&buffer, 2), 30);
    assert_eq!(&buffer[30..], &vec![0u8; 70][..]);
}

#[test]
fn ipv4_builder_ether_type_and_len() {
    let udp = UdpBuilder::new(
        SocketAddrV4::new(Ipv4Addr::new(1, 1, 1, 1), 1),
        SocketAddrV4::new(Ipv4Addr::new(2, 2, 2, 2), 2),
        vec![0; 10],
    );
    assert_eq!(udp.len(), 18);
    assert_eq!(udp.next_level_protocol(), IpNextHeaderProtocol(17));
    let builder = Ipv4Builder::new(Ipv4Addr::new(1, 1, 1, 1), Ipv4Addr::new(2, 2, 2, 2), 0, udp);
    assert_eq!(builder.len(), 38);
    assert_eq!(builder.ether_type(), EtherType(0x0800));
}

#[test]
fn udp_builder_matches_reference_packet() {
    let src = SocketAddrV4::new(Ipv4Addr::new(192, 168, 0, 1), 12345);
    let dst = SocketAddrV4::new(Ipv4Addr::new(192, 168, 0, 199), 54321);
    let mut builder = UdpBuilder::new(src, dst, b"test".to_vec());
    let mut buffer = vec![0u8; 12];
    builder.build(&mut buffer);
    let expected = [
        0x30, 0x39, /* source */
        0xd4, 0x31, /* destination */
        0x00, 0x0c, /* length */
        0x91, 0x78, /* checksum */
        b't', b'e', b's', b't',
    ];
    assert_eq!(&expected[..], &buffer[..]);
}

#[test]
fn udp_builder_checksum_depends_on_addresses() {
    let src = SocketAddrV4::new(Ipv4Addr::new(192, 168, 0, 1), 12345);
    let dst = SocketAddrV4::new(Ipv4Addr::new(192, 168, 0, 199), 54321);
    let other = SocketAddrV4::new(Ipv4Addr::new(192, 168, 0, 200), 54321);
    let mut first = vec![0u8; 12];
    UdpBuilder::new(src, dst, b"test".to_vec()).build(&mut first);
    let mut second = vec![0u8; 12];
    UdpBuilder::new(src, other, b"test".to_vec()).build(&mut second);
    assert_eq!(get_u16(&first, 6), 0x9178);
    assert_eq!(get_u16(&second, 6), 0x9177);
}

#[test]
fn udp_builder_is_read_by_pnet() {
    let src = SocketAddrV4::new(Ipv4Addr::new(10, 0, 0, 1), 5000);
    let dst = SocketAddrV4::new(Ipv4Addr::new(10, 0, 0, 2), 53);
    let mut builder = UdpBuilder::new(src, dst, vec![1, 2, 3]);
    let mut buffer = vec![0xaau8; 16];
    builder.build(&mut buffer);
    let packet = UdpPacket::new(&buffer[..11]).unwrap();
    assert_eq!(packet.get_source(), 5000);
    assert_eq!(packet.get_destination(), 53);
    assert_eq!(packet.get_length(), 11);
    assert_eq!(packet.payload(), &[1, 2, 3]);
    let sum = pnet::packet::udp::ipv4_checksum(
        &packet,
        &[10, 0, 0, 1].into(),
        &[10, 0, 0, 2].into(),
    );
    assert_eq!(packet.get_checksum(), sum);
    assert_eq!(&buffer[11..], &[0xaa; 5]);
}

#[test]
fn icmp_builder_echo_request() {
    let mut builder = IcmpBuilder::new(IcmpType(8), 0, vec![0, 1, 0, 2, 9, 9]);
    assert_eq!(builder.len(), 10);
    assert_eq!(builder.next_level_protocol(), IpNextHeaderProtocol(1));
    let mut buffer = vec![0u8; 10];
    builder.build(&mut buffer);
    assert_eq!(buffer[0], 8);
    assert_eq!(buffer[1], 0);
    assert_eq!(&buffer[4..], &[0, 1, 0, 2, 9, 9]);
    let mut unsummed = buffer.clone();
    unsummed[2] = 0;
    unsummed[3] = 0;
    // 0800 + 0001 + 0002 + 0909 = 0x110c, inverted: 0xeef3
    assert_eq!(get_u16(&buffer, 2), 0xeef3);
    assert_eq!(get_u16(&buffer, 2), reference_checksum(&unsummed));
    let packet = IcmpPacket::new(&buffer).unwrap();
    assert_eq!(packet.get_icmp_type(), IcmpTypes::EchoRequest);
    assert_eq!(pnet::packet::icmp::checksum(&packet), packet.get_checksum());
}

#[test]
fn icmp_builder_odd_length_checksum() {
    let mut builder = IcmpBuilder::new(IcmpType(0), 3, vec![0xff]);
    let mut buffer = vec![0u8; 5];
    builder.build(&mut buffer);
    // 0003 + ff00 = 0xff03, inverted: 0x00fc
    assert_eq!(&buffer[..], &[0, 3, 0x00, 0xfc, 0xff]);
}

#[test]
fn arp_builder_request_bytes() {
    let mut builder = ArpBuilder::new_request(
        src_mac(),
        Ipv4Addr::new(10, 0, 0, 1),
        Ipv4Addr::new(10, 0, 0, 2),
    );
    assert_eq!(builder.len(), 28);
    assert_eq!(builder.ether_type(), EtherType(0x0806));
    let mut buffer = vec![0xeeu8; 30];
    builder.build(&mut buffer);
    let expected = [
        0, 1, 0x08, 0x00, 6, 4, 0, 1, /* fixed fields, operation */
        0x12, 0x34, 0x56, 0x78, 0x9a, 0xbc, 10, 0, 0, 1, /* sender */
        0, 0, 0, 0, 0, 0, 10, 0, 0, 2, /* target */
        0xee, 0xee,
    ];
    assert_eq!(&expected[..], &buffer[..]);
}

#[test]
fn arp_builder_reply_is_read_by_pnet() {
    let mut builder = ArpBuilder::new_reply(
        src_mac(),
        Ipv4Addr::new(10, 0, 0, 1),
        dst_mac(),
        Ipv4Addr::new(10, 0, 0, 2),
    );
    let mut buffer = vec![0u8; 28];
    builder.build(&mut buffer);
    let packet = ArpPacket::new(&buffer).unwrap();
    assert_eq!(packet.get_operation(), ArpOperations::Reply);
    assert_eq!(packet.get_hw_addr_len(), 6);
    assert_eq!(packet.get_proto_addr_len(), 4);
    assert_eq!(packet.get_protocol_type(), EtherTypes::Ipv4);
    assert_eq!(packet.get_sender_hw_addr().octets(), [0x12, 0x34, 0x56, 0x78, 0x9a, 0xbc]);
    assert_eq!(packet.get_sender_proto_addr().octets(), [10, 0, 0, 1]);
    assert_eq!(packet.get_target_hw_addr().octets(), [0xde, 0xf0, 0x12, 0x34, 0x45, 0x67]);
    assert_eq!(packet.get_target_proto_addr().octets(), [10, 0, 0, 2]);
}

#[test]
fn parse_arp_round_trip_and_rejects() {
    let mut builder = ArpBuilder::new_reply(
        src_mac(),
        Ipv4Addr::new(10, 0, 0, 1),
        dst_mac(),
        Ipv4Addr::new(10, 0, 0, 2),
    );
    let mut buffer = vec![0u8; 28];
    builder.build(&mut buffer);
    let packet = parse_arp(&buffer).unwrap();
    assert_eq!(packet.operation, ArpOperation(ARP_REPLY));
    assert_ne!(packet.operation, ArpOperation(ARP_REQUEST));
    assert_eq!(packet.sender_mac, src_mac());
    assert_eq!(packet.sender_ip, Ipv4Addr::new(10, 0, 0, 1));
    assert_eq!(packet.target_mac, dst_mac());
    assert_eq!(packet.target_ip, Ipv4Addr::new(10, 0, 0, 2));
    assert!(parse_arp(&buffer[..27]).is_none());
    let mut wrong = buffer.clone();
    wrong[1] = 6;
    assert!(parse_arp(&wrong).is_none());
    let mut wrong = buffer.clone();
    wrong[5] = 16;
    assert!(parse_arp(&wrong).is_none());
}

#[test]
fn parse_ipv4_reads_what_the_builder_wrote() {
    let buffer = build_ipv4(1, RawIpv4Payload { protocol: 1, data: vec![1, 2, 3, 4] }, 40);
    let header = parse_ipv4(&buffer).unwrap();
    assert_eq!(header.src, Ipv4Addr::new(192, 168, 0, 1));
    assert_eq!(header.dst, Ipv4Addr::new(192, 168, 0, 199));
    assert_eq!(header.protocol, IpNextHeaderProtocol(1));
    assert_eq!(header.header_len, 20);
    assert_eq!(header.total_length, 28);
}

#[test]
fn parse_ipv4_rejects_malformed() {
    let buffer = build_ipv4(1, RawIpv4Payload { protocol: 1, data: vec![1, 2, 3, 4] }, 28);
    assert!(parse_ipv4(&buffer).is_some());
    assert!(parse_ipv4(&buffer[..19]).is_none());
    assert!(parse_ipv4(&buffer[..27]).is_none());
    let mut wrong = buffer.clone();
    wrong[0] = 0x65;
    assert!(parse_ipv4(&wrong).is_none());
    let mut wrong = buffer.clone();
    wrong[0] = 0x44;
    assert!(parse_ipv4(&wrong).is_none());
    let mut wrong = buffer.clone();
    wrong[0] = 0x48;
    assert!(parse_ipv4(&wrong).is_none());
    let mut options = buffer.clone();
    options[0] = 0x46;
    let header = parse_ipv4(&options).unwrap();
    assert_eq!(header.header_len, 24);
}
