use pnet::packet::ethernet::EtherTypes;
use rips::ethernet::{BasicEthernetPayload, EtherType, EthernetPayload};
use rips::payload::Payload;

#[test]
fn ether_type() {
    let testee = BasicEthernetPayload::new(EtherType(EtherTypes::Ipv6.0), vec![]);
    assert_eq!(EtherType(EtherTypes::Ipv6.0), testee.ether_type());
}

#[test]
fn len_zero() {
    let testee = BasicEthernetPayload::new(EtherType(EtherTypes::Arp.0), vec![]);
    assert_eq!(0, testee.len());
}

#[test]
fn len_three() {
    let testee = BasicEthernetPayload::new(EtherType(EtherTypes::Arp.0), vec![5, 6, 7]);
    assert_eq!(3, testee.len());
}

#[test]
fn build_without_data() {
    let mut testee = BasicEthernetPayload::new(EtherType(EtherTypes::Arp.0), vec![]);
    let mut buffer = vec![99; 1];
    testee.build(&mut buffer);
    assert_eq!(99, buffer[0]);
}

#[test]
fn build_with_data() {
    let mut testee = BasicEthernetPayload::new(EtherType(EtherTypes::Arp.0), vec![5, 6, 7]);
    let mut buffer = vec![0; 1];
    testee.build(&mut buffer[0..0]);

    testee.build(&mut buffer);
    assert_eq!(5, buffer[0]);
    testee.build(&mut buffer);
    assert_eq!(6, buffer[0]);
    testee.build(&mut buffer);
    assert_eq!(7, buffer[0]);

    testee.build(&mut buffer[0..0]);
}

#[test]
fn build_with_larger_buffer() {
    let mut testee = BasicEthernetPayload::new(EtherType(EtherTypes::Arp.0), vec![5, 6]);
    let mut buffer = vec![0; 3];
    testee.build(&mut buffer);
    assert_eq!(&[5, 6, 0], &buffer[..]);
}
