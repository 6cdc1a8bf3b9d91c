//! Internet checksums, computed by `pnet`.

use crate::addr::Ipv4Addr;
use vstd::prelude::*;

verus! {

/// What `pnet::util::checksum` returns for `data`, with the 16-bit word at
/// word offset `skipword` left out of the sum.
pub uninterp spec fn internet_checksum(data: Seq<u8>, skipword: nat) -> u16;

/// What `pnet::util::ipv4_checksum` returns for `data` behind the pseudo
/// header made of `source`, `destination`, `protocol` and the length of
/// `data`, with the word at word offset `skipword` left out.
pub uninterp spec fn pseudo_header_checksum(
    data: Seq<u8>,
    skipword: nat,
    source: Seq<u8>,
    destination: Seq<u8>,
    protocol: u8,
) -> u16;

/// Calls `pnet::util::checksum`, the checksum of IPv4 headers and ICMP
/// messages.
///
/// Trusted: the result is a function of the bytes and the skipped word alone.
/// The length is bounded so that the 32-bit sum inside cannot overflow.
#[verifier::external_body]
pub(crate) fn checksum(data: &[u8], skipword: usize) -> (sum: u16)
    requires
        data@.len() <= 0xffff,
    ensures
        sum == internet_checksum(data@, skipword as nat),
{
    pnet::util::checksum(data, skipword)
}

/// Calls `pnet::util::ipv4_checksum`, the checksum of UDP over IPv4, with no
/// extra data.
///
/// Trusted: the result is a function of the bytes, the skipped word, the two
/// addresses and the protocol number alone. The length is bounded so that the
/// 32-bit sum inside cannot overflow.
#[verifier::external_body]
pub(crate) fn ipv4_checksum(
    data: &[u8],
    skipword: usize,
    source: Ipv4Addr,
    destination: Ipv4Addr,
    protocol: u8,
) -> (sum: u16)
    requires
        data@.len() <= 0xffff,
    ensures
        sum == pseudo_header_checksum(
            data@,
            skipword as nat,
            source.bytes(),
            destination.bytes(),
            protocol,
        ),
{
    pnet::util::ipv4_checksum(
        data,
        skipword,
        &[],
        &[source.0, source.1, source.2, source.3].into(),
        &[destination.0, destination.1, destination.2, destination.3].into(),
        pnet::packet::ip::IpNextHeaderProtocol(protocol),
    )
}

} // verus!
