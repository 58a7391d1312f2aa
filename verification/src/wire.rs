//! What the `pnet` packet types tell of a buffer, handed over as plain values.
//!
//! `pnet` generates its packet types from field tables. A generated `new`
//! accepts a buffer exactly when it holds the fixed fields of the header, the
//! getters read big-endian fields at fixed offsets, and the slices they hand
//! out are clamped to the end of the buffer. The spec functions of this module
//! state those rules over byte sequences; the wrappers below are trusted to
//! follow them.

use pnet::packet::ethernet::EthernetPacket;
use pnet::packet::ipv4::Ipv4Packet;
use pnet::packet::tcp::TcpPacket;
use pnet::packet::udp::UdpPacket;
use pnet::packet::vlan::VlanPacket;
use pnet::packet::Packet;
use vstd::prelude::*;

verus! {

/// Bytes of an Ethernet II header: two addresses and the EtherType.
pub const ETHERNET_HEADER_LEN: usize = 14;

/// Bytes of an IEEE 802.1Q tag as it follows the outer EtherType.
pub const VLAN_TAG_LEN: usize = 4;

/// Bytes of an IPv4 header without options.
pub const IPV4_HEADER_LEN: usize = 20;

/// Bytes of a TCP header without options.
pub const TCP_HEADER_LEN: usize = 20;

/// Bytes of a UDP header.
pub const UDP_HEADER_LEN: usize = 8;

/// EtherType of IPv4.
pub const ETHERTYPE_IPV4: u16 = 0x0800;

/// EtherType of an IEEE 802.1Q VLAN tag.
pub const ETHERTYPE_VLAN: u16 = 0x8100;

/// IPv4 protocol number of TCP.
pub const PROTOCOL_TCP: u8 = 6;

/// IPv4 protocol number of UDP.
pub const PROTOCOL_UDP: u8 = 17;

/// The big-endian 16-bit number held by the bytes `at` and `at + 1`.
pub open spec fn be16(bytes: Seq<u8>, at: int) -> int {
    bytes[at] * 256 + bytes[at + 1]
}

/// The part of `bytes` from `from` up to `from + len`, cut at the end of the
/// buffer.
pub open spec fn clamped(bytes: Seq<u8>, from: int, len: int) -> Seq<u8> {
    if from + len <= bytes.len() {
        bytes.subrange(from, from + len)
    } else {
        bytes.subrange(from, bytes.len() as int)
    }
}

/// The header length that an IPv4 header declares, in bytes: its low nibble
/// counts 32-bit words.
pub open spec fn ipv4_declared_header_len(datagram: Seq<u8>) -> int {
    (datagram[0] % 16) * 4
}

/// Length in bytes of the options that an IPv4 header declares.
pub open spec fn ipv4_options_len(datagram: Seq<u8>) -> int {
    if ipv4_declared_header_len(datagram) >= IPV4_HEADER_LEN {
        ipv4_declared_header_len(datagram) - IPV4_HEADER_LEN
    } else {
        0
    }
}

/// The raw options of an IPv4 datagram of at least `IPV4_HEADER_LEN` bytes.
pub open spec fn ipv4_options(datagram: Seq<u8>) -> Seq<u8> {
    clamped(datagram, IPV4_HEADER_LEN as int, ipv4_options_len(datagram))
}

/// Length in bytes of the payload that an IPv4 header declares: its total
/// length less its header length, or nothing where that would be negative.
pub open spec fn ipv4_payload_len(datagram: Seq<u8>) -> int {
    if be16(datagram, 2) >= ipv4_declared_header_len(datagram) {
        be16(datagram, 2) - ipv4_declared_header_len(datagram)
    } else {
        0
    }
}

/// The payload of an IPv4 datagram of at least `IPV4_HEADER_LEN` bytes.
pub open spec fn ipv4_payload(datagram: Seq<u8>) -> Seq<u8> {
    let start = IPV4_HEADER_LEN + ipv4_options_len(datagram);
    if datagram.len() <= start {
        Seq::empty()
    } else {
        clamped(datagram, start, ipv4_payload_len(datagram))
    }
}

/// Length in bytes of the options that a TCP header declares: its data offset,
/// the high nibble of byte 12, counts 32-bit words.
pub open spec fn tcp_options_len(segment: Seq<u8>) -> int {
    if segment[12] / 16 > 5 {
        (segment[12] / 16) * 4 - TCP_HEADER_LEN
    } else {
        0
    }
}

/// The raw options of a TCP segment of at least `TCP_HEADER_LEN` bytes.
pub open spec fn tcp_options(segment: Seq<u8>) -> Seq<u8> {
    clamped(segment, TCP_HEADER_LEN as int, tcp_options_len(segment))
}

/// A link-layer header as read from a buffer: the EtherType it announces and
/// the bytes that follow it.
pub struct LinkParts {
    pub ethertype: u16,
    pub payload: Vec<u8>,
}

/// What is read from an IPv4 datagram besides its fixed fields.
pub struct Ipv4Parts {
    pub protocol: u8,
    pub options: Vec<u8>,
    pub payload: Vec<u8>,
}

/// Calls `EthernetPacket::new`, `get_ethertype` and `payload`.
///
/// Trusted: a frame is accepted exactly when it holds the 14 bytes of the
/// header; the EtherType is the big-endian number at bytes 12 and 13; the
/// payload is everything behind the header.
#[verifier::external_body]
pub(crate) fn ethernet_parts(frame: &[u8]) -> (parts: Option<LinkParts>)
    ensures
        parts is Some <==> frame@.len() >= ETHERNET_HEADER_LEN,
        parts matches Some(p) ==> p.ethertype == be16(frame@, 12) && p.payload@ == frame@.skip(
            ETHERNET_HEADER_LEN as int,
        ),
{
    match EthernetPacket::new(frame) {
        Some(packet) => Some(
            LinkParts { ethertype: packet.get_ethertype().0, payload: packet.payload().to_vec() },
        ),
        None => None,
    }
}

/// Calls `VlanPacket::new`, `get_ethertype` and `payload`.
///
/// Trusted: a tag is accepted exactly when the buffer holds its 4 bytes; the
/// inner EtherType is the big-endian number at bytes 2 and 3; the payload is
/// everything behind the tag.
#[verifier::external_body]
pub(crate) fn vlan_parts(tagged: &[u8]) -> (parts: Option<LinkParts>)
    ensures
        parts is Some <==> tagged@.len() >= VLAN_TAG_LEN,
        parts matches Some(p) ==> p.ethertype == be16(tagged@, 2) && p.payload@ == tagged@.skip(
            VLAN_TAG_LEN as int,
        ),
{
    match VlanPacket::new(tagged) {
        Some(packet) => Some(
            LinkParts { ethertype: packet.get_ethertype().0, payload: packet.payload().to_vec() },
        ),
        None => None,
    }
}

/// Calls `Ipv4Packet::new`, `get_next_level_protocol`, `get_options_raw` and
/// `payload`.
///
/// Trusted: a datagram is accepted exactly when it holds the 20 fixed bytes
/// of the header; the protocol is byte 9; the options start at byte 20 and
/// the payload behind them, each as long as the header declares and no longer
/// than the buffer.
#[verifier::external_body]
pub(crate) fn ipv4_parts(datagram: &[u8]) -> (parts: Option<Ipv4Parts>)
    ensures
        parts is Some <==> datagram@.len() >= IPV4_HEADER_LEN,
        parts matches Some(p) ==> p.protocol == datagram@[9] && p.options@ == ipv4_options(
            datagram@,
        ) && p.payload@ == ipv4_payload(datagram@),
{
    match Ipv4Packet::new(datagram) {
        Some(packet) => Some(
            Ipv4Parts {
                protocol: packet.get_next_level_protocol().0,
                options: packet.get_options_raw().to_vec(),
                payload: packet.payload().to_vec(),
            },
        ),
        None => None,
    }
}

/// Calls `TcpPacket::new` and `get_options_raw`.
///
/// Trusted: a segment is accepted exactly when it holds the 20 fixed bytes of
/// the header; the options start at byte 20, as long as the data offset
/// declares and no longer than the buffer.
#[verifier::external_body]
pub(crate) fn tcp_raw_options(segment: &[u8]) -> (options: Option<Vec<u8>>)
    ensures
        options is Some <==> segment@.len() >= TCP_HEADER_LEN,
        options matches Some(o) ==> o@ == tcp_options(segment@),
{
    match TcpPacket::new(segment) {
        Some(packet) => Some(packet.get_options_raw().to_vec()),
        None => None,
    }
}

/// Calls `UdpPacket::new`.
///
/// Trusted: a datagram is accepted exactly when it holds the 8 bytes of the
/// header.
#[verifier::external_body]
pub(crate) fn udp_accepts(datagram: &[u8]) -> (accepted: bool)
    ensures
        accepted <==> datagram@.len() >= UDP_HEADER_LEN,
{
    UdpPacket::new(datagram).is_some()
}

} // verus!
