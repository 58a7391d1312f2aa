use nprint_rs::wire::{
    ETHERNET_HEADER_LEN, ETHERTYPE_IPV4, ETHERTYPE_VLAN, IPV4_HEADER_LEN, PROTOCOL_TCP,
    PROTOCOL_UDP, TCP_HEADER_LEN, UDP_HEADER_LEN, VLAN_TAG_LEN,
};
use pnet::packet::ethernet::{EtherTypes, EthernetPacket};
use pnet::packet::ip::IpNextHeaderProtocols;
use pnet::packet::ipv4::Ipv4Packet;
use pnet::packet::tcp::TcpPacket;
use pnet::packet::udp::UdpPacket;
use pnet::packet::vlan::VlanPacket;

#[test]
fn registry_numbers_agree_with_pnet() {
    assert_eq!(ETHERTYPE_IPV4, EtherTypes::Ipv4.0);
    assert_eq!(ETHERTYPE_VLAN, EtherTypes::Vlan.0);
    assert_eq!(PROTOCOL_TCP, IpNextHeaderProtocols::Tcp.0);
    assert_eq!(PROTOCOL_UDP, IpNextHeaderProtocols::Udp.0);
}

#[test]
fn header_lengths_agree_with_pnet() {
    assert_eq!(ETHERNET_HEADER_LEN, EthernetPacket::minimum_packet_size());
    assert_eq!(VLAN_TAG_LEN, VlanPacket::minimum_packet_size());
    assert_eq!(IPV4_HEADER_LEN, Ipv4Packet::minimum_packet_size());
    assert_eq!(TCP_HEADER_LEN, TcpPacket::minimum_packet_size());
    assert_eq!(UDP_HEADER_LEN, UdpPacket::minimum_packet_size());
}
