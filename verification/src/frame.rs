//! Finds the raw headers of a link-layer frame.
//!
//! A frame starts with an Ethernet header; one VLAN tag behind it is
//! unwrapped, a second one is not followed. Where the EtherType then
//! announces IPv4 and the rest holds an IPv4 header, that header's protocol
//! field says whether a TCP or a UDP header follows. Whatever cannot be read
//! is simply not there: nothing here fails.

use crate::wire::{
    be16, ethernet_parts, ipv4_parts, ipv4_payload, vlan_parts, ETHERNET_HEADER_LEN,
    ETHERTYPE_IPV4, ETHERTYPE_VLAN, IPV4_HEADER_LEN, PROTOCOL_TCP, PROTOCOL_UDP, VLAN_TAG_LEN,
};
use vstd::prelude::*;

verus! {

/// The EtherType that announces the network layer of `frame`, and the bytes
/// of that layer: those behind the Ethernet header, or behind one VLAN tag
/// that follows it. `None` where the frame is too short for an Ethernet
/// header.
pub open spec fn network_layer(frame: Seq<u8>) -> Option<(int, Seq<u8>)> {
    if frame.len() < ETHERNET_HEADER_LEN {
        None
    } else {
        let tagged = frame.skip(ETHERNET_HEADER_LEN as int);
        if be16(frame, 12) == ETHERTYPE_VLAN && tagged.len() >= VLAN_TAG_LEN {
            Some((be16(tagged, 2), tagged.skip(VLAN_TAG_LEN as int)))
        } else {
            Some((be16(frame, 12), tagged))
        }
    }
}

/// The IPv4 datagram that `frame` carries, from its first header byte on.
pub open spec fn ipv4_layer(frame: Seq<u8>) -> Option<Seq<u8>> {
    match network_layer(frame) {
        Some((ethertype, datagram)) => if ethertype == ETHERTYPE_IPV4 && datagram.len()
            >= IPV4_HEADER_LEN {
            Some(datagram)
        } else {
            None
        },
        None => None,
    }
}

/// The payload of the IPv4 datagram that `frame` carries, where its header
/// announces `protocol`.
pub open spec fn transport_layer(frame: Seq<u8>, protocol: u8) -> Option<Seq<u8>> {
    match ipv4_layer(frame) {
        Some(datagram) => if datagram[9] == protocol {
            Some(ipv4_payload(datagram))
        } else {
            None
        },
        None => None,
    }
}

/// The TCP segment that `frame` carries, from its first header byte on.
pub open spec fn tcp_layer(frame: Seq<u8>) -> Option<Seq<u8>> {
    transport_layer(frame, PROTOCOL_TCP)
}

/// The UDP datagram that `frame` carries, from its first header byte on.
pub open spec fn udp_layer(frame: Seq<u8>) -> Option<Seq<u8>> {
    transport_layer(frame, PROTOCOL_UDP)
}

/// The raw headers found in one frame: at most one for each protocol, each
/// running from its first byte to the end of what carries it.
pub struct Layers {
    pub ipv4: Option<Vec<u8>>,
    pub tcp: Option<Vec<u8>>,
    pub udp: Option<Vec<u8>>,
}

/// Takes a frame apart, whichever protocols are asked for later.
pub fn demultiplex(frame: &[u8]) -> (layers: Layers)
    ensures
        layers.ipv4.deep_view() == ipv4_layer(frame@),
        layers.tcp.deep_view() == tcp_layer(frame@),
        layers.udp.deep_view() == udp_layer(frame@),
{
    let mut layers = Layers { ipv4: None, tcp: None, udp: None };
    if let Some(ethernet) = ethernet_parts(frame) {
        let mut ethertype = ethernet.ethertype;
        let mut payload = ethernet.payload;
        if ethertype == ETHERTYPE_VLAN {
            if let Some(vlan) = vlan_parts(payload.as_slice()) {
                ethertype = vlan.ethertype;
                payload = vlan.payload;
            }
        }
        if ethertype == ETHERTYPE_IPV4 {
            if let Some(ipv4) = ipv4_parts(payload.as_slice()) {
                if ipv4.protocol == PROTOCOL_TCP {
                    layers.tcp = Some(ipv4.payload);
                } else if ipv4.protocol == PROTOCOL_UDP {
                    layers.udp = Some(ipv4.payload);
                }
                layers.ipv4 = Some(payload);
            }
        }
    }
    layers
}

} // verus!
