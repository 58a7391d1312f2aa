use nprint_rs::protocols::dyn_protocols::Protocol;
use nprint_rs::protocols::ipv4::{Ipv4Header, IPV4_WIDTH};
use nprint_rs::protocols::payload::{PayloadHeader, PAYLOAD_LIMIT, PAYLOAD_WIDTH};
use nprint_rs::protocols::tcp::{TcpHeader, TCP_WIDTH};
use nprint_rs::protocols::udp::{UdpHeader, UDP_WIDTH};

fn wire_bits(bytes: &[u8]) -> Vec<i8> {
    let mut bits = Vec::new();
    for byte in bytes {
        for k in (0..8).rev() {
            bits.push(((byte >> k) & 1) as i8);
        }
    }
    bits
}

fn ipv4_bytes() -> Vec<u8> {
    vec![
        0x45, 0x00, 0x00, 0x3c, 0xf5, 0x1b, 0x40, 0x00, 0x40, 0x06, 0x1b, 0x24, 0xc0, 0xa8, 0x2b,
        0x25, 0xc6, 0x26, 0x78, 0x88, 0x97, 0xa4, 0x01, 0xbb,
    ]
}

fn tcp_bytes() -> Vec<u8> {
    vec![
        0xde, 0x92, 0x01, 0xbb, 0x72, 0x07, 0xf6, 0xa0, 0x00, 0x00, 0x00, 0x00, 0x80, 0x02, 0x20,
        0x00, 0x05, 0x24, 0x00, 0x00, 0x02, 0x04, 0x05, 0xb4, 0x01, 0x03, 0x03, 0x02, 0x01, 0x01,
        0x04, 0x02,
    ]
}

#[test]
fn ipv4_version_and_header_length_bits() {
    let header = Ipv4Header::new(&ipv4_bytes());
    let data = header.get_data();
    assert_eq!(&data[0..4], &[0, 1, 0, 0]);
    assert_eq!(&data[4..8], &[0, 1, 0, 1]);
}

#[test]
fn ipv4_truncated_buffer_is_default() {
    let header = Ipv4Header::new(&[0x45, 0x00, 0x00, 0x3c, 0xf5, 0x1b]);
    assert_eq!(header.get_data(), &vec![-1i8; 480]);
    assert_eq!(header, Ipv4Header::default());
}

#[test]
fn udp_source_port_bits() {
    let header = UdpHeader::new(&[0xe1, 0x15, 0xe1, 0x15, 0x00, 0x34, 0x85, 0x00]);
    assert_eq!(&header.get_data()[..16], &[1, 1, 1, 0, 0, 0, 0, 1, 0, 0, 0, 1, 0, 1, 0, 1]);
}

#[test]
fn encodings_have_their_width_whatever_the_input() {
    assert_eq!((IPV4_WIDTH, TCP_WIDTH, UDP_WIDTH, PAYLOAD_WIDTH), (480, 480, 64, 12112));
    let long = vec![0x5au8; 3000];
    for len in [0usize, 1, 7, 8, 19, 20, 21, 59, 60, 61, 1513, 1514, 3000] {
        let input = &long[..len];
        assert_eq!(Ipv4Header::new(input).get_data().len(), 480);
        assert_eq!(TcpHeader::new(input).get_data().len(), 480);
        assert_eq!(UdpHeader::new(input).get_data().len(), 64);
        assert_eq!(PayloadHeader::new(input).get_data().len(), 12112);
    }
    assert_eq!(Ipv4Header::default().get_data().len(), 480);
    assert_eq!(TcpHeader::default().get_data().len(), 480);
    assert_eq!(UdpHeader::default().get_data().len(), 64);
    assert_eq!(PayloadHeader::default().get_data().len(), 12112);
}

#[test]
fn short_headers_encode_as_absent() {
    let bytes = tcp_bytes();
    for len in 0..20 {
        assert_eq!(Ipv4Header::new(&bytes[..len]).get_data(), &vec![-1i8; 480]);
        assert_eq!(TcpHeader::new(&bytes[..len]).get_data(), &vec![-1i8; 480]);
    }
    for len in 0..8 {
        assert_eq!(UdpHeader::new(&bytes[..len]).get_data(), &vec![-1i8; 64]);
    }
}

#[test]
fn fixed_fields_are_the_wire_bits() {
    let ipv4 = ipv4_bytes();
    assert_eq!(&Ipv4Header::new(&ipv4).get_data()[..160], &wire_bits(&ipv4[..20])[..]);
    let tcp = tcp_bytes();
    assert_eq!(&TcpHeader::new(&tcp).get_data()[..160], &wire_bits(&tcp[..20])[..]);
    let udp = [0xe1, 0x15, 0xe1, 0x15, 0x00, 0x34, 0x85, 0x00, 0xff, 0xff];
    assert_eq!(&UdpHeader::new(&udp).get_data()[..], &wire_bits(&udp[..8])[..]);
}

#[test]
fn a_header_of_exactly_the_fixed_length_is_encoded() {
    let ipv4 = ipv4_bytes();
    let data = Ipv4Header::new(&ipv4[..20]).get_data().clone();
    assert_eq!(&data[..160], &wire_bits(&ipv4[..20])[..]);
    assert_eq!(&data[160..], &[-1i8; 320][..]);
    let tcp = tcp_bytes();
    let data = TcpHeader::new(&tcp[..20]).get_data().clone();
    assert_eq!(&data[..160], &wire_bits(&tcp[..20])[..]);
    assert_eq!(&data[160..], &[-1i8; 320][..]);
    let udp = [0xe1, 0x15, 0xe1, 0x15, 0x00, 0x34, 0x85, 0x00];
    assert_eq!(UdpHeader::new(&udp).get_data(), &wire_bits(&udp));
}

#[test]
fn ipv4_options_are_as_long_as_the_header_declares() {
    let mut bytes = vec![0u8; 20];
    bytes[0] = 0x47;
    bytes.extend_from_slice(&[0xaa; 12]);
    let data = Ipv4Header::new(&bytes).get_data().clone();
    assert_eq!(&data[160..224], &wire_bits(&[0xaa; 8])[..]);
    assert_eq!(&data[224..], &[-1i8; 256][..]);
}

#[test]
fn ipv4_options_end_with_the_buffer() {
    let mut bytes = vec![0u8; 20];
    bytes[0] = 0x4f;
    bytes.extend_from_slice(&[0xff; 3]);
    let data = Ipv4Header::new(&bytes).get_data().clone();
    assert_eq!(&data[160..184], &[1i8; 24][..]);
    assert_eq!(&data[184..], &[-1i8; 296][..]);
}

#[test]
fn ipv4_options_fill_the_whole_width_at_most() {
    let mut bytes = vec![0u8; 20];
    bytes[0] = 0x4f;
    bytes.extend_from_slice(&[0x0f; 50]);
    let data = Ipv4Header::new(&bytes).get_data().clone();
    assert_eq!(&data[160..], &wire_bits(&[0x0f; 40])[..]);
}

#[test]
fn ipv4_short_declared_length_means_no_options() {
    for first in [0x40u8, 0x43, 0x45] {
        let mut bytes = vec![0u8; 20];
        bytes[0] = first;
        bytes.extend_from_slice(&[0xff; 8]);
        let data = Ipv4Header::new(&bytes).get_data().clone();
        assert_eq!(&data[160..], &[-1i8; 320][..]);
    }
}

#[test]
fn tcp_options_are_as_long_as_the_data_offset_declares() {
    let tcp = tcp_bytes();
    let data = TcpHeader::new(&tcp).get_data().clone();
    assert_eq!(&data[160..256], &wire_bits(&tcp[20..32])[..]);
    assert_eq!(&data[256..], &[-1i8; 224][..]);

    let mut bytes = vec![0u8; 20];
    bytes[12] = 0x60;
    bytes.extend_from_slice(&[0x81; 10]);
    let data = TcpHeader::new(&bytes).get_data().clone();
    assert_eq!(&data[160..192], &wire_bits(&[0x81; 4])[..]);
    assert_eq!(&data[192..], &[-1i8; 288][..]);
}

#[test]
fn tcp_options_end_with_the_buffer() {
    let mut bytes = vec![0u8; 20];
    bytes[12] = 0xf0;
    bytes.extend_from_slice(&[0x81; 2]);
    let data = TcpHeader::new(&bytes).get_data().clone();
    assert_eq!(&data[160..176], &wire_bits(&[0x81; 2])[..]);
    assert_eq!(&data[176..], &[-1i8; 304][..]);
}

#[test]
fn tcp_small_data_offset_means_no_options() {
    for offset in [0x00u8, 0x40, 0x50] {
        let mut bytes = vec![0u8; 20];
        bytes[12] = offset;
        bytes.extend_from_slice(&[0xff; 8]);
        let data = TcpHeader::new(&bytes).get_data().clone();
        assert_eq!(&data[160..], &[-1i8; 320][..]);
    }
}

#[test]
fn payload_is_unpacked_and_padded() {
    let data = PayloadHeader::new(&[0xe1, 0x15]).get_data().clone();
    assert_eq!(&data[..16], &[1, 1, 1, 0, 0, 0, 0, 1, 0, 0, 0, 1, 0, 1, 0, 1]);
    assert!(data[16..].iter().all(|b| *b == -1));
    assert_eq!(PayloadHeader::new(&[]), PayloadHeader::default());
}

#[test]
fn payload_at_the_limit_is_default() {
    let below = vec![0xffu8; PAYLOAD_LIMIT - 1];
    let data = PayloadHeader::new(&below).get_data().clone();
    assert_eq!(&data[..12104], &vec![1i8; 12104][..]);
    assert_eq!(&data[12104..], &[-1i8; 8][..]);
    let at = vec![0xffu8; PAYLOAD_LIMIT];
    assert_eq!(PayloadHeader::new(&at), PayloadHeader::default());
}

#[test]
fn remove_zeroes_an_inclusive_range() {
    let mut header = Ipv4Header::new(&ipv4_bytes());
    let before = header.get_data().clone();
    header.remove(0, 7);
    header.remove(479, 479);
    let after = header.get_data().clone();
    assert_eq!(&after[..8], &[0i8; 8][..]);
    assert_eq!(&after[8..479], &before[8..479]);
    assert_eq!(after[479], 0);

    let mut header = TcpHeader::new(&tcp_bytes());
    let before = header.get_data().clone();
    header.remove(100, 102);
    let after = header.get_data().clone();
    assert_eq!(&after[100..103], &[0i8; 3][..]);
    assert_eq!(&after[..100], &before[..100]);
    assert_eq!(&after[103..], &before[103..]);

    let mut header = UdpHeader::default();
    header.remove(0, 63);
    assert_eq!(header.get_data(), &vec![0i8; 64]);
}

#[test]
fn remove_of_an_empty_range_changes_nothing() {
    let mut header = UdpHeader::new(&[0xe1, 0x15, 0xe1, 0x15, 0x00, 0x34, 0x85, 0x00]);
    let before = header.clone();
    header.remove(5, 4);
    header.remove(0, 0);
    assert_eq!(header.get_data()[1..], before.get_data()[1..]);
    assert_eq!(header.get_data()[0], 0);
}

#[test]
fn ipv4_anonymize_zeroes_the_addresses_only() {
    let mut header = Ipv4Header::new(&ipv4_bytes());
    let before = header.get_data().clone();
    header.anonymize();
    let after = header.get_data().clone();
    assert_eq!(&after[..96], &before[..96]);
    assert_eq!(&after[96..160], &[0i8; 64][..]);
    assert_eq!(&after[160..], &before[160..]);
    header.anonymize();
    assert_eq!(header.get_data(), &after);
}

#[test]
fn tcp_anonymize_zeroes_the_ports_only() {
    let mut header = TcpHeader::new(&tcp_bytes());
    let before = header.get_data().clone();
    header.anonymize();
    let after = header.get_data().clone();
    assert_eq!(&after[..32], &[0i8; 32][..]);
    assert_eq!(&after[32..], &before[32..]);
    header.anonymize();
    assert_eq!(header.get_data(), &after);
}

#[test]
fn udp_and_payload_anonymize_change_nothing() {
    let udp = [0xe1, 0x15, 0xe1, 0x15, 0x00, 0x34, 0x85, 0x00];
    let mut header = UdpHeader::new(&udp);
    header.anonymize();
    assert_eq!(header, UdpHeader::new(&udp));
    let mut payload = PayloadHeader::new(&udp);
    payload.anonymize();
    assert_eq!(payload, PayloadHeader::new(&udp));
}

#[test]
fn clones_are_equal() {
    let header = Ipv4Header::new(&ipv4_bytes());
    assert_eq!(header.clone(), header);
    let header = TcpHeader::new(&tcp_bytes());
    assert_eq!(header.clone(), header);
    let header = PayloadHeader::new(&tcp_bytes());
    assert_eq!(header.clone(), header);
}

#[test]
fn column_counts_match_the_widths() {
    assert_eq!(Ipv4Header::get_headers().len(), 480);
    assert_eq!(TcpHeader::get_headers().len(), 480);
    assert_eq!(UdpHeader::get_headers().len(), 64);
    let names = PayloadHeader::get_headers();
    assert_eq!(names.len(), 12112);
    assert_eq!(names[0], "Payload_bit_0");
    assert_eq!(names[12111], "Payload_bit_12111");
    assert_eq!(Ipv4Header::get_headers()[159], "ipv4_dst_31");
    assert_eq!(TcpHeader::get_headers()[103], "tcp_ns_0");
    assert_eq!(TcpHeader::get_headers()[479], "tcp_opt_319");
}

fn value(bits: &[i8]) -> u64 {
    bits.iter().fold(0, |number, bit| 2 * number + *bit as u64)
}

#[test]
fn ipv4_fields_hold_their_values() {
    let data = Ipv4Header::new(&ipv4_bytes()).get_data().clone();
    let expected: [u64; 14] =
        [4, 5, 0, 60, 0xf51b, 0, 1, 0, 0, 64, 6, 0x1b24, 0xc0a82b25, 0xc6267888];
    let layout = Ipv4Header::layout();
    for (field, number) in layout.iter().zip(expected) {
        let bits = &data[field.start..field.start + field.width];
        assert_eq!(value(bits), number, "field {}", field.name);
    }
}

#[test]
fn tcp_fields_hold_their_values() {
    let data = TcpHeader::new(&tcp_bytes()).get_data().clone();
    let expected: [u64; 18] =
        [0xde92, 0x01bb, 0x7207f6a0, 0, 8, 0, 0, 0, 0, 0, 0, 0, 0, 1, 0, 0x2000, 0x0524, 0];
    let layout = TcpHeader::layout();
    for (field, number) in layout.iter().zip(expected) {
        let bits = &data[field.start..field.start + field.width];
        assert_eq!(value(bits), number, "field {}", field.name);
    }
}

#[test]
fn udp_fields_hold_their_values() {
    let data = UdpHeader::new(&[0xe1, 0x15, 0xe1, 0x16, 0x00, 0x34, 0x85, 0x00]).get_data().clone();
    let expected: [u64; 4] = [0xe115, 0xe116, 0x34, 0x8500];
    let layout = UdpHeader::layout();
    for (field, number) in layout.iter().zip(expected) {
        let bits = &data[field.start..field.start + field.width];
        assert_eq!(value(bits), number, "field {}", field.name);
    }
}
