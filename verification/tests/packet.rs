use perf_monitor::packet::{select_interface, summarize_packet, Direction, InterfaceInfo, IpVersion};

const LOCAL: [u8; 6] = [0x02, 0, 0, 0, 0, 0x01];
const OTHER: [u8; 6] = [0x02, 0, 0, 0, 0, 0x02];
const THIRD: [u8; 6] = [0x02, 0, 0, 0, 0, 0x03];

fn frame(destination: [u8; 6], source: [u8; 6], payload: &[u8]) -> Vec<u8> {
    let mut bytes = Vec::new();
    bytes.extend_from_slice(&destination);
    bytes.extend_from_slice(&source);
    bytes.extend_from_slice(&[0x08, 0x00]);
    bytes.extend_from_slice(payload);
    bytes
}

fn ipv4(protocol: u8, body: &[u8], total_length: u16) -> Vec<u8> {
    let mut bytes = vec![0x45, 0];
    bytes.extend_from_slice(&total_length.to_be_bytes());
    bytes.extend_from_slice(&[0, 0, 0, 0, 64, protocol, 0, 0, 10, 0, 0, 1, 10, 0, 0, 2]);
    bytes.extend_from_slice(body);
    bytes
}

fn tcp(source: u16, destination: u16, payload: &[u8]) -> Vec<u8> {
    let mut bytes = Vec::new();
    bytes.extend_from_slice(&source.to_be_bytes());
    bytes.extend_from_slice(&destination.to_be_bytes());
    bytes.extend_from_slice(&[0, 0, 0, 1, 0, 0, 0, 0, 0x50, 0x18, 0xff, 0xff, 0, 0, 0, 0]);
    bytes.extend_from_slice(payload);
    bytes
}

fn udp(source: u16, destination: u16, payload: &[u8]) -> Vec<u8> {
    let mut bytes = Vec::new();
    bytes.extend_from_slice(&source.to_be_bytes());
    bytes.extend_from_slice(&destination.to_be_bytes());
    bytes.extend_from_slice(&((8 + payload.len()) as u16).to_be_bytes());
    bytes.extend_from_slice(&[0, 0]);
    bytes.extend_from_slice(payload);
    bytes
}

#[test]
fn incoming_tcp_segment() {
    let segment = tcp(443, 51000, b"abc");
    let packet = ipv4(6, &segment, 43);
    let summary = summarize_packet(&frame(LOCAL, OTHER, &packet), &LOCAL).unwrap();
    assert_eq!(summary.ip_version, IpVersion::Ipv4);
    assert_eq!(summary.direction, Direction::Incoming);
    assert_eq!(summary.port_info, "TCP src_port=443, dst_port=51000");
    assert_eq!(summary.size, 3);
}

#[test]
fn outgoing_udp_datagram() {
    let datagram = udp(53, 40000, b"wxyz");
    let packet = ipv4(17, &datagram, 32);
    let summary = summarize_packet(&frame(OTHER, LOCAL, &packet), &LOCAL).unwrap();
    assert_eq!(summary.direction, Direction::Outgoing);
    assert_eq!(summary.port_info, "UDP src_port=53, dst_port=40000");
    assert_eq!(summary.size, 4);
}

#[test]
fn other_protocol_is_named() {
    let packet = ipv4(1, &[8, 0, 0, 0, 0, 0, 0, 0], 28);
    let summary = summarize_packet(&frame(OTHER, THIRD, &packet), &LOCAL).unwrap();
    assert_eq!(summary.direction, Direction::Unknown);
    assert_eq!(summary.port_info, "Icmp");
    assert_eq!(summary.size, 8);
}

#[test]
fn ipv4_payload_follows_total_length() {
    // total length says 24: 4 payload bytes, the rest is padding
    let packet = ipv4(99, &[1, 2, 3, 4, 0, 0, 0, 0, 0, 0], 24);
    let summary = summarize_packet(&frame(LOCAL, OTHER, &packet), &LOCAL).unwrap();
    assert_eq!(summary.size, 4);
}

#[test]
fn short_tcp_header_keeps_frame_payload_size() {
    let packet = ipv4(6, &[0; 10], 30);
    let summary = summarize_packet(&frame(LOCAL, OTHER, &packet), &LOCAL).unwrap();
    assert_eq!(summary.ip_version, IpVersion::Ipv4);
    assert_eq!(summary.port_info, "N/A");
    assert_eq!(summary.size, 30);
}

#[test]
fn short_payload_is_other() {
    let summary = summarize_packet(&frame(LOCAL, OTHER, &[1, 2, 3]), &LOCAL).unwrap();
    assert_eq!(summary.ip_version, IpVersion::Other);
    assert_eq!(summary.port_info, "N/A");
    assert_eq!(summary.size, 3);
    assert_eq!(summary.ip_version.name(), "Other");
    assert_eq!(summary.direction.name(), "Incoming");
}

#[test]
fn ipv6_frames_read_as_ipv4() {
    let mut packet = vec![0x60, 0, 0, 0, 0, 4, 17, 64];
    packet.extend_from_slice(&[0; 32]);
    packet.extend_from_slice(&[1, 2, 3, 4]);
    let summary = summarize_packet(&frame(LOCAL, OTHER, &packet), &LOCAL).unwrap();
    assert_eq!(summary.ip_version, IpVersion::Ipv4);
    assert_eq!(summary.ip_version.name(), "IPv4");
}

#[test]
fn frame_shorter_than_header() {
    assert!(summarize_packet(&[0; 13], &LOCAL).is_none());
    let summary = summarize_packet(&[0; 14], &[0; 6]).unwrap();
    assert_eq!(summary.direction, Direction::Incoming);
    assert_eq!(summary.size, 0);
}

#[test]
fn capture_interface_is_first_real_one() {
    let lo = InterfaceInfo { has_hardware_address: true, is_loopback: true };
    let tun = InterfaceInfo { has_hardware_address: false, is_loopback: false };
    let eth = InterfaceInfo { has_hardware_address: true, is_loopback: false };
    assert_eq!(select_interface(&[lo, tun, eth, eth]), Some(2));
    assert_eq!(select_interface(&[lo, tun]), None);
    assert_eq!(select_interface(&[]), None);
}
