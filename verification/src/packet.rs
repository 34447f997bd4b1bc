//! The summary of one captured Ethernet frame: its direction relative to the
//! local interface, the IP version it carries, its transport ports or
//! protocol, and the size of the innermost payload. The headers are read
//! with `pnet`; what the summary makes of them is verified here.

use vstd::prelude::*;
use pnet::packet::ethernet::EthernetPacket;
use pnet::packet::ip::IpNextHeaderProtocol;
use pnet::packet::ipv4::Ipv4Packet;
use pnet::packet::ipv6::Ipv6Packet;
use pnet::packet::tcp::TcpPacket;
use pnet::packet::udp::UdpPacket;
use pnet::packet::Packet;
use crate::text::{decimal_text, push_decimal, string_from_chars};

verus! {

/// The big-endian 16-bit number at `i` of `bytes`.
pub open spec fn be16(bytes: Seq<u8>, i: int) -> nat {
    (bytes[i] * 256 + bytes[i + 1]) as nat
}

/// The bytes of `bytes` from `start` up to `end` (clamped to the length),
/// empty when `start` is not below the length: how `pnet` cuts a payload.
pub open spec fn cut(bytes: Seq<u8>, start: int, end: int) -> Seq<u8> {
    if bytes.len() <= start {
        Seq::empty()
    } else if end < bytes.len() {
        bytes.subrange(start, end)
    } else {
        bytes.subrange(start, bytes.len() as int)
    }
}

/// The payload of an Ethernet frame: everything after its 14-byte header.
pub open spec fn ethernet_payload(frame: Seq<u8>) -> Seq<u8> {
    cut(frame, 14, frame.len() as int)
}

/// The IPv4 header length in bytes: the low nibble of the first byte, in
/// 32-bit words.
pub open spec fn ipv4_header_length(packet: Seq<u8>) -> int {
    (packet[0] % 16) * 4
}

/// The payload of an IPv4 packet: it starts after the header (at least 20
/// bytes) and is as long as the total length minus the header length.
pub open spec fn ipv4_payload(packet: Seq<u8>) -> Seq<u8> {
    let header = ipv4_header_length(packet);
    let start = if header > 20 { header } else { 20 };
    let total = be16(packet, 2) as int;
    let length = if total > header { total - header } else { 0 };
    cut(packet, start, start + length)
}

/// The payload of an IPv6 packet: after the 40-byte header, as long as its
/// payload length field.
pub open spec fn ipv6_payload(packet: Seq<u8>) -> Seq<u8> {
    cut(packet, 40, 40 + be16(packet, 4) as int)
}

/// The payload of a TCP segment: after the header, whose length is the data
/// offset (high nibble of byte 12) in 32-bit words, at least 20 bytes.
pub open spec fn tcp_payload(segment: Seq<u8>) -> Seq<u8> {
    let offset = segment[12] / 16;
    let start = if offset > 5 { offset * 4 } else { 20 };
    cut(segment, start, segment.len() as int)
}

/// The payload of a UDP datagram: after its 8-byte header.
pub open spec fn udp_payload(datagram: Seq<u8>) -> Seq<u8> {
    cut(datagram, 8, datagram.len() as int)
}

/// The name that `pnet` displays for an IP protocol number.
pub uninterp spec fn ip_protocol_name(protocol: u8) -> Seq<char>;

/// An Ethernet frame's addresses and payload.
pub struct EthernetFrame {
    pub destination: [u8; 6],
    pub source: [u8; 6],
    pub payload: Vec<u8>,
}

/// An IP packet's protocol number (IPv4 next level protocol, IPv6 next
/// header) and payload.
pub struct IpPacket {
    pub protocol: u8,
    pub payload: Vec<u8>,
}

/// A TCP or UDP header's ports, and the payload behind it.
pub struct TransportSegment {
    pub source_port: u16,
    pub destination_port: u16,
    pub payload: Vec<u8>,
}

/// `pnet`'s `EthernetPacket::new` and its accessors: a frame of at least 14
/// bytes is read, its destination address from bytes 0 to 5, its source
/// address from bytes 6 to 11, its payload from byte 14 on.
#[verifier::external_body]
fn read_ethernet(frame: &[u8]) -> (r: Option<EthernetFrame>)
    ensures
        match r {
            Some(f) => frame@.len() >= 14 && f.destination@ == frame@.subrange(0, 6)
                && f.source@ == frame@.subrange(6, 12) && f.payload@ == ethernet_payload(
                frame@,
            ),
            None => frame@.len() < 14,
        },
{
    EthernetPacket::new(frame).map(
        |p| {
            let (d, s) = (p.get_destination(), p.get_source());
            EthernetFrame {
                destination: [d.0, d.1, d.2, d.3, d.4, d.5],
                source: [s.0, s.1, s.2, s.3, s.4, s.5],
                payload: p.payload().to_vec(),
            }
        },
    )
}

/// `pnet`'s `Ipv4Packet::new` and its accessors: at least 20 bytes are read,
/// the protocol from byte 9, the payload as `ipv4_payload` says.
#[verifier::external_body]
fn read_ipv4(packet: &[u8]) -> (r: Option<IpPacket>)
    ensures
        match r {
            Some(p) => packet@.len() >= 20 && p.protocol == packet@[9] && p.payload@
                == ipv4_payload(packet@),
            None => packet@.len() < 20,
        },
{
    Ipv4Packet::new(packet).map(
        |p| IpPacket { protocol: p.get_next_level_protocol().0, payload: p.payload().to_vec() },
    )
}

/// `pnet`'s `Ipv6Packet::new` and its accessors: at least 40 bytes are read,
/// the next header from byte 6, the payload as `ipv6_payload` says.
#[verifier::external_body]
fn read_ipv6(packet: &[u8]) -> (r: Option<IpPacket>)
    ensures
        match r {
            Some(p) => packet@.len() >= 40 && p.protocol == packet@[6] && p.payload@
                == ipv6_payload(packet@),
            None => packet@.len() < 40,
        },
{
    Ipv6Packet::new(packet).map(
        |p| IpPacket { protocol: p.get_next_header().0, payload: p.payload().to_vec() },
    )
}

/// `pnet`'s `TcpPacket::new` and its accessors: at least 20 bytes are read,
/// the ports from bytes 0-1 and 2-3 (big-endian), the payload as
/// `tcp_payload` says.
#[verifier::external_body]
fn read_tcp(segment: &[u8]) -> (r: Option<TransportSegment>)
    ensures
        match r {
            Some(t) => segment@.len() >= 20 && t.source_port == be16(segment@, 0)
                && t.destination_port == be16(segment@, 2) && t.payload@ == tcp_payload(
                segment@,
            ),
            None => segment@.len() < 20,
        },
{
    TcpPacket::new(segment).map(
        |t| TransportSegment {
            source_port: t.get_source(),
            destination_port: t.get_destination(),
            payload: t.payload().to_vec(),
        },
    )
}

/// `pnet`'s `UdpPacket::new` and its accessors: at least 8 bytes are read,
/// the ports from bytes 0-1 and 2-3 (big-endian), the payload from byte 8 on.
#[verifier::external_body]
fn read_udp(datagram: &[u8]) -> (r: Option<TransportSegment>)
    ensures
        match r {
            Some(u) => datagram@.len() >= 8 && u.source_port == be16(datagram@, 0)
                && u.destination_port == be16(datagram@, 2) && u.payload@ == udp_payload(
                datagram@,
            ),
            None => datagram@.len() < 8,
        },
{
    UdpPacket::new(datagram).map(
        |u| TransportSegment {
            source_port: u.get_source(),
            destination_port: u.get_destination(),
            payload: u.payload().to_vec(),
        },
    )
}

/// `pnet`'s `Display` of `IpNextHeaderProtocol`: the protocol's name, a
/// function of its number; the table of names is left unstated.
#[verifier::external_body]
fn protocol_name(protocol: u8) -> (name: String)
    ensures
        name@ == ip_protocol_name(protocol),
{
    format!("{}", IpNextHeaderProtocol::new(protocol))
}


/// Whether a frame came to the local interface, left it, or neither.
#[derive(Clone, Copy, Debug, PartialEq, Eq, Structural)]
pub enum Direction {
    Incoming,
    Outgoing,
    Unknown,
}

/// The IP version that a frame's payload reads as.
#[derive(Clone, Copy, Debug, PartialEq, Eq, Structural)]
pub enum IpVersion {
    Ipv4,
    Ipv6,
    Other,
}

/// What a summary says, as values.
pub struct SummaryView {
    pub ip_version: IpVersion,
    pub direction: Direction,
    pub port_info: Seq<char>,
    pub size: nat,
}

/// The summary of one frame.
pub struct PacketSummary {
    pub ip_version: IpVersion,
    pub direction: Direction,
    /// The transport ports, the protocol name, or `N/A`.
    pub port_info: String,
    /// The size in bytes of the innermost payload read.
    pub size: usize,
}

impl View for PacketSummary {
    type V = SummaryView;

    open spec fn view(&self) -> SummaryView {
        SummaryView {
            ip_version: self.ip_version,
            direction: self.direction,
            port_info: self.port_info@,
            size: self.size as nat,
        }
    }
}

/// A frame addressed to the local address is incoming; else one sent from
/// it is outgoing; else the direction is unknown.
pub open spec fn direction_of(frame: Seq<u8>, local: Seq<u8>) -> Direction {
    if frame.subrange(0, 6) == local {
        Direction::Incoming
    } else if frame.subrange(6, 12) == local {
        Direction::Outgoing
    } else {
        Direction::Unknown
    }
}

/// `<label> src_port=<source>, dst_port=<destination>` for a transport header.
pub open spec fn ports_text(label: Seq<char>, segment: Seq<u8>) -> Seq<char> {
    label + " src_port="@ + decimal_text(be16(segment, 0)) + ", dst_port="@ + decimal_text(
        be16(segment, 2),
    )
}

/// The port information and size for an IP packet with this protocol and
/// payload: a TCP (6) or UDP (17) header that reads gives its ports and the
/// size of its payload; one that does not read leaves `N/A` and
/// `unread_size`; any other protocol gives its name and the IP payload's size.
pub open spec fn transport_summary(
    protocol: u8,
    payload: Seq<u8>,
    tcp_label: Seq<char>,
    udp_label: Seq<char>,
    unread_size: nat,
) -> (Seq<char>, nat) {
    if protocol == 6 {
        if payload.len() >= 20 {
            (ports_text(tcp_label, payload), tcp_payload(payload).len())
        } else {
            ("N/A"@, unread_size)
        }
    } else if protocol == 17 {
        if payload.len() >= 8 {
            (ports_text(udp_label, payload), udp_payload(payload).len())
        } else {
            ("N/A"@, unread_size)
        }
    } else {
        (ip_protocol_name(protocol), payload.len())
    }
}

/// The summary of a frame of at least 14 bytes, seen on the interface with
/// address `local`: the payload is read as IPv4 when it is long enough for
/// that, else as IPv6 when long enough, else as neither.
pub open spec fn summary_of(frame: Seq<u8>, local: Seq<u8>) -> SummaryView {
    let payload = ethernet_payload(frame);
    let direction = direction_of(frame, local);
    if payload.len() >= 20 {
        let info = transport_summary(
            payload[9],
            ipv4_payload(payload),
            "TCP"@,
            "UDP"@,
            payload.len(),
        );
        SummaryView { ip_version: IpVersion::Ipv4, direction, port_info: info.0, size: info.1 }
    } else if payload.len() >= 40 {
        let info = transport_summary(
            payload[6],
            ipv6_payload(payload),
            "TCPv6"@,
            "UDPv6"@,
            payload.len(),
        );
        SummaryView { ip_version: IpVersion::Ipv6, direction, port_info: info.0, size: info.1 }
    } else {
        SummaryView {
            ip_version: IpVersion::Other,
            direction,
            port_info: "N/A"@,
            size: payload.len(),
        }
    }
}


proof fn lemma_cut_len(bytes: Seq<u8>, start: int, end: int)
    requires
        start >= 0,
        start < bytes.len() ==> end >= start,
    ensures
        cut(bytes, start, end).len() <= bytes.len(),
{
}

/// The payload is read as IPv4 whenever it is long enough for an IPv4
/// header, which an IPv6 header always is: no frame is summarized as IPv6.
pub proof fn lemma_never_ipv6(frame: Seq<u8>, local: Seq<u8>)
    ensures
        summary_of(frame, local).ip_version != IpVersion::Ipv6,
{
}

/// The size reported never exceeds the frame's payload.
pub proof fn lemma_size_within_payload(frame: Seq<u8>, local: Seq<u8>)
    requires
        frame.len() >= 14,
    ensures
        summary_of(frame, local).size <= ethernet_payload(frame).len(),
{
    let payload = ethernet_payload(frame);
    if payload.len() >= 20 {
        let header = ipv4_header_length(payload);
        let start = if header > 20 { header } else { 20 };
        let total = be16(payload, 2) as int;
        let length = if total > header { total - header } else { 0 };
        lemma_cut_len(payload, start, start + length);
        let ip = ipv4_payload(payload);
        if ip.len() >= 20 {
            let offset = ip[12] / 16;
            let tcp_start = if offset > 5 { offset * 4 } else { 20 };
            lemma_cut_len(ip, tcp_start as int, ip.len() as int);
        }
        if ip.len() >= 8 {
            lemma_cut_len(ip, 8, ip.len() as int);
        }
    }
}


/// For an IPv4 frame carrying TCP, the size reported is the TCP payload's:
/// the IP payload's length less the TCP header length that the data offset
/// gives (4 bytes per unit of the high nibble of byte 12, at least 20), or
/// nothing when the header takes it all; when the IP payload is too short
/// for a TCP header, it is the whole Ethernet payload.
pub proof fn lemma_tcp_size(frame: Seq<u8>, local: Seq<u8>)
    requires
        frame.len() >= 14,
        ethernet_payload(frame).len() >= 20,
        ethernet_payload(frame)[9] == 6,
    ensures
        ({
            let ip = ipv4_payload(ethernet_payload(frame));
            let header = if ip[12] / 16 > 5 {
                (ip[12] / 16) * 4
            } else {
                20
            };
            ip.len() >= 20 ==> summary_of(frame, local).size == if ip.len() > header {
                ip.len() - header
            } else {
                0
            }
        }),
        ipv4_payload(ethernet_payload(frame)).len() < 20 ==> summary_of(frame, local).size
            == ethernet_payload(frame).len(),
{
}

/// For an IPv4 frame carrying UDP, the size reported is the IP payload's
/// length less the 8-byte UDP header; when the IP payload is too short for
/// a UDP header, it is the whole Ethernet payload.
pub proof fn lemma_udp_size(frame: Seq<u8>, local: Seq<u8>)
    requires
        frame.len() >= 14,
        ethernet_payload(frame).len() >= 20,
        ethernet_payload(frame)[9] == 17,
    ensures
        ipv4_payload(ethernet_payload(frame)).len() >= 8 ==> summary_of(frame, local).size
            == ipv4_payload(ethernet_payload(frame)).len() - 8,
        ipv4_payload(ethernet_payload(frame)).len() < 8 ==> summary_of(frame, local).size
            == ethernet_payload(frame).len(),
{
}

impl Direction {
    /// The word printed for the direction.
    pub fn name(&self) -> (r: &'static str)
        ensures
            r@ == match self {
                Direction::Incoming => "Incoming"@,
                Direction::Outgoing => "Outgoing"@,
                Direction::Unknown => "Unknown"@,
            },
    {
        match self {
            Direction::Incoming => "Incoming",
            Direction::Outgoing => "Outgoing",
            Direction::Unknown => "Unknown",
        }
    }
}

impl IpVersion {
    /// The word printed for the IP version.
    pub fn name(&self) -> (r: &'static str)
        ensures
            r@ == match self {
                IpVersion::Ipv4 => "IPv4"@,
                IpVersion::Ipv6 => "IPv6"@,
                IpVersion::Other => "Other"@,
            },
    {
        match self {
            IpVersion::Ipv4 => "IPv4",
            IpVersion::Ipv6 => "IPv6",
            IpVersion::Other => "Other",
        }
    }
}

/// Whether two hardware addresses are equal.
fn same_address(a: &[u8; 6], b: &[u8; 6]) -> (r: bool)
    ensures
        r == (a@ == b@),
{
    let mut i: usize = 0;
    while i < 6
        invariant
            0 <= i <= 6,
            a@.len() == 6,
            b@.len() == 6,
            forall|k: int| 0 <= k < i ==> a@[k] == b@[k],
        decreases 6 - i,
    {
        if a[i] != b[i] {
            return false;
        }
        i = i + 1;
    }
    assert(a@ =~= b@);
    true
}

/// The decimal text of a port.
fn port_decimal(port: u16) -> (s: String)
    ensures
        s@ == decimal_text(port as nat),
{
    let mut digits: Vec<char> = Vec::new();
    push_decimal(port as u64, &mut digits);
    assert(digits@ =~= decimal_text(port as nat));
    string_from_chars(digits.as_slice())
}

/// `<label> src_port=<source>, dst_port=<destination>`.
fn ports_info(label: &str, segment: &TransportSegment) -> (s: String)
    ensures
        s@ == label@ + " src_port="@ + decimal_text(segment.source_port as nat) + ", dst_port="@
            + decimal_text(segment.destination_port as nat),
{
    let mut s = String::from_str(label);
    s.append(" src_port=");
    let source = port_decimal(segment.source_port);
    s.append(source.as_str());
    s.append(", dst_port=");
    let destination = port_decimal(segment.destination_port);
    s.append(destination.as_str());
    s
}

/// The port information and size for an IP packet, as `transport_summary`.
fn summarize_transport(
    ip: &IpPacket,
    tcp_label: &str,
    udp_label: &str,
    unread_size: usize,
) -> (r: (String, usize))
    ensures
        (r.0@, r.1 as nat) == transport_summary(
            ip.protocol,
            ip.payload@,
            tcp_label@,
            udp_label@,
            unread_size as nat,
        ),
{
    if ip.protocol == 6 {
        match read_tcp(ip.payload.as_slice()) {
            Some(tcp) => (ports_info(tcp_label, &tcp), tcp.payload.len()),
            None => (String::from_str("N/A"), unread_size),
        }
    } else if ip.protocol == 17 {
        match read_udp(ip.payload.as_slice()) {
            Some(udp) => (ports_info(udp_label, &udp), udp.payload.len()),
            None => (String::from_str("N/A"), unread_size),
        }
    } else {
        (protocol_name(ip.protocol), ip.payload.len())
    }
}

/// Summarizes one captured frame seen on the interface whose address is
/// `local`; a frame shorter than an Ethernet header gives `None`.
pub fn summarize_packet(frame: &[u8], local: &[u8; 6]) -> (r: Option<PacketSummary>)
    ensures
        match r {
            Some(summary) => frame@.len() >= 14 && summary@ == summary_of(frame@, local@),
            None => frame@.len() < 14,
        },
{
    let ethernet = match read_ethernet(frame) {
        Some(e) => e,
        None => return None,
    };
    let direction = if same_address(&ethernet.destination, local) {
        Direction::Incoming
    } else if same_address(&ethernet.source, local) {
        Direction::Outgoing
    } else {
        Direction::Unknown
    };
    let payload = ethernet.payload.as_slice();
    let summary = match read_ipv4(payload) {
        Some(ip) => {
            let (port_info, size) = summarize_transport(&ip, "TCP", "UDP", payload.len());
            PacketSummary { ip_version: IpVersion::Ipv4, direction, port_info, size }
        },
        None => match read_ipv6(payload) {
            Some(ip) => {
                let (port_info, size) = summarize_transport(&ip, "TCPv6", "UDPv6", payload.len());
                PacketSummary { ip_version: IpVersion::Ipv6, direction, port_info, size }
            },
            None => PacketSummary {
                ip_version: IpVersion::Other,
                direction,
                port_info: String::from_str("N/A"),
                size: payload.len(),
            },
        },
    };
    Some(summary)
}


/// What the choice of the capture interface looks at.
#[derive(Clone, Copy, Debug, PartialEq, Eq, Structural)]
pub struct InterfaceInfo {
    pub has_hardware_address: bool,
    pub is_loopback: bool,
}

/// Whether frames are captured on an interface of this kind.
pub open spec fn capturable(info: InterfaceInfo) -> bool {
    info.has_hardware_address && !info.is_loopback
}

/// The first interface that has a hardware address and is no loopback.
pub fn select_interface(interfaces: &[InterfaceInfo]) -> (r: Option<usize>)
    ensures
        match r {
            Some(i) => i < interfaces@.len() && capturable(interfaces@[i as int]) && forall|k: int|
                0 <= k < i ==> !capturable(#[trigger] interfaces@[k]),
            None => forall|k: int| 0 <= k < interfaces@.len() ==> !capturable(#[trigger] interfaces@[k]),
        },
{
    let mut i: usize = 0;
    while i < interfaces.len()
        invariant
            0 <= i <= interfaces@.len(),
            forall|k: int| 0 <= k < i ==> !capturable(#[trigger] interfaces@[k]),
        decreases interfaces@.len() - i,
    {
        let info = interfaces[i];
        if info.has_hardware_address && !info.is_loopback {
            return Some(i);
        }
        i = i + 1;
    }
    None
}

} // verus!
