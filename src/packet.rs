//! Parsers for the layers of a network packet.
use vstd::prelude::*;
use crate::graph::Peel;
use crate::parser::{MismatchKind, Needed, ParseOutcome, Parsable};

verus! {

/// The length of an Ethernet header in bytes.
pub const ETHERNET_HEADER_LEN: usize = 14;

/// The length of an IPv4 header without options, in bytes.
pub const IPV4_HEADER_LEN: usize = 20;

/// The length of an IPv6 header in bytes.
pub const IPV6_HEADER_LEN: usize = 40;

/// The length of a TCP header without options, in bytes.
pub const TCP_HEADER_LEN: usize = 20;

/// The length of a UDP header in bytes.
pub const UDP_HEADER_LEN: usize = 8;

/// The length of a TLS record header in bytes.
pub const TLS_HEADER_LEN: usize = 5;

/// The length of an NTP packet without extensions, in bytes.
pub const NTP_PACKET_LEN: usize = 48;

/// A big-endian 16-bit integer from two bytes.
pub open spec fn be_u16(hi: u8, lo: u8) -> u16 {
    ((hi as u16) << 8u16) | (lo as u16)
}

fn read_be_u16(hi: u8, lo: u8) -> (r: u16)
    ensures
        r == be_u16(hi, lo),
{
    ((hi as u16) << 8u16) | (lo as u16)
}

/// A big-endian 32-bit integer from four bytes.
pub open spec fn be_u32(a: u8, b: u8, c: u8, d: u8) -> u32 {
    ((a as u32) << 24u32) | ((b as u32) << 16u32) | ((c as u32) << 8u32) | (d as u32)
}

fn read_be_u32(a: u8, b: u8, c: u8, d: u8) -> (r: u32)
    ensures
        r == be_u32(a, b, c, d),
{
    ((a as u32) << 24u32) | ((b as u32) << 16u32) | ((c as u32) << 8u32) | (d as u32)
}

/// The protocol that an Ethernet frame carries.
#[derive(Debug, Clone, Copy, PartialEq, Eq, Structural)]
pub enum EtherType {
    /// Internet Protocol version 4 (0x0800).
    Ipv4,
    /// Address Resolution Protocol (0x0806).
    Arp,
    /// Internet Protocol version 6 (0x86dd).
    Ipv6,
}

/// The Ethernet type that a 16-bit code stands for, if any.
pub open spec fn ether_type_of(code: u16) -> Option<EtherType> {
    if code == 0x0800 {
        Some(EtherType::Ipv4)
    } else if code == 0x0806 {
        Some(EtherType::Arp)
    } else if code == 0x86dd {
        Some(EtherType::Ipv6)
    } else {
        None
    }
}

fn ether_type(code: u16) -> (r: Option<EtherType>)
    ensures
        r == ether_type_of(code),
{
    if code == 0x0800 {
        Some(EtherType::Ipv4)
    } else if code == 0x0806 {
        Some(EtherType::Arp)
    } else if code == 0x86dd {
        Some(EtherType::Ipv6)
    } else {
        None
    }
}

/// The protocol that an IPv4 packet carries.
#[derive(Debug, Clone, Copy, PartialEq, Eq, Structural)]
pub enum IpProtocol {
    /// Internet Control Message Protocol (1).
    Icmp,
    /// Transmission Control Protocol (6).
    Tcp,
    /// User Datagram Protocol (17).
    Udp,
}

/// The IP protocol that a protocol number stands for, if any.
pub open spec fn ip_protocol_of(code: u8) -> Option<IpProtocol> {
    if code == 1 {
        Some(IpProtocol::Icmp)
    } else if code == 6 {
        Some(IpProtocol::Tcp)
    } else if code == 17 {
        Some(IpProtocol::Udp)
    } else {
        None
    }
}

fn ip_protocol(code: u8) -> (r: Option<IpProtocol>)
    ensures
        r == ip_protocol_of(code),
{
    if code == 1 {
        Some(IpProtocol::Icmp)
    } else if code == 6 {
        Some(IpProtocol::Tcp)
    } else if code == 17 {
        Some(IpProtocol::Udp)
    } else {
        None
    }
}

/// An Ethernet header.
#[derive(Debug, Clone, Copy, PartialEq, Eq)]
pub struct EthernetPacket {
    /// The destination MAC address.
    pub dst: [u8; 6],
    /// The source MAC address.
    pub src: [u8; 6],
    /// The protocol of the payload.
    pub ethertype: EtherType,
}

/// An IPv4 header.
#[derive(Debug, Clone, Copy, PartialEq, Eq)]
pub struct Ipv4Packet {
    /// The version field; always 4.
    pub version: u8,
    /// The header length in bytes.
    pub ihl: u8,
    /// The type of service.
    pub tos: u8,
    /// The total length of the packet.
    pub length: u16,
    /// The identification field.
    pub id: u16,
    /// The flags and the fragment offset.
    pub flags_and_fragment_offset: u16,
    /// The time to live.
    pub ttl: u8,
    /// The protocol of the payload.
    pub protocol: IpProtocol,
    /// The header checksum.
    pub checksum: u16,
    /// The source address, in network order.
    pub src: [u8; 4],
    /// The destination address, in network order.
    pub dst: [u8; 4],
}

/// An IPv6 header.
#[derive(Debug, Clone, Copy, PartialEq, Eq)]
pub struct Ipv6Packet {
    /// The version field; always 6.
    pub version: u8,
    /// The traffic class.
    pub traffic_class: u8,
    /// The flow label, 20 bits.
    pub flow_label: u32,
    /// The length of the payload.
    pub payload_length: u16,
    /// The protocol of the payload.
    pub next_header: IpProtocol,
    /// The hop limit.
    pub hop_limit: u8,
    /// The source address, in network order.
    pub src: [u8; 16],
    /// The destination address, in network order.
    pub dst: [u8; 16],
}

/// A TCP header.
#[derive(Debug, Clone, Copy, PartialEq, Eq)]
pub struct TcpPacket {
    /// The source port.
    pub source_port: u16,
    /// The destination port.
    pub dest_port: u16,
    /// The sequence number.
    pub sequence_no: u32,
    /// The acknowledgment number.
    pub ack_no: u32,
    /// The header length in bytes.
    pub header_length: u8,
    /// The flag bits.
    pub flags: u8,
    /// The window size.
    pub window: u16,
    /// The checksum.
    pub checksum: u16,
    /// The urgent pointer.
    pub urgent_pointer: u16,
}

/// A UDP header.
#[derive(Debug, Clone, Copy, PartialEq, Eq)]
pub struct UdpPacket {
    /// The source port.
    pub source_port: u16,
    /// The destination port.
    pub dest_port: u16,
    /// The length of header and payload.
    pub length: u16,
    /// The checksum.
    pub checksum: u16,
}

/// The content type of a TLS record.
#[derive(Debug, Clone, Copy, PartialEq, Eq, Structural)]
pub enum TlsRecordContentType {
    /// Change cipher spec (20).
    ChangeCipherSpec,
    /// Alert (21).
    Alert,
    /// Handshake (22).
    Handshake,
    /// Application data (23).
    ApplicationData,
}

/// A TLS record header.
#[derive(Debug, Clone, Copy, PartialEq, Eq)]
pub struct TlsPacket {
    /// The content type of the record.
    pub content_type: TlsRecordContentType,
    /// The major version; always 3.
    pub version_major: u8,
    /// The minor version, from 0 to 4.
    pub version_minor: u8,
    /// The length of the record's payload.
    pub length: u16,
}

/// The request method or the response of an HTTP message.
#[derive(Debug, Clone, Copy, PartialEq, Eq, Structural)]
pub enum HttpPacket {
    /// A `GET` request.
    Get,
    /// A `PUT` request.
    Put,
    /// A `POST` request.
    Post,
    /// A `HEAD` request.
    Head,
    /// A `DELETE` request.
    Delete,
    /// A response.
    Response,
}

/// An NTP packet.
#[derive(Debug, Clone, Copy, PartialEq, Eq)]
pub struct NtpPacket {
    /// The leap indicator, 2 bits.
    pub leap: u8,
    /// The version, from 1 to 4.
    pub version: u8,
    /// The mode, 3 bits.
    pub mode: u8,
    /// The stratum.
    pub stratum: u8,
    /// The poll interval.
    pub poll: u8,
    /// The precision.
    pub precision: u8,
    /// The root delay.
    pub root_delay: u32,
    /// The root dispersion.
    pub root_dispersion: u32,
    /// The reference identifier.
    pub ref_id: u32,
    /// The seconds of the transmit timestamp.
    pub transmit_seconds: u32,
    /// The fraction of the transmit timestamp.
    pub transmit_fraction: u32,
}

/// The value that a parser of a packet layer produces.
#[derive(Debug, Clone, Copy, PartialEq, Eq)]
pub enum Layer {
    /// Ethernet protocol for layer 1.
    Ethernet(EthernetPacket),
    /// Internet Protocol version 4 packet variant.
    Ipv4(Ipv4Packet),
    /// Internet Protocol version 6 packet variant.
    Ipv6(Ipv6Packet),
    /// Transmission Control Protocol packet variant.
    Tcp(TcpPacket),
    /// Transport Layer Security packet variant.
    Tls(TlsPacket),
    /// Hypertext Transfer Protocol packet variant.
    Http(HttpPacket),
    /// User Datagram Protocol packet variant.
    Udp(UdpPacket),
    /// Network Time Protocol packet variant.
    Ntp(NtpPacket),
}

/// The packet parsers; each variant is both a parser and its own tag.
#[derive(Debug, Clone, Copy, PartialEq, Eq, Structural)]
pub enum ParserVariant {
    /// Ethernet protocol parser.
    Ethernet,
    /// Internet Protocol version 4 parser.
    Ipv4,
    /// Internet Protocol version 6 parser.
    Ipv6,
    /// Transmission Control Protocol parser.
    Tcp,
    /// Transport Layer Security parser.
    Tls,
    /// Hypertext Transfer Protocol parser.
    Http,
    /// User Datagram Protocol parser.
    Udp,
    /// Network Time Protocol parser.
    Ntp,
}

/// The name of the protocol that a parser reads.
pub open spec fn protocol_name(v: ParserVariant) -> Seq<char> {
    match v {
        ParserVariant::Ethernet => "Ethernet"@,
        ParserVariant::Ipv4 => "IPv4"@,
        ParserVariant::Ipv6 => "IPv6"@,
        ParserVariant::Tcp => "TCP"@,
        ParserVariant::Tls => "TLS"@,
        ParserVariant::Http => "HTTP"@,
        ParserVariant::Udp => "UDP"@,
        ParserVariant::Ntp => "NTP"@,
    }
}

/// The parser that produces a layer of this kind.
pub open spec fn layer_variant(l: Layer) -> ParserVariant {
    match l {
        Layer::Ethernet(_) => ParserVariant::Ethernet,
        Layer::Ipv4(_) => ParserVariant::Ipv4,
        Layer::Ipv6(_) => ParserVariant::Ipv6,
        Layer::Tcp(_) => ParserVariant::Tcp,
        Layer::Tls(_) => ParserVariant::Tls,
        Layer::Http(_) => ParserVariant::Http,
        Layer::Udp(_) => ParserVariant::Udp,
        Layer::Ntp(_) => ParserVariant::Ntp,
    }
}

impl ParserVariant {
    /// The name of the protocol this parser reads.
    pub fn name(&self) -> (r: &'static str)
        ensures
            r@ == protocol_name(*self),
    {
        match self {
            ParserVariant::Ethernet => "Ethernet",
            ParserVariant::Ipv4 => "IPv4",
            ParserVariant::Ipv6 => "IPv6",
            ParserVariant::Tcp => "TCP",
            ParserVariant::Tls => "TLS",
            ParserVariant::Http => "HTTP",
            ParserVariant::Udp => "UDP",
            ParserVariant::Ntp => "NTP",
        }
    }
}

impl Layer {
    /// The name of the protocol of this layer.
    pub fn name(&self) -> (r: &'static str)
        ensures
            r@ == protocol_name(layer_variant(*self)),
    {
        let v = match self {
            Layer::Ethernet(_) => ParserVariant::Ethernet,
            Layer::Ipv4(_) => ParserVariant::Ipv4,
            Layer::Ipv6(_) => ParserVariant::Ipv6,
            Layer::Tcp(_) => ParserVariant::Tcp,
            Layer::Tls(_) => ParserVariant::Tls,
            Layer::Http(_) => ParserVariant::Http,
            Layer::Udp(_) => ParserVariant::Udp,
            Layer::Ntp(_) => ParserVariant::Ntp,
        };
        v.name()
    }
}

/// What the Ethernet parser gives on `input`.
pub open spec fn spec_ethernet(input: Seq<u8>) -> ParseOutcome<Layer> {
    if input.len() < ETHERNET_HEADER_LEN {
        ParseOutcome::Incomplete(Needed::Size(ETHERNET_HEADER_LEN))
    } else {
        match ether_type_of(be_u16(input[12], input[13])) {
            None => ParseOutcome::Mismatch(12, MismatchKind::MapOpt),
            Some(t) => ParseOutcome::Done(
                ETHERNET_HEADER_LEN,
                Layer::Ethernet(EthernetPacket {
                    dst: [input[0], input[1], input[2], input[3], input[4], input[5]],
                    src: [input[6], input[7], input[8], input[9], input[10], input[11]],
                    ethertype: t,
                }),
            ),
        }
    }
}

/// What the IPv4 parser gives on `input`: fields are read in order, so a wrong
/// version is found before missing bytes of the rest of the header.
pub open spec fn spec_ipv4(input: Seq<u8>) -> ParseOutcome<Layer> {
    if input.len() == 0 {
        ParseOutcome::Incomplete(Needed::Size(IPV4_HEADER_LEN))
    } else if input[0] >> 4u8 != 4 {
        ParseOutcome::Mismatch(0, MismatchKind::TagBits)
    } else if input.len() < 10 {
        ParseOutcome::Incomplete(Needed::Size(IPV4_HEADER_LEN))
    } else if ip_protocol_of(input[9]) is None {
        ParseOutcome::Mismatch(9, MismatchKind::MapOpt)
    } else if input.len() < IPV4_HEADER_LEN {
        ParseOutcome::Incomplete(Needed::Size(IPV4_HEADER_LEN))
    } else {
        ParseOutcome::Done(
            IPV4_HEADER_LEN,
            Layer::Ipv4(Ipv4Packet {
                version: 4,
                ihl: ((input[0] & 0x0fu8) as u16 * 4) as u8,
                tos: input[1],
                length: be_u16(input[2], input[3]),
                id: be_u16(input[4], input[5]),
                flags_and_fragment_offset: be_u16(input[6], input[7]),
                ttl: input[8],
                protocol: ip_protocol_of(input[9])->Some_0,
                checksum: be_u16(input[10], input[11]),
                src: [input[12], input[13], input[14], input[15]],
                dst: [input[16], input[17], input[18], input[19]],
            }),
        )
    }
}

/// The IP protocol that the last layer so far carries, if it is an IP layer.
pub open spec fn carried_protocol(prior: Seq<Layer>) -> Option<IpProtocol> {
    if prior.len() == 0 {
        None
    } else {
        match prior.last() {
            Layer::Ipv4(p) => Some(p.protocol),
            Layer::Ipv6(p) => Some(p.next_header),
            _ => None,
        }
    }
}

fn last_protocol(prior: &Vec<Layer>) -> (r: Option<IpProtocol>)
    ensures
        r == carried_protocol(prior@),
{
    if prior.len() == 0 {
        return None;
    }
    match &prior[prior.len() - 1] {
        Layer::Ipv4(p) => Some(p.protocol),
        Layer::Ipv6(p) => Some(p.next_header),
        _ => None,
    }
}

/// The port of the Network Time Protocol.
pub const NTP_PORT: u16 = 123;

/// The last layer so far is a UDP header with the NTP port at either end.
pub open spec fn after_ntp_port(prior: Seq<Layer>) -> bool {
    prior.len() > 0 && match prior.last() {
        Layer::Udp(u) => u.source_port == NTP_PORT || u.dest_port == NTP_PORT,
        _ => false,
    }
}

fn last_is_ntp_port(prior: &Vec<Layer>) -> (r: bool)
    ensures
        r == after_ntp_port(prior@),
{
    if prior.len() == 0 {
        return false;
    }
    match &prior[prior.len() - 1] {
        Layer::Udp(u) => u.source_port == NTP_PORT || u.dest_port == NTP_PORT,
        _ => false,
    }
}

/// What the IPv6 parser gives on `input`.
pub open spec fn spec_ipv6(input: Seq<u8>) -> ParseOutcome<Layer> {
    if input.len() == 0 {
        ParseOutcome::Incomplete(Needed::Size(IPV6_HEADER_LEN))
    } else if input[0] >> 4u8 != 6 {
        ParseOutcome::Mismatch(0, MismatchKind::TagBits)
    } else if input.len() < 7 {
        ParseOutcome::Incomplete(Needed::Size(IPV6_HEADER_LEN))
    } else if ip_protocol_of(input[6]) is None {
        ParseOutcome::Mismatch(6, MismatchKind::MapOpt)
    } else if input.len() < IPV6_HEADER_LEN {
        ParseOutcome::Incomplete(Needed::Size(IPV6_HEADER_LEN))
    } else {
        ParseOutcome::Done(
            IPV6_HEADER_LEN,
            Layer::Ipv6(Ipv6Packet {
                version: 6,
                traffic_class: ((input[0] & 0x0fu8) << 4u8) | (input[1] >> 4u8),
                flow_label: be_u32(0, input[1] & 0x0fu8, input[2], input[3]),
                payload_length: be_u16(input[4], input[5]),
                next_header: ip_protocol_of(input[6])->Some_0,
                hop_limit: input[7],
                src: [input[8], input[9], input[10], input[11], input[12], input[13], input[14], input[15], input[16], input[17], input[18], input[19], input[20], input[21], input[22], input[23]],
                dst: [input[24], input[25], input[26], input[27], input[28], input[29], input[30], input[31], input[32], input[33], input[34], input[35], input[36], input[37], input[38], input[39]],
            }),
        )
    }
}

/// What the TCP parser gives on `input` after the layers `prior`: it applies only where
/// the last layer is an IP header that carries TCP.
pub open spec fn spec_tcp(input: Seq<u8>, prior: Seq<Layer>) -> ParseOutcome<Layer> {
    if carried_protocol(prior) != Some(IpProtocol::Tcp) {
        ParseOutcome::Mismatch(0, MismatchKind::Tag)
    } else if input.len() < TCP_HEADER_LEN {
        ParseOutcome::Incomplete(Needed::Size(TCP_HEADER_LEN))
    } else if ((input[12] >> 4u8) as usize) * 4 < TCP_HEADER_LEN {
        ParseOutcome::Mismatch(12, MismatchKind::Length)
    } else if input.len() < ((input[12] >> 4u8) as usize) * 4 {
        ParseOutcome::Incomplete(Needed::Size(((input[12] >> 4u8) as usize * 4) as usize))
    } else {
        ParseOutcome::Done(
            ((input[12] >> 4u8) as usize * 4) as usize,
            Layer::Tcp(TcpPacket {
                source_port: be_u16(input[0], input[1]),
                dest_port: be_u16(input[2], input[3]),
                sequence_no: be_u32(input[4], input[5], input[6], input[7]),
                ack_no: be_u32(input[8], input[9], input[10], input[11]),
                header_length: ((input[12] >> 4u8) as u16 * 4) as u8,
                flags: input[13],
                window: be_u16(input[14], input[15]),
                checksum: be_u16(input[16], input[17]),
                urgent_pointer: be_u16(input[18], input[19]),
            }),
        )
    }
}

/// What the UDP parser gives on `input` after the layers `prior`: it applies only where
/// the last layer is an IP header that carries UDP.
pub open spec fn spec_udp(input: Seq<u8>, prior: Seq<Layer>) -> ParseOutcome<Layer> {
    if carried_protocol(prior) != Some(IpProtocol::Udp) {
        ParseOutcome::Mismatch(0, MismatchKind::Tag)
    } else if input.len() < UDP_HEADER_LEN {
        ParseOutcome::Incomplete(Needed::Size(UDP_HEADER_LEN))
    } else {
        ParseOutcome::Done(
            UDP_HEADER_LEN,
            Layer::Udp(UdpPacket {
                source_port: be_u16(input[0], input[1]),
                dest_port: be_u16(input[2], input[3]),
                length: be_u16(input[4], input[5]),
                checksum: be_u16(input[6], input[7]),
            }),
        )
    }
}

/// The TLS content type that a code stands for, if any.
pub open spec fn tls_content_type_of(code: u8) -> Option<TlsRecordContentType> {
    if code == 20 {
        Some(TlsRecordContentType::ChangeCipherSpec)
    } else if code == 21 {
        Some(TlsRecordContentType::Alert)
    } else if code == 22 {
        Some(TlsRecordContentType::Handshake)
    } else if code == 23 {
        Some(TlsRecordContentType::ApplicationData)
    } else {
        None
    }
}

fn tls_content_type(code: u8) -> (r: Option<TlsRecordContentType>)
    ensures
        r == tls_content_type_of(code),
{
    if code == 20 {
        Some(TlsRecordContentType::ChangeCipherSpec)
    } else if code == 21 {
        Some(TlsRecordContentType::Alert)
    } else if code == 22 {
        Some(TlsRecordContentType::Handshake)
    } else if code == 23 {
        Some(TlsRecordContentType::ApplicationData)
    } else {
        None
    }
}

/// What the TLS parser gives on `input`: a record header.
pub open spec fn spec_tls(input: Seq<u8>) -> ParseOutcome<Layer> {
    if input.len() == 0 {
        ParseOutcome::Incomplete(Needed::Size(TLS_HEADER_LEN))
    } else if tls_content_type_of(input[0]) is None {
        ParseOutcome::Mismatch(0, MismatchKind::MapOpt)
    } else if input.len() < 3 {
        ParseOutcome::Incomplete(Needed::Size(TLS_HEADER_LEN))
    } else if input[1] != 3 || input[2] > 4 {
        ParseOutcome::Mismatch(1, MismatchKind::TagBits)
    } else if input.len() < TLS_HEADER_LEN {
        ParseOutcome::Incomplete(Needed::Size(TLS_HEADER_LEN))
    } else {
        ParseOutcome::Done(
            TLS_HEADER_LEN,
            Layer::Tls(TlsPacket {
                content_type: tls_content_type_of(input[0])->Some_0,
                version_major: 3,
                version_minor: input[2],
                length: be_u16(input[3], input[4]),
            }),
        )
    }
}

/// The kind of HTTP message that `input` starts, if any: a request method followed by
/// a space, or `HTTP/`.
pub open spec fn http_kind_of(input: Seq<u8>) -> Option<HttpPacket> {
    if input.len() >= 4 && input[0] == 0x47 && input[1] == 0x45 && input[2] == 0x54 && input[3] == 0x20 {
        Some(HttpPacket::Get)
    } else if input.len() >= 4 && input[0] == 0x50 && input[1] == 0x55 && input[2] == 0x54 && input[3] == 0x20 {
        Some(HttpPacket::Put)
    } else if input.len() >= 5 && input[0] == 0x50 && input[1] == 0x4f && input[2] == 0x53 && input[3] == 0x54
        && input[4] == 0x20 {
        Some(HttpPacket::Post)
    } else if input.len() >= 5 && input[0] == 0x48 && input[1] == 0x45 && input[2] == 0x41 && input[3] == 0x44
        && input[4] == 0x20 {
        Some(HttpPacket::Head)
    } else if input.len() >= 7 && input[0] == 0x44 && input[1] == 0x45 && input[2] == 0x4c && input[3] == 0x45
        && input[4] == 0x54 && input[5] == 0x45 && input[6] == 0x20 {
        Some(HttpPacket::Delete)
    } else if input.len() >= 5 && input[0] == 0x48 && input[1] == 0x54 && input[2] == 0x54 && input[3] == 0x50
        && input[4] == 0x2f {
        Some(HttpPacket::Response)
    } else {
        None
    }
}

fn http_kind(input: &[u8]) -> (r: Option<HttpPacket>)
    ensures
        r == http_kind_of(input@),
{
    if input.len() >= 4 && input[0] == 0x47 && input[1] == 0x45 && input[2] == 0x54 && input[3] == 0x20 {
        Some(HttpPacket::Get)
    } else if input.len() >= 4 && input[0] == 0x50 && input[1] == 0x55 && input[2] == 0x54 && input[3] == 0x20 {
        Some(HttpPacket::Put)
    } else if input.len() >= 5 && input[0] == 0x50 && input[1] == 0x4f && input[2] == 0x53 && input[3] == 0x54
        && input[4] == 0x20 {
        Some(HttpPacket::Post)
    } else if input.len() >= 5 && input[0] == 0x48 && input[1] == 0x45 && input[2] == 0x41 && input[3] == 0x44
        && input[4] == 0x20 {
        Some(HttpPacket::Head)
    } else if input.len() >= 7 && input[0] == 0x44 && input[1] == 0x45 && input[2] == 0x4c && input[3] == 0x45
        && input[4] == 0x54 && input[5] == 0x45 && input[6] == 0x20 {
        Some(HttpPacket::Delete)
    } else if input.len() >= 5 && input[0] == 0x48 && input[1] == 0x54 && input[2] == 0x54 && input[3] == 0x50
        && input[4] == 0x2f {
        Some(HttpPacket::Response)
    } else {
        None
    }
}

/// What the HTTP parser gives on `input`: the whole message, when it starts like one.
pub open spec fn spec_http(input: Seq<u8>) -> ParseOutcome<Layer> {
    match http_kind_of(input) {
        Some(k) => ParseOutcome::Done(input.len() as usize, Layer::Http(k)),
        None => ParseOutcome::Mismatch(0, MismatchKind::Tag),
    }
}

/// What the NTP parser gives on `input` after the layers `prior`: it applies only after
/// a UDP header with the NTP port.
pub open spec fn spec_ntp(input: Seq<u8>, prior: Seq<Layer>) -> ParseOutcome<Layer> {
    if !after_ntp_port(prior) {
        ParseOutcome::Mismatch(0, MismatchKind::Tag)
    } else if input.len() < NTP_PACKET_LEN {
        ParseOutcome::Incomplete(Needed::Size(NTP_PACKET_LEN))
    } else if (input[0] >> 3u8) & 7u8 < 1 || (input[0] >> 3u8) & 7u8 > 4 {
        ParseOutcome::Mismatch(0, MismatchKind::TagBits)
    } else {
        ParseOutcome::Done(
            NTP_PACKET_LEN,
            Layer::Ntp(NtpPacket {
                leap: input[0] >> 6u8,
                version: (input[0] >> 3u8) & 7u8,
                mode: input[0] & 7u8,
                stratum: input[1],
                poll: input[2],
                precision: input[3],
                root_delay: be_u32(input[4], input[5], input[6], input[7]),
                root_dispersion: be_u32(input[8], input[9], input[10], input[11]),
                ref_id: be_u32(input[12], input[13], input[14], input[15]),
                transmit_seconds: be_u32(input[40], input[41], input[42], input[43]),
                transmit_fraction: be_u32(input[44], input[45], input[46], input[47]),
            }),
        )
    }
}

fn parse_ethernet(input: &[u8]) -> (r: ParseOutcome<Layer>)
    ensures
        r == spec_ethernet(input@),
{
    if input.len() < ETHERNET_HEADER_LEN {
        return ParseOutcome::Incomplete(Needed::Size(ETHERNET_HEADER_LEN));
    }
    match ether_type(read_be_u16(input[12], input[13])) {
        None => ParseOutcome::Mismatch(12, MismatchKind::MapOpt),
        Some(t) => ParseOutcome::Done(
            ETHERNET_HEADER_LEN,
            Layer::Ethernet(EthernetPacket {
                dst: [input[0], input[1], input[2], input[3], input[4], input[5]],
                src: [input[6], input[7], input[8], input[9], input[10], input[11]],
                ethertype: t,
            }),
        ),
    }
}

fn parse_ipv4(input: &[u8]) -> (r: ParseOutcome<Layer>)
    ensures
        r == spec_ipv4(input@),
{
    if input.len() == 0 {
        return ParseOutcome::Incomplete(Needed::Size(IPV4_HEADER_LEN));
    }
    if input[0] >> 4u8 != 4 {
        return ParseOutcome::Mismatch(0, MismatchKind::TagBits);
    }
    if input.len() < 10 {
        return ParseOutcome::Incomplete(Needed::Size(IPV4_HEADER_LEN));
    }
    let protocol = match ip_protocol(input[9]) {
        Some(p) => p,
        None => {
            return ParseOutcome::Mismatch(9, MismatchKind::MapOpt);
        },
    };
    if input.len() < IPV4_HEADER_LEN {
        return ParseOutcome::Incomplete(Needed::Size(IPV4_HEADER_LEN));
    }
    ParseOutcome::Done(
        IPV4_HEADER_LEN,
        Layer::Ipv4(Ipv4Packet {
            version: 4,
            ihl: ((input[0] & 0x0fu8) as u16 * 4) as u8,
            tos: input[1],
            length: read_be_u16(input[2], input[3]),
            id: read_be_u16(input[4], input[5]),
            flags_and_fragment_offset: read_be_u16(input[6], input[7]),
            ttl: input[8],
            protocol,
            checksum: read_be_u16(input[10], input[11]),
            src: [input[12], input[13], input[14], input[15]],
            dst: [input[16], input[17], input[18], input[19]],
        }),
    )
}

fn parse_ipv6(input: &[u8]) -> (r: ParseOutcome<Layer>)
    ensures
        r == spec_ipv6(input@),
{
    if input.len() == 0 {
        return ParseOutcome::Incomplete(Needed::Size(IPV6_HEADER_LEN));
    }
    if input[0] >> 4u8 != 6 {
        return ParseOutcome::Mismatch(0, MismatchKind::TagBits);
    }
    if input.len() < 7 {
        return ParseOutcome::Incomplete(Needed::Size(IPV6_HEADER_LEN));
    }
    let next_header = match ip_protocol(input[6]) {
        Some(p) => p,
        None => {
            return ParseOutcome::Mismatch(6, MismatchKind::MapOpt);
        },
    };
    if input.len() < IPV6_HEADER_LEN {
        return ParseOutcome::Incomplete(Needed::Size(IPV6_HEADER_LEN));
    }
    ParseOutcome::Done(
        IPV6_HEADER_LEN,
        Layer::Ipv6(Ipv6Packet {
            version: 6,
            traffic_class: ((input[0] & 0x0fu8) << 4u8) | (input[1] >> 4u8),
            flow_label: read_be_u32(0, input[1] & 0x0fu8, input[2], input[3]),
            payload_length: read_be_u16(input[4], input[5]),
            next_header,
            hop_limit: input[7],
            src: [input[8], input[9], input[10], input[11], input[12], input[13], input[14], input[15], input[16], input[17], input[18], input[19], input[20], input[21], input[22], input[23]],
            dst: [input[24], input[25], input[26], input[27], input[28], input[29], input[30], input[31], input[32], input[33], input[34], input[35], input[36], input[37], input[38], input[39]],
        }),
    )
}

fn parse_tcp(input: &[u8], prior: &Vec<Layer>) -> (r: ParseOutcome<Layer>)
    ensures
        r == spec_tcp(input@, prior@),
{
    match last_protocol(prior) {
        Some(IpProtocol::Tcp) => {},
        _ => {
            return ParseOutcome::Mismatch(0, MismatchKind::Tag);
        },
    }
    if input.len() < TCP_HEADER_LEN {
        return ParseOutcome::Incomplete(Needed::Size(TCP_HEADER_LEN));
    }
    let header_length: usize = ((input[12] >> 4u8) as usize) * 4;
    if header_length < TCP_HEADER_LEN {
        return ParseOutcome::Mismatch(12, MismatchKind::Length);
    }
    if input.len() < header_length {
        return ParseOutcome::Incomplete(Needed::Size(header_length));
    }
    ParseOutcome::Done(
        header_length,
        Layer::Tcp(TcpPacket {
            source_port: read_be_u16(input[0], input[1]),
            dest_port: read_be_u16(input[2], input[3]),
            sequence_no: read_be_u32(input[4], input[5], input[6], input[7]),
            ack_no: read_be_u32(input[8], input[9], input[10], input[11]),
            header_length: header_length as u8,
            flags: input[13],
            window: read_be_u16(input[14], input[15]),
            checksum: read_be_u16(input[16], input[17]),
            urgent_pointer: read_be_u16(input[18], input[19]),
        }),
    )
}

fn parse_udp(input: &[u8], prior: &Vec<Layer>) -> (r: ParseOutcome<Layer>)
    ensures
        r == spec_udp(input@, prior@),
{
    match last_protocol(prior) {
        Some(IpProtocol::Udp) => {},
        _ => {
            return ParseOutcome::Mismatch(0, MismatchKind::Tag);
        },
    }
    if input.len() < UDP_HEADER_LEN {
        return ParseOutcome::Incomplete(Needed::Size(UDP_HEADER_LEN));
    }
    ParseOutcome::Done(
        UDP_HEADER_LEN,
        Layer::Udp(UdpPacket {
            source_port: read_be_u16(input[0], input[1]),
            dest_port: read_be_u16(input[2], input[3]),
            length: read_be_u16(input[4], input[5]),
            checksum: read_be_u16(input[6], input[7]),
        }),
    )
}

fn parse_tls(input: &[u8]) -> (r: ParseOutcome<Layer>)
    ensures
        r == spec_tls(input@),
{
    if input.len() == 0 {
        return ParseOutcome::Incomplete(Needed::Size(TLS_HEADER_LEN));
    }
    let content_type = match tls_content_type(input[0]) {
        Some(t) => t,
        None => {
            return ParseOutcome::Mismatch(0, MismatchKind::MapOpt);
        },
    };
    if input.len() < 3 {
        return ParseOutcome::Incomplete(Needed::Size(TLS_HEADER_LEN));
    }
    if input[1] != 3 || input[2] > 4 {
        return ParseOutcome::Mismatch(1, MismatchKind::TagBits);
    }
    if input.len() < TLS_HEADER_LEN {
        return ParseOutcome::Incomplete(Needed::Size(TLS_HEADER_LEN));
    }
    ParseOutcome::Done(
        TLS_HEADER_LEN,
        Layer::Tls(TlsPacket {
            content_type,
            version_major: 3,
            version_minor: input[2],
            length: read_be_u16(input[3], input[4]),
        }),
    )
}

fn parse_http(input: &[u8]) -> (r: ParseOutcome<Layer>)
    ensures
        r == spec_http(input@),
{
    match http_kind(input) {
        Some(k) => ParseOutcome::Done(input.len(), Layer::Http(k)),
        None => ParseOutcome::Mismatch(0, MismatchKind::Tag),
    }
}

fn parse_ntp(input: &[u8], prior: &Vec<Layer>) -> (r: ParseOutcome<Layer>)
    ensures
        r == spec_ntp(input@, prior@),
{
    if !last_is_ntp_port(prior) {
        return ParseOutcome::Mismatch(0, MismatchKind::Tag);
    }
    if input.len() < NTP_PACKET_LEN {
        return ParseOutcome::Incomplete(Needed::Size(NTP_PACKET_LEN));
    }
    let version = (input[0] >> 3u8) & 7u8;
    if version < 1 || version > 4 {
        return ParseOutcome::Mismatch(0, MismatchKind::TagBits);
    }
    ParseOutcome::Done(
        NTP_PACKET_LEN,
        Layer::Ntp(NtpPacket {
            leap: input[0] >> 6u8,
            version,
            mode: input[0] & 7u8,
            stratum: input[1],
            poll: input[2],
            precision: input[3],
            root_delay: read_be_u32(input[4], input[5], input[6], input[7]),
            root_dispersion: read_be_u32(input[8], input[9], input[10], input[11]),
            ref_id: read_be_u32(input[12], input[13], input[14], input[15]),
            transmit_seconds: read_be_u32(input[40], input[41], input[42], input[43]),
            transmit_fraction: read_be_u32(input[44], input[45], input[46], input[47]),
        }),
    )
}

impl Parsable<Layer, ParserVariant, ()> for ParserVariant {
    open spec fn spec_variant(&self) -> ParserVariant {
        *self
    }

    open spec fn spec_parse(&self, input: Seq<u8>, prior: Seq<Layer>, state: ()) -> (ParseOutcome<Layer>, ()) {
        match self {
            ParserVariant::Ethernet => (spec_ethernet(input), state),
            ParserVariant::Ipv4 => (spec_ipv4(input), state),
            ParserVariant::Ipv6 => (spec_ipv6(input), state),
            ParserVariant::Tcp => (spec_tcp(input, prior), state),
            ParserVariant::Tls => (spec_tls(input), state),
            ParserVariant::Http => (spec_http(input), state),
            ParserVariant::Udp => (spec_udp(input, prior), state),
            ParserVariant::Ntp => (spec_ntp(input, prior), state),
        }
    }

    proof fn lemma_parse_fits(&self, input: Seq<u8>, prior: Seq<Layer>, state: ()) {
    }

    fn variant(&self) -> (v: ParserVariant) {
        *self
    }

    fn parse(&self, input: &[u8], prior: &Vec<Layer>, state: &mut ()) -> (r: ParseOutcome<Layer>) {
        match self {
            ParserVariant::Ethernet => parse_ethernet(input),
            ParserVariant::Ipv4 => parse_ipv4(input),
            ParserVariant::Ipv6 => parse_ipv6(input),
            ParserVariant::Tcp => parse_tcp(input, prior),
            ParserVariant::Tls => parse_tls(input),
            ParserVariant::Http => parse_http(input),
            ParserVariant::Udp => parse_udp(input, prior),
            ParserVariant::Ntp => parse_ntp(input, prior),
        }
    }
}

/// The parsers of the default packet graph, by handle.
pub open spec fn default_nodes() -> Seq<ParserVariant> {
    seq![
        ParserVariant::Ethernet,
        ParserVariant::Ipv4,
        ParserVariant::Ipv6,
        ParserVariant::Tcp,
        ParserVariant::Tcp,
        ParserVariant::Udp,
        ParserVariant::Udp,
        ParserVariant::Tls,
        ParserVariant::Tls,
        ParserVariant::Http,
        ParserVariant::Http,
        ParserVariant::Http,
        ParserVariant::Http,
        ParserVariant::Ntp,
        ParserVariant::Ntp,
    ]
}

/// The children of each node of the default packet graph: IPv4 and IPv6 over Ethernet,
/// TCP and UDP over each, TLS before HTTP over TCP, HTTP over TLS, NTP over UDP.
pub open spec fn default_children() -> Seq<Seq<usize>> {
    seq![
        seq![1usize, 2],
        seq![3usize, 5],
        seq![4usize, 6],
        seq![7usize, 9],
        seq![8usize, 10],
        seq![13usize],
        seq![14usize],
        seq![11usize],
        seq![12usize],
        Seq::empty(),
        Seq::empty(),
        Seq::empty(),
        Seq::empty(),
        Seq::empty(),
        Seq::empty(),
    ]
}

/// Returns the default packet graph for all available parser variants.
pub fn default_peel() -> (r: Peel<ParserVariant>)
    ensures
        r.wf(),
        r@.nodes == default_nodes(),
        r@.children == default_children(),
        r@.max_depth == crate::graph::DEFAULT_MAX_DEPTH,
{
    let mut p = Peel::new();

    // Ethernet
    let eth = p.new_parser(ParserVariant::Ethernet);

    // IPv4/6
    let ipv4 = p.link_new_parser(eth, ParserVariant::Ipv4).unwrap();
    let ipv6 = p.link_new_parser(eth, ParserVariant::Ipv6).unwrap();

    // TCP
    let tcp_ipv4 = p.link_new_parser(ipv4, ParserVariant::Tcp).unwrap();
    let tcp_ipv6 = p.link_new_parser(ipv6, ParserVariant::Tcp).unwrap();

    // UDP
    let udp_ipv4 = p.link_new_parser(ipv4, ParserVariant::Udp).unwrap();
    let udp_ipv6 = p.link_new_parser(ipv6, ParserVariant::Udp).unwrap();

    // TLS
    let tls_ipv4 = p.link_new_parser(tcp_ipv4, ParserVariant::Tls).unwrap();
    let tls_ipv6 = p.link_new_parser(tcp_ipv6, ParserVariant::Tls).unwrap();

    // HTTP
    let _ = p.link_new_parser(tcp_ipv4, ParserVariant::Http).unwrap();
    let _ = p.link_new_parser(tcp_ipv6, ParserVariant::Http).unwrap();
    let _ = p.link_new_parser(tls_ipv4, ParserVariant::Http).unwrap();
    let _ = p.link_new_parser(tls_ipv6, ParserVariant::Http).unwrap();

    // NTP
    let _ = p.link_new_parser(udp_ipv4, ParserVariant::Ntp).unwrap();
    let _ = p.link_new_parser(udp_ipv6, ParserVariant::Ntp).unwrap();

    proof {
        assert(p@.nodes =~= default_nodes());
        assert(p@.children[0] =~= seq![1usize, 2]);
        assert(p@.children[1] =~= seq![3usize, 5]);
        assert(p@.children[2] =~= seq![4usize, 6]);
        assert(p@.children[3] =~= seq![7usize, 9]);
        assert(p@.children[4] =~= seq![8usize, 10]);
        assert(p@.children[5] =~= seq![13usize]);
        assert(p@.children[6] =~= seq![14usize]);
        assert(p@.children[7] =~= seq![11usize]);
        assert(p@.children[8] =~= seq![12usize]);
        assert(p@.children[9] =~= Seq::<usize>::empty());
        assert(p@.children[10] =~= Seq::<usize>::empty());
        assert(p@.children[11] =~= Seq::<usize>::empty());
        assert(p@.children[12] =~= Seq::<usize>::empty());
        assert(p@.children[13] =~= Seq::<usize>::empty());
        assert(p@.children[14] =~= Seq::<usize>::empty());
        assert(p@.children =~= default_children());
    }
    p
}

} // verus!
