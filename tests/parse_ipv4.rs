use peel::packet::{IpProtocol, Ipv4Packet, Layer, ParserVariant};
use peel::parser::{MismatchKind, Needed, ParseOutcome, Parsable};

const IPV4_HEADER: &[u8] = &[0x45, 0x00, 0x01, 0xa5, 0xd6, 0x63, 0x40, 0x00, 0x3f, 0x06, 0x9b, 0xfc, 0xc0,
                             0xa8, 0x01, 0x0a, 0xad, 0xfc, 0x58, 0x44];

fn parse(input: &[u8]) -> ParseOutcome<Layer> {
    ParserVariant::Ipv4.parse(input, &Vec::new(), &mut ())
}

#[test]
fn ipv4_parser_variant() {
    let parser = ParserVariant::Ipv4;
    println!("{:?}", parser.variant());
    assert_eq!(parser.variant(), ParserVariant::Ipv4);
    assert_eq!(parser.name(), "IPv4");
}

#[test]
fn parse_ipv4_success() {
    let res = parse(IPV4_HEADER);
    match res {
        ParseOutcome::Done(consumed, Layer::Ipv4(ipv4)) => {
            assert_eq!(consumed, 20);
            assert_eq!(Ipv4Packet {
                           version: 4,
                           ihl: 20,
                           tos: 0,
                           length: 421,
                           id: 54883,
                           flags_and_fragment_offset: 16384,
                           ttl: 63,
                           protocol: IpProtocol::Tcp,
                           checksum: 39932,
                           src: [192, 168, 1, 10],
                           dst: [173, 252, 88, 68],
                       },
                       ipv4)
        }
        other => panic!("unexpected outcome {:?}", other),
    }
}

#[test]
fn parse_ipv4_success_ipprotocols() {
    // TCP
    let mut input = Vec::from(IPV4_HEADER);
    assert!(matches!(parse(&input), ParseOutcome::Done(20, Layer::Ipv4(p)) if p.protocol == IpProtocol::Tcp));

    // UDP
    input[9] = 17;
    assert!(matches!(parse(&input), ParseOutcome::Done(20, Layer::Ipv4(p)) if p.protocol == IpProtocol::Udp));
}

#[test]
fn parse_ipv4_failure_wrong_version() {
    let mut input = Vec::from(IPV4_HEADER);
    input[0] = 0x55;
    assert_eq!(parse(&input), ParseOutcome::Mismatch(0, MismatchKind::TagBits));
}

#[test]
fn parse_ipv4_failure_wrong_ipprotocol() {
    let mut input = Vec::from(IPV4_HEADER);
    input[9] = 0xff;
    assert_eq!(parse(&input), ParseOutcome::Mismatch(9, MismatchKind::MapOpt));
}

#[test]
fn parse_ipv4_failure_too_small() {
    let mut input = Vec::from(IPV4_HEADER);
    input.pop();
    assert_eq!(parse(&input), ParseOutcome::Incomplete(Needed::Size(20)));
}

#[test]
fn parse_ipv4_empty_input() {
    assert_eq!(parse(&[]), ParseOutcome::Incomplete(Needed::Size(20)));
}

#[test]
fn tcp_needs_an_ip_layer_that_carries_tcp() {
    let tcp = [0u8, 80, 0, 81, 0, 0, 0, 0, 0, 0, 0, 0, 0x50, 0, 0, 0, 0, 0, 0, 0];
    assert_eq!(ParserVariant::Tcp.parse(&tcp, &Vec::new(), &mut ()), ParseOutcome::Mismatch(0, MismatchKind::Tag));
    let ip = match parse(IPV4_HEADER) {
        ParseOutcome::Done(_, layer) => layer,
        other => panic!("unexpected outcome {:?}", other),
    };
    assert!(matches!(ParserVariant::Tcp.parse(&tcp, &vec![ip], &mut ()), ParseOutcome::Done(20, Layer::Tcp(_))));
    assert_eq!(ParserVariant::Udp.parse(&tcp, &vec![ip], &mut ()), ParseOutcome::Mismatch(0, MismatchKind::Tag));
    let mut short = tcp;
    short[12] = 0x40;
    assert_eq!(ParserVariant::Tcp.parse(&short, &vec![ip], &mut ()), ParseOutcome::Mismatch(12, MismatchKind::Length));
    let mut long = tcp;
    long[12] = 0x60;
    assert_eq!(ParserVariant::Tcp.parse(&long, &vec![ip], &mut ()), ParseOutcome::Incomplete(Needed::Size(24)));
}

#[test]
fn http_message_kinds() {
    let http = |b: &[u8]| ParserVariant::Http.parse(b, &Vec::new(), &mut ());
    assert_eq!(http(b"POST /x"), ParseOutcome::Done(7, Layer::Http(peel::packet::HttpPacket::Post)));
    assert_eq!(http(b"HTTP/1.1 200 OK"), ParseOutcome::Done(15, Layer::Http(peel::packet::HttpPacket::Response)));
    assert_eq!(http(b"GETX"), ParseOutcome::Mismatch(0, MismatchKind::Tag));
}
