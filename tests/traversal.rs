use peel::error::{bail, ErrorType};
use peel::example::{ExampleParser, ExampleResult, Parser1, Parser1Result};
use peel::graph::Peel;
use peel::packet::{default_peel, EtherType, HttpPacket, IpProtocol, Layer, ParserVariant, TlsRecordContentType};
use peel::parser::Needed;
use peel::traverse::Status;

const IPV4_HEADER: &[u8] = &[0x45, 0x00, 0x01, 0xa5, 0xd6, 0x63, 0x40, 0x00, 0x3f, 0x06, 0x9b, 0xfc, 0xc0,
                             0xa8, 0x01, 0x0a, 0xad, 0xfc, 0x58, 0x44];

fn frame(payload: &[u8]) -> Vec<u8> {
    let mut v = vec![0x00, 0x11, 0x22, 0x33, 0x44, 0x55, 0x66, 0x77, 0x88, 0x99, 0xaa, 0xbb, 0x08, 0x00];
    v.extend_from_slice(payload);
    v
}

fn code_of(status: &Status) -> Option<ErrorType> {
    match status {
        Status::Aborted(e) => Some(e.code),
        _ => None,
    }
}

/// A chain of parsers for "1", "2", "3", "4", "5".
fn digit_chain() -> Peel<ExampleParser> {
    let mut p = Peel::new();
    let mut last = p.new_parser(ExampleParser::One(Parser1));
    for d in b"2345" {
        last = p.link_new_parser(last, ExampleParser::Byte(*d)).unwrap();
    }
    p
}

#[test]
fn single_parser_match() {
    let mut p = Peel::new();
    p.new_parser(ExampleParser::Byte(b'5'));
    let mut count = 0u64;
    let input = b"5";
    let rep = p.traverse(input, vec![], &mut count);
    assert_eq!(rep.result, vec![ExampleResult::Byte(b'5')]);
    assert_eq!(rep.left_input(input), b"");
    assert_eq!(rep.status, Status::Completed);
    assert_eq!(count, 1);
}

#[test]
fn chained_digit_parsers() {
    let p = digit_chain();
    let mut count = 0u64;
    let input = b"12345";
    let rep = p.traverse(input, vec![], &mut count);
    assert_eq!(rep.result.len(), 5);
    assert_eq!(rep.result[0], ExampleResult::One(Parser1Result));
    assert_eq!(rep.result[4], ExampleResult::Byte(b'5'));
    assert_eq!(rep.left_input(input), b"");
    assert_eq!(rep.consumed, 5);
    assert_eq!(rep.status, Status::Completed);
    assert_eq!(count, 5);
}

#[test]
fn chained_digit_parsers_stop_at_mismatch() {
    let p = digit_chain();
    let mut count = 0u64;
    let input = b"129";
    let rep = p.traverse(input, vec![], &mut count);
    assert_eq!(rep.result.len(), 2);
    assert_eq!(rep.left_input(input), b"9");
    assert_eq!(rep.status, Status::Completed);
    assert_eq!(count, 2);
}

#[test]
fn chained_digit_parsers_incomplete() {
    let p = digit_chain();
    let rep = p.traverse(b"12", vec![], &mut 0u64);
    assert_eq!(rep.result.len(), 2);
    assert_eq!(rep.status, Status::Incomplete(Needed::Size(1)));
}

#[test]
fn root_mismatch_keeps_initial_results() {
    let p = digit_chain();
    let initial = vec![ExampleResult::Empty];
    let rep = p.traverse(b"x", initial.clone(), &mut 0u64);
    assert_eq!(rep.result, initial);
    assert_eq!(rep.consumed, 0);
    assert_eq!(rep.status, Status::Completed);
}

#[test]
fn ipv4_success_after_ethernet() {
    let p = default_peel();
    let input = frame(IPV4_HEADER);
    let rep = p.traverse(&input, vec![], &mut ());
    assert_eq!(rep.result.len(), 2);
    match rep.result[0] {
        Layer::Ethernet(e) => {
            assert_eq!(e.ethertype, EtherType::Ipv4);
            assert_eq!(e.dst, [0x00, 0x11, 0x22, 0x33, 0x44, 0x55]);
            assert_eq!(e.src, [0x66, 0x77, 0x88, 0x99, 0xaa, 0xbb]);
        }
        other => panic!("unexpected layer {:?}", other),
    }
    match rep.result[1] {
        Layer::Ipv4(ip) => {
            assert_eq!(ip.version, 4);
            assert_eq!(ip.ihl, 20);
            assert_eq!(ip.ttl, 63);
            assert_eq!(ip.protocol, IpProtocol::Tcp);
            assert_eq!(ip.src, [192, 168, 1, 10]);
            assert_eq!(ip.dst, [173, 252, 88, 68]);
        }
        other => panic!("unexpected layer {:?}", other),
    }
    assert_eq!(rep.left_input(&input), b"");
    // the TCP child of IPv4 asks for a header that is not there
    assert_eq!(rep.status, Status::Incomplete(Needed::Size(20)));
}

#[test]
fn ipv4_wrong_version_after_ethernet() {
    let p = default_peel();
    let mut header = Vec::from(IPV4_HEADER);
    header[0] = 0x55;
    let input = frame(&header);
    let rep = p.traverse(&input, vec![], &mut ());
    assert_eq!(rep.result.len(), 1);
    assert!(matches!(rep.result[0], Layer::Ethernet(_)));
    assert_eq!(rep.consumed, 14);
    assert_eq!(rep.status, Status::Completed);
}

#[test]
fn ipv4_truncated_after_ethernet() {
    let p = default_peel();
    let input = frame(&IPV4_HEADER[..19]);
    let rep = p.traverse(&input, vec![], &mut ());
    assert_eq!(rep.result.len(), 1);
    assert_eq!(rep.left_input(&input).len(), 19);
    assert_eq!(rep.status, Status::Incomplete(Needed::Size(20)));
}

#[test]
fn ethernet_unknown_type() {
    let p = default_peel();
    let mut input = frame(IPV4_HEADER);
    input[12] = 0x12;
    let rep = p.traverse(&input, vec![], &mut ());
    assert!(rep.result.is_empty());
    assert_eq!(rep.status, Status::Completed);
}

#[test]
fn default_peel_shape() {
    let p = default_peel();
    assert_eq!(p.node_count(), 15);
    assert_eq!(p.children(0), Some(vec![1, 2]));
    assert_eq!(p.children(1), Some(vec![3, 5]));
    assert_eq!(p.children(3), Some(vec![7, 9]));
    assert_eq!(p.children(14), Some(vec![]));
    assert_eq!(p.parser(7), Some(&ParserVariant::Tls));
    assert_eq!(p.parser(0), Some(&ParserVariant::Ethernet));
    assert_eq!(p.first_root(), Some(0));
    assert_eq!(p.max_depth(), 100);
}

#[test]
fn depth_bound_cuts_long_chain() {
    let mut p = Peel::new();
    let root = p.new_parser(ExampleParser::Byte(b'a'));
    let a = p.link_new_parser(root, ExampleParser::Byte(b'a')).unwrap();
    p.link(a, a).unwrap();
    p.set_max_depth(50);
    let input = vec![b'a'; 200];
    let rep = p.traverse(&input, vec![], &mut 0u64);
    assert_eq!(rep.result.len(), 50);
    assert_eq!(rep.consumed, 50);
    assert_eq!(code_of(&rep.status), Some(ErrorType::DepthExceeded));
}

#[test]
fn result_within_depth_bound() {
    let mut p = Peel::new();
    let root = p.new_parser(ExampleParser::Byte(b'a'));
    let a = p.link_new_parser(root, ExampleParser::Byte(b'a')).unwrap();
    p.link(a, a).unwrap();
    p.set_max_depth(7);
    for n in 0..12 {
        let input = vec![b'a'; n];
        let rep = p.traverse(&input, vec![], &mut 0u64);
        assert!(rep.result.len() <= 7);
        assert_eq!(rep.result.len(), n.min(7));
    }
}

#[test]
fn consumed_prefix_and_left_input() {
    let p = digit_chain();
    let input = b"1234zz";
    let rep = p.traverse(input, vec![], &mut 0u64);
    assert_eq!(rep.consumed, 4);
    let mut joined = input[..rep.consumed].to_vec();
    joined.extend_from_slice(rep.left_input(input));
    assert_eq!(joined, input.to_vec());
}

#[test]
fn traversal_is_deterministic() {
    let p = digit_chain();
    let mut s1 = 3u64;
    let mut s2 = 3u64;
    let a = p.traverse(b"1234", vec![], &mut s1);
    let b = p.traverse(b"1234", vec![], &mut s2);
    assert_eq!(a, b);
    assert_eq!(s1, s2);
    assert_eq!(s1, 7);
}

#[test]
fn first_child_takes_precedence() {
    let mut p = Peel::new();
    let root = p.new_parser(ExampleParser::One(Parser1));
    p.link_new_parser(root, ExampleParser::Byte(b'2')).unwrap();
    p.link_new_parser(root, ExampleParser::Empty).unwrap();
    let rep = p.traverse(b"12", vec![], &mut 0u64);
    assert_eq!(rep.result[1], ExampleResult::Byte(b'2'));

    let mut q = Peel::new();
    let root = q.new_parser(ExampleParser::One(Parser1));
    q.link_new_parser(root, ExampleParser::Empty).unwrap();
    q.link_new_parser(root, ExampleParser::Byte(b'2')).unwrap();
    let rep = q.traverse(b"12", vec![], &mut 0u64);
    assert_eq!(rep.result[1], ExampleResult::Empty);
}

#[test]
fn mismatching_siblings_in_any_order() {
    let build = |first: ExampleParser, second: ExampleParser| {
        let mut p = Peel::new();
        let root = p.new_parser(ExampleParser::One(Parser1));
        p.link_new_parser(root, first).unwrap();
        p.link_new_parser(root, second).unwrap();
        p
    };
    let p = build(ExampleParser::Never, ExampleParser::Byte(b'9'));
    let q = build(ExampleParser::Byte(b'9'), ExampleParser::Never);
    let mut s1 = 0u64;
    let mut s2 = 0u64;
    let a = p.traverse(b"12", vec![], &mut s1);
    let b = q.traverse(b"12", vec![], &mut s2);
    assert_eq!(a, b);
    assert_eq!(s1, s2);
    assert_eq!(a.status, Status::Completed);
    assert_eq!(a.result.len(), 1);
}

#[test]
fn node_indices_list_every_handle_once() {
    let mut p = Peel::new();
    let a = p.new_parser(ExampleParser::Empty);
    let b = p.link_new_parser(a, ExampleParser::Never).unwrap();
    let c = p.new_parser(ExampleParser::Byte(b'x'));
    assert_eq!(p.node_indices(), vec![a, b, c]);
    assert_eq!(p.node_indices(), vec![0, 1, 2]);
}

#[test]
fn never_matching_child_changes_nothing() {
    let before = digit_chain();
    let mut after = digit_chain();
    after.link_new_parser(2, ExampleParser::Never).unwrap();
    for input in [&b"12345"[..], b"123", b"13", b""] {
        let mut s1 = 0u64;
        let mut s2 = 0u64;
        assert_eq!(before.traverse(input, vec![], &mut s1), after.traverse(input, vec![], &mut s2));
        assert_eq!(s1, s2);
    }
}

#[test]
fn link_twice_gives_one_edge() {
    let mut p = Peel::new();
    let a = p.new_parser(ExampleParser::One(Parser1));
    let b = p.new_parser(ExampleParser::Byte(b'2'));
    p.link(a, b).unwrap();
    p.link(a, b).unwrap();
    assert_eq!(p.children(a), Some(vec![b]));
}

#[test]
fn link_unknown_node() {
    let mut p = Peel::new();
    let a = p.new_parser(ExampleParser::Empty);
    let err = p.link(a, 7).unwrap_err();
    assert_eq!(err.code, ErrorType::UnknownNode);
    assert_eq!(p.children(a), Some(vec![]));
    let err = p.link_new_parser(3, ExampleParser::Empty).unwrap_err();
    assert_eq!(err.code, ErrorType::UnknownNode);
    assert_eq!(p.node_count(), 1);
    assert_eq!(p.children(9), None);
    assert!(p.parser(9).is_none());
}

#[test]
fn empty_graph_has_no_root() {
    let p: Peel<ExampleParser> = Peel::new();
    let input = b"12345";
    let rep = p.traverse(input, vec![], &mut 0u64);
    assert!(rep.result.is_empty());
    assert_eq!(rep.left_input(input), input);
    assert_eq!(code_of(&rep.status), Some(ErrorType::NoTreeRoot));
}

#[test]
fn cycle_has_no_root() {
    let mut p = Peel::new();
    let a = p.new_parser(ExampleParser::Empty);
    let b = p.link_new_parser(a, ExampleParser::Empty).unwrap();
    p.link(b, a).unwrap();
    assert_eq!(p.first_root(), None);
    let rep = p.traverse(b"", vec![], &mut 0u64);
    assert_eq!(code_of(&rep.status), Some(ErrorType::NoTreeRoot));
}

#[test]
fn zero_length_matches_stop_at_depth_bound() {
    let mut p = Peel::new();
    let root = p.new_parser(ExampleParser::Empty);
    let a = p.link_new_parser(root, ExampleParser::Empty).unwrap();
    p.link(a, a).unwrap();
    p.set_max_depth(10);
    let mut count = 0u64;
    let rep = p.traverse(b"", vec![], &mut count);
    assert_eq!(rep.result, vec![ExampleResult::Empty; 10]);
    assert_eq!(rep.consumed, 0);
    assert_eq!(code_of(&rep.status), Some(ErrorType::DepthExceeded));
    assert_eq!(count, 10);
}

#[test]
fn depth_bound_of_one() {
    let mut p = digit_chain();
    p.set_max_depth(1);
    let rep = p.traverse(b"12345", vec![], &mut 0u64);
    assert_eq!(rep.result, vec![ExampleResult::One(Parser1Result)]);
    assert_eq!(rep.consumed, 1);
    assert_eq!(code_of(&rep.status), Some(ErrorType::DepthExceeded));
}

#[test]
fn fatal_child_aborts() {
    let mut p = Peel::new();
    let root = p.new_parser(ExampleParser::One(Parser1));
    p.link_new_parser(root, ExampleParser::Fail("state corrupted".to_string())).unwrap();
    p.link_new_parser(root, ExampleParser::Byte(b'2')).unwrap();
    let rep = p.traverse(b"12", vec![], &mut 0u64);
    assert_eq!(rep.result.len(), 1);
    match rep.status {
        Status::Aborted(e) => {
            assert_eq!(e.code, ErrorType::Fatal);
            assert_eq!(e.description, "state corrupted");
        }
        other => panic!("unexpected status {:?}", other),
    }
}

#[test]
fn traverse_from_chosen_start() {
    let p = digit_chain();
    let input = b"345";
    let rep = p.traverse_from(2, input, vec![], &mut 0u64);
    assert_eq!(rep.result, vec![ExampleResult::Byte(b'3'), ExampleResult::Byte(b'4'), ExampleResult::Byte(b'5')]);
    assert_eq!(rep.status, Status::Completed);
    let rep = p.traverse_from(17, input, vec![], &mut 0u64);
    assert_eq!(code_of(&rep.status), Some(ErrorType::UnknownNode));
    assert!(rep.result.is_empty());
}

#[test]
fn bail_keeps_code_and_description() {
    let e = bail(ErrorType::Internal, "broken invariant");
    assert_eq!(e.code, ErrorType::Internal);
    assert_eq!(e.description, "broken invariant");
}

const IPV6_HEADER: &[u8] = &[0x60, 0x00, 0x00, 0x00, 0x00, 0x20, 0x11, 0x40,
                             0x20, 0x01, 0x0d, 0xb8, 0, 0, 0, 0, 0, 0, 0, 0, 0, 0, 0, 0x01,
                             0x20, 0x01, 0x0d, 0xb8, 0, 0, 0, 0, 0, 0, 0, 0, 0, 0, 0, 0x02];

const TCP_HEADER: &[u8] = &[0x9c, 0x40, 0x00, 0x50, 0, 0, 0, 1, 0, 0, 0, 0, 0x50, 0x18, 0x01, 0x00, 0, 0, 0, 0];

#[test]
fn ipv6_sibling_taken_when_ipv4_mismatches() {
    let p = default_peel();
    let input = frame(IPV6_HEADER);
    let rep = p.traverse(&input, vec![], &mut ());
    assert_eq!(rep.result.len(), 2);
    match rep.result[1] {
        Layer::Ipv6(ip) => {
            assert_eq!(ip.version, 6);
            assert_eq!(ip.payload_length, 32);
            assert_eq!(ip.next_header, IpProtocol::Udp);
            assert_eq!(ip.hop_limit, 64);
            assert_eq!(ip.src[15], 1);
            assert_eq!(ip.dst[15], 2);
        }
        other => panic!("unexpected layer {:?}", other),
    }
    assert_eq!(rep.status, Status::Incomplete(Needed::Size(8)));
}

#[test]
fn http_over_tcp_over_ipv4() {
    let p = default_peel();
    let mut payload = Vec::from(IPV4_HEADER);
    payload.extend_from_slice(TCP_HEADER);
    payload.extend_from_slice(b"GET / HTTP/1.1\r\n\r\n");
    let input = frame(&payload);
    let rep = p.traverse(&input, vec![], &mut ());
    assert_eq!(rep.result.len(), 4);
    match rep.result[2] {
        Layer::Tcp(t) => {
            assert_eq!(t.source_port, 40000);
            assert_eq!(t.dest_port, 80);
            assert_eq!(t.sequence_no, 1);
            assert_eq!(t.header_length, 20);
            assert_eq!(t.flags, 0x18);
            assert_eq!(t.window, 256);
        }
        other => panic!("unexpected layer {:?}", other),
    }
    assert_eq!(rep.result[3], Layer::Http(HttpPacket::Get));
    assert_eq!(rep.consumed, input.len());
    assert_eq!(rep.status, Status::Completed);
}

#[test]
fn tls_before_http_over_tcp() {
    let p = default_peel();
    let mut payload = Vec::from(IPV4_HEADER);
    payload.extend_from_slice(TCP_HEADER);
    payload.extend_from_slice(&[0x16, 0x03, 0x03, 0x00, 0x10]);
    let input = frame(&payload);
    let rep = p.traverse(&input, vec![], &mut ());
    assert_eq!(rep.result.len(), 4);
    match rep.result[3] {
        Layer::Tls(t) => {
            assert_eq!(t.content_type, TlsRecordContentType::Handshake);
            assert_eq!(t.version_minor, 3);
            assert_eq!(t.length, 16);
        }
        other => panic!("unexpected layer {:?}", other),
    }
    assert_eq!(rep.status, Status::Completed);
}

#[test]
fn ntp_over_udp_over_ipv4() {
    let p = default_peel();
    let mut header = Vec::from(IPV4_HEADER);
    header[9] = 17;
    let mut payload = header;
    payload.extend_from_slice(&[0x30, 0x39, 0x00, 0x7b, 0x00, 0x38, 0x00, 0x00]);
    let mut ntp = vec![0u8; 48];
    ntp[0] = 0x23;
    ntp[1] = 2;
    ntp[43] = 7;
    payload.extend_from_slice(&ntp);
    let input = frame(&payload);
    let rep = p.traverse(&input, vec![], &mut ());
    assert_eq!(rep.result.len(), 4);
    match rep.result[2] {
        Layer::Udp(u) => {
            assert_eq!(u.source_port, 12345);
            assert_eq!(u.dest_port, 123);
            assert_eq!(u.length, 56);
        }
        other => panic!("unexpected layer {:?}", other),
    }
    match rep.result[3] {
        Layer::Ntp(n) => {
            assert_eq!(n.leap, 0);
            assert_eq!(n.version, 4);
            assert_eq!(n.mode, 3);
            assert_eq!(n.stratum, 2);
            assert_eq!(n.transmit_seconds, 7);
        }
        other => panic!("unexpected layer {:?}", other),
    }
    assert_eq!(rep.consumed, input.len());
    assert_eq!(rep.status, Status::Completed);
}

#[test]
fn error_message_text() {
    let e = bail(ErrorType::NoTreeRoot, "the graph has no root");
    assert_eq!(e.message(), "Code: NoTreeRoot, Description: the graph has no root");
    assert_eq!(ErrorType::DepthExceeded.name(), "DepthExceeded");
}

#[test]
fn layer_and_parser_names() {
    assert_eq!(ParserVariant::Ethernet.name(), "Ethernet");
    assert_eq!(ParserVariant::Ntp.name(), "NTP");
    let p = default_peel();
    let rep = p.traverse(&frame(IPV4_HEADER), vec![], &mut ());
    let names: Vec<&str> = rep.result.iter().map(|l| l.name()).collect();
    assert_eq!(names, vec!["Ethernet", "IPv4"]);
}
