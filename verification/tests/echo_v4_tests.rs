use pktcore::ethernet::Ethernet;
use pktcore::icmp_v4::{EchoReply, Icmpv4, ICMPV4_ECHO_REPLY};
use pktcore::ipv4::{Ipv4, PROTOCOL_ICMPV4};
use pktcore::mbuf::{BufferError, Mbuf};

/// Independent one's-complement checksum, written from the RFC wording,
/// to hold the library's computation to.
fn reference_checksum(data: &[u8]) -> u16 {
    let mut sum: u32 = 0;
    let mut i = 0;
    while i < data.len() {
        let hi = data[i] as u32;
        let lo = if i + 1 < data.len() { data[i + 1] as u32 } else { 0 };
        sum += (hi << 8) | lo;
        i += 2;
    }
    while sum > 0xffff {
        sum = (sum & 0xffff) + (sum >> 16);
    }
    !(sum as u16)
}

fn packet_bytes(m: &Mbuf) -> Vec<u8> {
    m.read_data_slice(0, m.data_len()).unwrap()
}

#[test]
fn size_of_echo_reply() {
    assert_eq!(4, EchoReply::size_of());
}

#[test]
fn push_and_set_echo_reply_v4() {
    let packet = Mbuf::new();
    let ethernet = Ethernet::push(packet).ok().unwrap();
    let ipv4 = Ipv4::push(ethernet).ok().unwrap();
    let mut echo = Icmpv4::push(ipv4).ok().unwrap();

    assert_eq!(4, echo.header_len());
    assert_eq!(EchoReply::size_of(), echo.payload_len());
    assert_eq!(ICMPV4_ECHO_REPLY, echo.msg_type());
    assert_eq!(0, echo.code());

    echo.set_identifier(42);
    assert_eq!(42, echo.identifier());
    echo.set_seq_no(7);
    assert_eq!(7, echo.seq_no());

    let data = [0; 10];
    assert!(echo.set_data(&data).is_ok());
    assert_eq!(data.to_vec(), echo.data());
    assert_eq!(EchoReply::size_of() + 10, echo.payload_len());

    echo.cascade();
    assert!(echo.checksum() != 0);
}

/// An echo responder: given the fields of a received echo request, build
/// the reply with MACs and addresses swapped, TTL 255, the identifier,
/// sequence number and data copied over, and reconcile everything. The
/// resulting on-wire bytes must match a reference layout computed here
/// field by field, checksums included.
#[test]
fn echo_responder_builds_reference_bytes() {
    // fields of the received request
    let req_src_mac = [0x02, 0x00, 0x00, 0x00, 0x00, 0x01];
    let req_dst_mac = [0x02, 0x00, 0x00, 0x00, 0x00, 0x02];
    let req_src_ip = [10, 0, 0, 1];
    let req_dst_ip = [10, 0, 0, 2];
    let identifier: u16 = 0x4d2;
    let seq_no: u16 = 17;
    let data = [0x61, 0x62, 0x63, 0x64, 0x65];

    // build the reply
    let packet = Mbuf::new();
    let mut ethernet = Ethernet::push(packet).ok().unwrap();
    ethernet.set_dst(&req_src_mac);
    ethernet.set_src(&req_dst_mac);
    let mut ipv4 = Ipv4::push(ethernet).ok().unwrap();
    ipv4.set_src(&req_dst_ip);
    ipv4.set_dst(&req_src_ip);
    ipv4.set_ttl(255);
    let mut echo = Icmpv4::push(ipv4).ok().unwrap();
    echo.set_identifier(identifier);
    echo.set_seq_no(seq_no);
    echo.set_data(&data).unwrap();
    echo.cascade();
    let wire = packet_bytes(&echo.reset());

    // the reference layout, field by field
    let total_len = (20 + 8 + data.len()) as u16;
    let mut ip_header = vec![0x45, 0x00];
    ip_header.extend_from_slice(&total_len.to_be_bytes());
    ip_header.extend_from_slice(&[0, 0, 0, 0]); // identification, flags
    ip_header.extend_from_slice(&[255, PROTOCOL_ICMPV4, 0, 0]); // ttl, proto, checksum slot
    ip_header.extend_from_slice(&req_dst_ip);
    ip_header.extend_from_slice(&req_src_ip);
    let ip_ck = reference_checksum(&ip_header);
    ip_header[10..12].copy_from_slice(&ip_ck.to_be_bytes());

    let mut icmp = vec![ICMPV4_ECHO_REPLY, 0, 0, 0];
    icmp.extend_from_slice(&identifier.to_be_bytes());
    icmp.extend_from_slice(&seq_no.to_be_bytes());
    icmp.extend_from_slice(&data);
    let icmp_ck = reference_checksum(&icmp);
    icmp[2..4].copy_from_slice(&icmp_ck.to_be_bytes());

    let mut expected = Vec::new();
    expected.extend_from_slice(&req_src_mac);
    expected.extend_from_slice(&req_dst_mac);
    expected.extend_from_slice(&[0x08, 0x00]);
    expected.extend_from_slice(&ip_header);
    expected.extend_from_slice(&icmp);

    assert_eq!(expected, wire);
}

#[test]
fn cascade_twice_is_byte_identical() {
    let packet = Mbuf::new();
    let ethernet = Ethernet::push(packet).ok().unwrap();
    let ipv4 = Ipv4::push(ethernet).ok().unwrap();
    let mut echo = Icmpv4::push(ipv4).ok().unwrap();
    echo.set_identifier(5);
    echo.set_data(&[1, 2, 3, 4, 5, 6, 7]).unwrap();

    echo.cascade();
    let once = packet_bytes(&echo.envelope.envelope.envelope);
    echo.cascade();
    let twice = packet_bytes(&echo.reset());

    assert_eq!(once, twice);
}

#[test]
fn parse_checks_every_discriminant() {
    // a frame announcing IPv4 but carrying too few bytes for a header
    let mut frame = vec![0u8; 14];
    frame[12] = 0x08;
    let eth = Ethernet::parse(Mbuf::from_bytes(&frame).unwrap()).ok().unwrap();
    let (err, eth) = match Ipv4::parse(eth) {
        Ok(_) => panic!("no room for a header"),
        Err(pair) => pair,
    };
    assert_eq!(BufferError::BadOffset(14, 14), err);

    // a frame announcing something else entirely
    let mut eth = eth;
    eth.set_ether_type(0x86DD);
    let (err, mut eth) = match Ipv4::parse(eth) {
        Ok(_) => panic!("ethertype names IPv6"),
        Err(pair) => pair,
    };
    assert_eq!(BufferError::ParseMismatch, err);

    // a real reply parses back down the whole chain
    eth.set_ether_type(0x0800);
    drop(eth.reset());
    let ethernet = Ethernet::push(Mbuf::new()).ok().unwrap();
    let ipv4 = Ipv4::push(ethernet).ok().unwrap();
    let mut echo = Icmpv4::push(ipv4).ok().unwrap();
    echo.set_seq_no(40);
    echo.cascade();
    let mbuf = echo.reset();
    let ethernet = Ethernet::parse(mbuf).ok().unwrap();
    let ipv4 = Ipv4::parse(ethernet).ok().unwrap();
    assert_eq!(PROTOCOL_ICMPV4, ipv4.protocol());
    assert_eq!(28, ipv4.total_length());
    let echo = Icmpv4::parse(ipv4).ok().unwrap();
    assert_eq!(40, echo.seq_no());

    // an ICMPv4 segment whose type is not an echo reply
    let ipv4 = echo.deparse();
    let mut raw = packet_bytes(&ipv4.envelope.envelope);
    raw[34] = 8; // an echo request instead
    let eth = Ethernet::parse(Mbuf::from_bytes(&raw).unwrap()).ok().unwrap();
    let ipv4 = Ipv4::parse(eth).ok().unwrap();
    let (err, _) = match Icmpv4::parse(ipv4) {
        Ok(_) => panic!("message type is a request"),
        Err(pair) => pair,
    };
    assert_eq!(BufferError::ParseMismatch, err);
}

#[test]
fn remove_drops_the_common_header_only() {
    let packet = Mbuf::new();
    let ethernet = Ethernet::push(packet).ok().unwrap();
    let ipv4 = Ipv4::push(ethernet).ok().unwrap();
    let mut echo = Icmpv4::push(ipv4).ok().unwrap();
    echo.set_identifier(3);
    let before = packet_bytes(&echo.envelope.envelope.envelope);
    let ipv4 = echo.remove();
    let after = packet_bytes(&ipv4.envelope.envelope);
    assert_eq!(before.len() - 4, after.len());
    assert_eq!(before[..34], after[..34]);
    assert_eq!(before[38..], after[34..]);
}
