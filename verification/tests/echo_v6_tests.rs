use pktcore::ethernet::Ethernet;
use pktcore::icmp_v6::{EchoReply, EchoReplyBody, Icmpv6, ICMPV6_ECHO_REPLY};
use pktcore::ipv6::{Ipv6, PROTOCOL_ICMPV6};
use pktcore::mbuf::{BufferError, Mbuf};

/// Independent one's-complement checksum, written from the RFC wording,
/// to hold the library's computation to.
fn reference_checksum(data: &[u8]) -> u16 {
    let mut sum: u32 = 0;
    let mut i = 0;
    while i < data.len() {
        let hi = data[i] as u32;
        let lo = if i + 1 < data.len() { data[i + 1] as u32 } else { 0 };
        sum += (hi << 8) | lo;
        i += 2;
    }
    while sum > 0xffff {
        sum = (sum & 0xffff) + (sum >> 16);
    }
    !(sum as u16)
}

fn packet_bytes(m: &Mbuf) -> Vec<u8> {
    m.read_data_slice(0, m.data_len()).unwrap()
}

#[test]
fn size_of_echo_reply_body() {
    assert_eq!(4, EchoReplyBody::size_of());
}

#[test]
fn push_and_set_echo_reply() {
    let packet = Mbuf::new();
    let ethernet = Ethernet::push(packet).ok().unwrap();
    let ipv6 = Ipv6::push(ethernet).ok().unwrap();
    let icmp = Icmpv6::push(ipv6).ok().unwrap();
    let mut echo = EchoReply::push(icmp).ok().unwrap();

    assert_eq!(4, echo.header_len());
    assert_eq!(EchoReplyBody::size_of(), echo.payload_len());
    assert_eq!(ICMPV6_ECHO_REPLY, echo.msg_type());
    assert_eq!(0, echo.code());

    echo.set_identifier(42);
    assert_eq!(42, echo.identifier());
    echo.set_seq_no(7);
    assert_eq!(7, echo.seq_no());

    let data = [0; 10];
    assert!(echo.set_data(&data).is_ok());
    assert_eq!(data.to_vec(), echo.data());
    assert_eq!(EchoReplyBody::size_of() + 10, echo.payload_len());

    echo.reconcile_all();
    assert!(echo.checksum() != 0);
}

#[test]
fn checksum_matches_rfc_pseudo_header_sum() {
    let packet = Mbuf::new();
    let ethernet = Ethernet::push(packet).ok().unwrap();
    let mut ipv6 = Ipv6::push(ethernet).ok().unwrap();
    let src = [0x20, 0x01, 0x0d, 0xb8, 0, 0, 0, 0, 0, 0, 0, 0, 0, 0, 0, 1];
    let dst = [0x20, 0x01, 0x0d, 0xb8, 0, 0, 0, 0, 0, 0, 0, 0, 0, 0, 0, 2];
    ipv6.set_src(&src);
    ipv6.set_dst(&dst);
    let icmp = Icmpv6::push(ipv6).ok().unwrap();
    let mut echo = EchoReply::push(icmp).ok().unwrap();
    echo.set_identifier(0x1234);
    echo.set_seq_no(0x0001);
    echo.set_data(&[0xde, 0xad, 0xbe, 0xef]).unwrap();
    echo.reconcile_all();

    let stored = echo.checksum();
    let mbuf = echo.reset();
    let bytes = packet_bytes(&mbuf);

    // rebuild the checksum input from the wire bytes per RFC 4443:
    // pseudo-header (src, dst, upper-layer length, zeros, next header),
    // then the ICMPv6 segment with its checksum field read as zero
    let seg_len = bytes.len() - 54;
    let mut input = Vec::new();
    input.extend_from_slice(&bytes[22..54]);
    input.extend_from_slice(&(seg_len as u32).to_be_bytes());
    input.extend_from_slice(&[0, 0, 0, PROTOCOL_ICMPV6]);
    let mut seg = bytes[54..].to_vec();
    seg[2] = 0;
    seg[3] = 0;
    input.extend_from_slice(&seg);

    assert_eq!(reference_checksum(&input), stored);
    assert_ne!(0, stored);
}

#[test]
fn reconcile_all_twice_is_byte_identical() {
    let packet = Mbuf::new();
    let ethernet = Ethernet::push(packet).ok().unwrap();
    let ipv6 = Ipv6::push(ethernet).ok().unwrap();
    let icmp = Icmpv6::push(ipv6).ok().unwrap();
    let mut echo = EchoReply::push(icmp).ok().unwrap();
    echo.set_identifier(99);
    echo.set_seq_no(3);
    echo.set_data(&[5, 6, 7]).unwrap();

    echo.reconcile_all();
    let icmp = echo.into_icmp();
    let once = packet_bytes(&icmp.envelope.envelope.envelope);
    let mut echo = EchoReply::parse(icmp).ok().unwrap();
    echo.reconcile_all();
    let twice = packet_bytes(&echo.reset());

    assert_eq!(once, twice);
}

#[test]
fn parse_roundtrip_and_header_fields() {
    let packet = Mbuf::new();
    let ethernet = Ethernet::push(packet).ok().unwrap();
    let ipv6 = Ipv6::push(ethernet).ok().unwrap();
    let icmp = Icmpv6::push(ipv6).ok().unwrap();
    let mut echo = EchoReply::push(icmp).ok().unwrap();
    echo.set_identifier(21);
    echo.reconcile_all();
    let mbuf = echo.reset();

    // walk the same bytes back down the chain
    let ethernet = Ethernet::parse(mbuf).ok().unwrap();
    assert_eq!(0, ethernet.offset());
    let ipv6 = Ipv6::parse(ethernet).ok().unwrap();
    assert_eq!(14, ipv6.offset());
    assert_eq!(PROTOCOL_ICMPV6, ipv6.next_header());
    assert_eq!(8, ipv6.payload_length());
    let icmp = Icmpv6::parse(ipv6).ok().unwrap();
    assert_eq!(54, icmp.offset());
    assert_eq!(ICMPV6_ECHO_REPLY, icmp.msg_type());
    let echo = EchoReply::parse(icmp).ok().unwrap();
    assert_eq!(21, echo.identifier());
    // offsets increased strictly and the body still fits
    assert!(echo.offset() + echo.header_len() <= 62);
}

#[test]
fn parse_mismatch_hands_the_envelope_back() {
    let packet = Mbuf::new();
    let ethernet = Ethernet::push(packet).ok().unwrap();
    let ipv6 = Ipv6::push(ethernet).ok().unwrap();
    // an ICMPv6 parse on a packet that does not announce it
    let (err, ipv6) = match Icmpv6::parse(ipv6) {
        Ok(_) => panic!("next header was never set"),
        Err(pair) => pair,
    };
    assert_eq!(BufferError::ParseMismatch, err);
    // the envelope came back usable
    assert_eq!(14, ipv6.offset());
    let icmp = Icmpv6::push(ipv6).ok().unwrap();
    // an echo reply parse on a header of some other message type
    let (err, mut icmp) = match EchoReply::parse(icmp) {
        Ok(_) => panic!("message type is still zero"),
        Err(pair) => pair,
    };
    assert_eq!(BufferError::ParseMismatch, err);
    // and on a bare echo reply header without a body
    icmp.set_msg_type(ICMPV6_ECHO_REPLY);
    let (err, icmp) = match EchoReply::parse(icmp) {
        Ok(_) => panic!("no body was pushed"),
        Err(pair) => pair,
    };
    assert_eq!(BufferError::BadOffset(58, 58), err);
    assert_eq!(54, icmp.offset());
}

#[test]
fn push_then_remove_restores_the_envelope() {
    let src = [9u8; 30];
    let mbuf = Mbuf::from_bytes(&src).unwrap();
    let before = packet_bytes(&mbuf);
    let ethernet = Ethernet::push(mbuf).ok().unwrap();
    let after = ethernet.remove();
    assert_eq!(before, packet_bytes(&after));

    // for nested layers the round trip holds once the discriminant in
    // the envelope already announces the layer
    let ethernet = Ethernet::push(after).ok().unwrap();
    let ipv6 = Ipv6::push(ethernet).ok().unwrap();
    let ethernet = ipv6.remove();
    let frame_bytes = packet_bytes(&ethernet.envelope);
    let ipv6 = Ipv6::push(Ethernet::parse(Mbuf::from_bytes(&frame_bytes).unwrap()).ok().unwrap())
        .ok()
        .unwrap();
    let ethernet = ipv6.remove();
    assert_eq!(frame_bytes, packet_bytes(&ethernet.envelope));
}
