use pktcore::ethernet::{Ethernet, ETHERTYPE_IPV6};
use pktcore::icmp_v6::{EchoReply, Icmpv6};
use pktcore::ipv6::Ipv6;
use pktcore::mbuf::{BufferError, Mbuf};
use pktcore::postmark::Postmark;

fn packet_bytes(m: &Mbuf) -> Vec<u8> {
    m.read_data_slice(0, m.data_len()).unwrap()
}

#[test]
fn postmark_dispositions() {
    assert!(Postmark::Emit(Mbuf::new()).emits());
    assert!(Postmark::EmitAndDrop(Mbuf::new(), Mbuf::new()).emits());
    assert!(!Postmark::Drop(Mbuf::new()).emits());
    assert!(!Postmark::Abort(BufferError::NotResized).emits());
}

#[test]
fn ethernet_field_accessors() {
    let mut eth = Ethernet::push(Mbuf::new()).ok().unwrap();
    assert_eq!(14, eth.header_len());
    assert_eq!(0, eth.ether_type());
    let dst = [1, 2, 3, 4, 5, 6];
    let src = [7, 8, 9, 10, 11, 12];
    eth.set_dst(&dst);
    eth.set_src(&src);
    eth.set_ether_type(ETHERTYPE_IPV6);
    assert_eq!(dst.to_vec(), eth.dst());
    assert_eq!(src.to_vec(), eth.src());
    assert_eq!(ETHERTYPE_IPV6, eth.ether_type());
    assert_eq!(14, eth.len());
    assert_eq!(0, eth.payload_len());
}

#[test]
fn ipv6_field_accessors_and_reconcile() {
    let eth = Ethernet::push(Mbuf::new()).ok().unwrap();
    let mut ip = Ipv6::push(eth).ok().unwrap();
    assert_eq!(40, ip.header_len());
    assert_eq!(14, ip.offset());
    assert_eq!(54, ip.payload_offset());
    ip.set_hop_limit(64);
    assert_eq!(64, ip.hop_limit());
    let src = [1u8; 16];
    let dst = [2u8; 16];
    ip.set_src(&src);
    ip.set_dst(&dst);
    assert_eq!(src.to_vec(), ip.src());
    assert_eq!(dst.to_vec(), ip.dst());
    assert_eq!(0, ip.payload_length());
    // grow the payload, then reconcile the length field
    ip.envelope.envelope.extend(54, 13).unwrap();
    ip.reconcile();
    assert_eq!(13, ip.payload_length());
    // the frame still announces IPv6
    let eth = ip.deparse();
    assert_eq!(ETHERTYPE_IPV6, eth.ether_type());
}

#[test]
fn set_data_resizes_but_refuses_equal_length() {
    let eth = Ethernet::push(Mbuf::new()).ok().unwrap();
    let ip = Ipv6::push(eth).ok().unwrap();
    let icmp = Icmpv6::push(ip).ok().unwrap();
    let mut echo = EchoReply::push(icmp).ok().unwrap();

    echo.set_data(&[1, 2, 3]).unwrap();
    assert_eq!(vec![1, 2, 3], echo.data());

    // the tail resize goes through the buffer resize, which refuses a
    // zero-length change: same-length data is handed back as an error
    assert_eq!(Err(BufferError::NotResized), echo.set_data(&[4, 5, 6]));
    assert_eq!(vec![1, 2, 3], echo.data());

    // growing and shrinking both work
    echo.set_data(&[9, 9, 9, 9, 9, 9]).unwrap();
    assert_eq!(vec![9, 9, 9, 9, 9, 9], echo.data());
    echo.set_data(&[8]).unwrap();
    assert_eq!(vec![8], echo.data());
    assert_eq!(63, echo.len() + 54);
}

#[test]
fn deparse_and_reset_leave_bytes_alone() {
    let payload = [3u8; 21];
    let mbuf = Mbuf::from_bytes(&payload).unwrap();
    let before = packet_bytes(&mbuf);
    let eth = Ethernet::parse(mbuf).ok().unwrap();
    let mbuf = eth.deparse();
    assert_eq!(before, packet_bytes(&mbuf));
    let eth = Ethernet::parse(mbuf).ok().unwrap();
    assert_eq!(before, packet_bytes(&eth.reset()));
}

#[test]
fn peeked_views_never_touch_the_original() {
    let eth = Ethernet::push(Mbuf::new()).ok().unwrap();
    let ip = Ipv6::push(eth).ok().unwrap();
    let icmp = Icmpv6::push(ip).ok().unwrap();
    let mut echo = EchoReply::push(icmp).ok().unwrap();
    echo.set_identifier(77);
    echo.set_data(&[1, 2]).unwrap();
    let mbuf = echo.reset();
    let before = packet_bytes(&mbuf);

    // peek down the chain, scribble over the observer, drop it
    let eth = Ethernet::peek(&mbuf).unwrap();
    let ip = Ipv6::peek(&eth).unwrap();
    let icmp = Icmpv6::peek(&ip).unwrap();
    let mut peeked = EchoReply::peek(&icmp).unwrap();
    assert_eq!(77, peeked.identifier());
    peeked.set_identifier(0xffff);
    peeked.set_data(&[0; 30]).unwrap();
    drop(peeked);

    // the original packet is byte-identical
    assert_eq!(before, packet_bytes(&mbuf));

    // a peek at a packet that does not parse reports the error and
    // consumes nothing
    let empty = Mbuf::new();
    assert_eq!(Err(BufferError::BadOffset(0, 0)), Ethernet::peek(&empty).map(|_| ()));
    assert_eq!(0, empty.data_len());
}

#[test]
fn push_fails_when_tailroom_is_exhausted() {
    let big = vec![0u8; 2040];
    let mbuf = Mbuf::from_bytes(&big).unwrap();
    let (err, mbuf) = match Ethernet::push(mbuf) {
        Ok(_) => panic!("tailroom cannot hold another header"),
        Err(pair) => pair,
    };
    assert_eq!(BufferError::NotResized, err);
    assert_eq!(2040, mbuf.data_len());
}
