use pktcore::checksum::checksum16;
use pktcore::endian::{u16_from_be_pair, u16_to_be_pair};

#[test]
fn checksum_of_known_words() {
    // the worked example from the checksum RFC: the byte stream
    // 00 01 f2 03 f4 f5 f6 f7 sums to dd f2, so its complement is 22 0d
    let data = vec![0x00, 0x01, 0xf2, 0x03, 0xf4, 0xf5, 0xf6, 0xf7];
    assert_eq!(0x220d, checksum16(&data));
}

#[test]
fn checksum_pads_an_odd_trailing_byte() {
    // a lone byte counts as the high half of a zero-padded word
    let data = vec![0x01];
    assert_eq!(!0x0100u16, checksum16(&data));
    let empty: Vec<u8> = Vec::new();
    assert_eq!(0xffff, checksum16(&empty));
}

#[test]
fn checksum_folds_end_around_carries() {
    // 0xffff + 0x0001 wraps to 0x0001 under end-around carry
    let data = vec![0xff, 0xff, 0x00, 0x01];
    assert_eq!(!0x0001u16, checksum16(&data));
}

#[test]
fn network_order_pairs_roundtrip() {
    assert_eq!(0x1234, u16_from_be_pair(0x12, 0x34));
    assert_eq!((0x12, 0x34), u16_to_be_pair(0x1234));
    for v in [0u16, 1, 255, 256, 0x8000, 0xffff] {
        let (hi, lo) = u16_to_be_pair(v);
        assert_eq!(v, u16_from_be_pair(hi, lo));
    }
}
