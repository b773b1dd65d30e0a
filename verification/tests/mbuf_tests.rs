use pktcore::mbuf::{BufferError, Mbuf, DEFAULT_TAILROOM};

const BUFFER: [u8; 16] = [1, 2, 3, 4, 5, 6, 7, 8, 9, 10, 11, 12, 13, 14, 15, 16];

#[test]
fn new_from_bytes() {
    let mbuf = Mbuf::from_bytes(&BUFFER).unwrap();

    let slice = mbuf.read_data_slice(0, 16).unwrap();
    assert_eq!(BUFFER.to_vec(), slice);
}

#[test]
fn extend_data_buffer_tail() {
    let mut mbuf = Mbuf::new();

    // writes some data to the buffer
    assert!(mbuf.extend(0, 16).is_ok());
    assert_eq!(16, mbuf.data_len());
    assert!(mbuf.write_data_slice(0, &BUFFER).is_ok());

    // extends the tail
    assert!(mbuf.extend(16, 8).is_ok());
    assert_eq!(24, mbuf.data_len());

    // make sure data is untouched
    let slice = mbuf.read_data_slice(0, 24).unwrap();
    assert_eq!(BUFFER[..], slice[..16]);
}

#[test]
fn extend_data_buffer_middle() {
    let mut mbuf = Mbuf::new();

    // write some data to the buffer
    assert!(mbuf.extend(0, 16).is_ok());
    assert!(mbuf.write_data_slice(0, &BUFFER).is_ok());

    // extends the middle
    assert!(mbuf.extend(4, 8).is_ok());
    assert_eq!(24, mbuf.data_len());

    // make sure data is untouched
    let slice = mbuf.read_data_slice(0, 24).unwrap();

    // [0..4] untouched
    assert_eq!(BUFFER[..4], slice[..4]);
    // [4..12] untouched, this is the 'new' memory
    assert_eq!(BUFFER[4..12], slice[4..12]);
    // copied [4..16] to [12..24]
    assert_eq!(BUFFER[4..], slice[12..24]);
}

#[test]
fn extend_data_buffer_too_much() {
    let mut mbuf = Mbuf::new();
    assert!(mbuf.extend(0, 999_999).is_err());
}

#[test]
fn shrink_data_buffer_tail() {
    let mut mbuf = Mbuf::new();

    // write some data to the buffer
    assert!(mbuf.extend(0, 16).is_ok());
    assert!(mbuf.write_data_slice(0, &BUFFER).is_ok());

    // shrinks the tail
    assert!(mbuf.shrink(8, 8).is_ok());
    assert_eq!(8, mbuf.data_len());

    // make sure data is untouched
    let slice = mbuf.read_data_slice(0, 8).unwrap();
    assert_eq!(BUFFER[..8], slice[..8]);
}

#[test]
fn shrink_data_buffer_middle() {
    let mut mbuf = Mbuf::new();

    // write some data to the buffer
    assert!(mbuf.extend(0, 16).is_ok());
    assert!(mbuf.write_data_slice(0, &BUFFER).is_ok());

    // shrinks the middle
    assert!(mbuf.shrink(4, 8).is_ok());
    assert_eq!(8, mbuf.data_len());

    // make sure data is untouched
    let slice = mbuf.read_data_slice(0, 8).unwrap();

    // removed [4..12]
    assert_eq!(BUFFER[..4], slice[..4]);
    assert_eq!(BUFFER[12..], slice[4..]);
}

#[test]
fn shrink_data_buffer_too_much() {
    let mut mbuf = Mbuf::new();
    assert!(mbuf.extend(0, 200).is_ok());
    assert!(mbuf.shrink(150, 100).is_err());
}

#[test]
fn truncate_data_buffer() {
    let mut mbuf = Mbuf::new();

    // write some data to the buffer
    assert!(mbuf.extend(0, 16).is_ok());
    assert!(mbuf.write_data_slice(0, &BUFFER).is_ok());

    // truncates the buffer
    assert!(mbuf.truncate(8).is_ok());
    assert_eq!(8, mbuf.data_len());

    // make sure data is untouched
    let slice = mbuf.read_data_slice(0, 8).unwrap();
    assert_eq!(BUFFER[..8], slice[..8]);
}

#[test]
fn read_and_write_data() {
    let mut mbuf = Mbuf::new();

    // write some data to the buffer
    assert!(mbuf.extend(0, 20).is_ok());
    assert!(mbuf.write_data(0, &BUFFER).is_ok());

    let item = mbuf.read_data(0, 16).unwrap();
    assert_eq!(BUFFER.to_vec(), item);

    // read from the wrong offset should return junk
    let item = mbuf.read_data(2, 16).unwrap();
    assert!(BUFFER.to_vec() != item);

    // read exceeds buffer should err
    assert!(mbuf.read_data(10, 16).is_err());
}

#[test]
fn read_and_write_data_slice() {
    let mut mbuf = Mbuf::new();

    // write some data to the buffer
    assert!(mbuf.extend(0, 20).is_ok());
    assert!(mbuf.write_data_slice(0, &BUFFER).is_ok());

    let slice = mbuf.read_data_slice(0, 16).unwrap();
    assert_eq!(BUFFER.to_vec(), slice);

    // read from the wrong offset should return junk
    let slice = mbuf.read_data_slice(2, 16).unwrap();
    assert!(BUFFER.to_vec() != slice);

    // read exceeds buffer should err
    assert!(mbuf.read_data_slice(10, 16).is_err());
}

#[test]
fn alloc_bulk() {
    let mbufs = Mbuf::alloc_bulk(8);
    assert_eq!(8, mbufs.len());

    for mbuf in mbufs {
        assert_eq!(0, mbuf.data_len());
    }
}

#[test]
fn extend_then_shrink_restores_bytes() {
    let mut mbuf = Mbuf::from_bytes(&BUFFER).unwrap();
    assert!(mbuf.extend(5, 7).is_ok());
    assert!(mbuf.shrink(5, 7).is_ok());
    assert_eq!(16, mbuf.data_len());
    let slice = mbuf.read_data_slice(0, 16).unwrap();
    assert_eq!(BUFFER.to_vec(), slice);
}

#[test]
fn resize_dispatches_both_ways() {
    let mut mbuf = Mbuf::from_bytes(&BUFFER).unwrap();
    assert!(mbuf.resize(16, 4).is_ok());
    assert_eq!(20, mbuf.data_len());
    assert!(mbuf.resize(4, -8).is_ok());
    assert_eq!(12, mbuf.data_len());
    let slice = mbuf.read_data_slice(0, 4).unwrap();
    assert_eq!(BUFFER[..4], slice[..]);
    // a zero-length resize is refused
    assert_eq!(Err(BufferError::NotResized), mbuf.resize(0, 0));
}

#[test]
fn resize_to_reaches_exact_lengths() {
    let mut mbuf = Mbuf::from_bytes(&BUFFER).unwrap();
    assert!(mbuf.resize_to(24).is_ok());
    assert_eq!(24, mbuf.data_len());
    assert!(mbuf.resize_to(6).is_ok());
    assert_eq!(6, mbuf.data_len());
    let slice = mbuf.read_data_slice(0, 6).unwrap();
    assert_eq!(BUFFER[..6], slice[..]);
    assert!(mbuf.resize_to(6).is_ok());
    assert_eq!(6, mbuf.data_len());
    assert!(mbuf.resize_to(999_999).is_err());
    assert_eq!(6, mbuf.data_len());
}

#[test]
fn error_values_name_the_failure() {
    let mut mbuf = Mbuf::from_bytes(&BUFFER).unwrap();
    // BadOffset carries the offset and the live length
    assert_eq!(Err(BufferError::BadOffset(16, 16)), mbuf.read_data(16, 1));
    // OutOfBuffer carries the size needed and the bytes available
    assert_eq!(Err(BufferError::OutOfBuffer(10, 8)), mbuf.read_data(8, 10));
    assert_eq!(Err(BufferError::OutOfBuffer(20, 12)), mbuf.write_data(4, &[0u8; 20]));
    // NotResized from each refused precondition
    assert_eq!(Err(BufferError::NotResized), mbuf.extend(0, 0));
    assert_eq!(Err(BufferError::NotResized), mbuf.extend(17, 1));
    assert_eq!(Err(BufferError::NotResized), mbuf.shrink(10, 7));
    assert_eq!(Err(BufferError::NotResized), mbuf.truncate(16));
    assert_eq!(16, mbuf.data_len());
}

#[test]
fn from_bytes_rejects_empty_and_oversized() {
    assert_eq!(
        Err(BufferError::NotResized),
        Mbuf::from_bytes(&[]).map(|m| m.data_len())
    );
    let big = vec![0u8; DEFAULT_TAILROOM];
    assert_eq!(
        Err(BufferError::NotResized),
        Mbuf::from_bytes(&big).map(|m| m.data_len())
    );
    let fits = vec![7u8; DEFAULT_TAILROOM - 1];
    assert_eq!(DEFAULT_TAILROOM - 1, Mbuf::from_bytes(&fits).unwrap().data_len());
}
