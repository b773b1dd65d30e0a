//! Big-endian (network order) encoding of fixed-width integers.
//!
//! Header fields that travel on the wire in network order are stored as
//! raw bytes in the buffer; these helpers convert between those byte
//! pairs and host-order values, so that every place where byte order
//! matters is explicit.

use vstd::prelude::*;

verus! {

/// The host value of two bytes read in network order.
pub open spec fn be16(hi: u8, lo: u8) -> u16 {
    (hi * 256 + lo) as u16
}

/// The high (first on the wire) byte of a value in network order.
pub open spec fn be16_hi(v: u16) -> u8 {
    (v / 256) as u8
}

/// The low (second on the wire) byte of a value in network order.
pub open spec fn be16_lo(v: u16) -> u8 {
    (v % 256) as u8
}

/// Reads a 16-bit value from its two network-order bytes.
pub fn u16_from_be_pair(hi: u8, lo: u8) -> (r: u16)
    ensures
        r == be16(hi, lo),
{
    (hi as u16) * 256 + (lo as u16)
}

/// Splits a 16-bit value into its two network-order bytes.
pub fn u16_to_be_pair(v: u16) -> (r: (u8, u8))
    ensures
        r.0 == be16_hi(v),
        r.1 == be16_lo(v),
        be16(r.0, r.1) == v,
{
    ((v / 256) as u8, (v % 256) as u8)
}

/// Splitting a value and reading the pair back is the identity, and the
/// two byte functions are exactly the division and remainder by 256.
pub proof fn lemma_be16_roundtrip(v: u16)
    ensures
        be16(be16_hi(v), be16_lo(v)) == v,
{
}

} // verus!
