//! The IPv4 layer: a 20-byte header (no options) nested in an Ethernet
//! frame. Version and header length share the first byte; total length
//! (2 bytes, network order), TTL, protocol and the header checksum
//! follow, then the 4-byte source and destination addresses.

use crate::checksum::{
    checksum16, fold16, lemma_stored_checksum_folds_to_all_ones, ocsum, sum16,
};
use crate::endian::{be16, be16_hi, be16_lo, u16_from_be_pair, u16_to_be_pair};
use crate::ethernet::{Ethernet, ETHERNET_HEADER_LEN, ETHERTYPE_IPV4};
use crate::mbuf::{shrink_effect, zero_vec, BufferError, Mbuf};
use vstd::prelude::*;

verus! {

/// Width in bytes of an IPv4 header without options.
pub const IPV4_HEADER_LEN: usize = 20;

/// The protocol number announcing an ICMPv4 payload.
pub const PROTOCOL_ICMPV4: u8 = 1;

/// An IPv4 view nested in an Ethernet frame.
pub struct Ipv4 {
    pub envelope: Ethernet,
    pub offset: usize,
}

/// How pushing an IPv4 layer changes the live bytes: the Ethertype is
/// written, a fresh header opens at the Ethernet payload (version 4,
/// header length 5, all other fields zero), and the old payload follows.
pub open spec fn ipv4_push_effect(pre: Seq<u8>, post: Seq<u8>) -> bool {
    &&& post.len() == pre.len() + IPV4_HEADER_LEN
    &&& forall|i: int| 0 <= i < 12 ==> post[i] == pre[i]
    &&& post[12] == be16_hi(ETHERTYPE_IPV4)
    &&& post[13] == be16_lo(ETHERTYPE_IPV4)
    &&& post[14] == 0x45
    &&& forall|i: int| 15 <= i < 34 ==> post[i] == 0
    &&& forall|i: int| 14 <= i < pre.len() ==> post[i + IPV4_HEADER_LEN] == pre[i]
}

/// The exact byte string whose one's-complement sum is the IPv4 header
/// checksum: the 20 header bytes with the checksum field read as zero.
pub open spec fn ipv4_checksum_input(b: Seq<u8>, off: int) -> Seq<u8> {
    b.update(off + 10, 0u8).update(off + 11, 0u8).subrange(off, off + IPV4_HEADER_LEN)
}

/// The bytes after this layer recomputes its derived fields: the total
/// length becomes the live bytes from the header on, and the header
/// checksum is recomputed over the updated header.
pub open spec fn ipv4_reconciled(b: Seq<u8>, off: int) -> Seq<u8> {
    let b1 = b.update(off + 2, be16_hi((b.len() - off) as u16)).update(
        off + 3,
        be16_lo((b.len() - off) as u16),
    );
    let ck = ocsum(ipv4_checksum_input(b1, off));
    b1.update(off + 10, be16_hi(ck)).update(off + 11, be16_lo(ck))
}

impl Ipv4 {
    /// The live bytes of the underlying buffer.
    pub open spec fn bytes(&self) -> Seq<u8> {
        self.envelope.bytes()
    }

    /// Byte index where this layer's header begins.
    pub open spec fn spec_offset(&self) -> int {
        self.offset as int
    }

    /// Free bytes behind the live region of the underlying buffer.
    pub open spec fn spec_tailroom(&self) -> int {
        self.envelope.spec_tailroom()
    }

    /// The view begins exactly at its envelope's payload and its header
    /// fits in the live bytes.
    pub open spec fn wf(&self) -> bool {
        &&& self.envelope.wf()
        &&& self.offset == self.envelope.spec_offset() + ETHERNET_HEADER_LEN
        &&& self.spec_offset() + IPV4_HEADER_LEN <= self.bytes().len()
    }

    /// The total length field, read in network order.
    pub open spec fn spec_total_length(&self) -> u16 {
        be16(self.bytes()[self.spec_offset() + 2], self.bytes()[self.spec_offset() + 3])
    }

    /// The time-to-live field.
    pub open spec fn spec_ttl(&self) -> u8 {
        self.bytes()[self.spec_offset() + 8]
    }

    /// The protocol field.
    pub open spec fn spec_protocol(&self) -> u8 {
        self.bytes()[self.spec_offset() + 9]
    }

    /// The header checksum field, read in network order.
    pub open spec fn spec_checksum(&self) -> u16 {
        be16(self.bytes()[self.spec_offset() + 10], self.bytes()[self.spec_offset() + 11])
    }

    /// The source address, as its four bytes.
    pub open spec fn spec_src(&self) -> Seq<u8> {
        self.bytes().subrange(self.spec_offset() + 12, self.spec_offset() + 16)
    }

    /// The destination address, as its four bytes.
    pub open spec fn spec_dst(&self) -> Seq<u8> {
        self.bytes().subrange(self.spec_offset() + 16, self.spec_offset() + 20)
    }

    /// Byte index where this layer's header begins.
    pub fn offset(&self) -> (r: usize)
        ensures
            r == self.spec_offset(),
    {
        self.offset
    }

    /// Bytes occupied by this layer's header.
    pub fn header_len(&self) -> (r: usize)
        ensures
            r == IPV4_HEADER_LEN,
    {
        IPV4_HEADER_LEN
    }

    /// Live bytes from this layer's header to the end of the packet.
    pub fn len(&self) -> (r: usize)
        requires
            self.wf(),
        ensures
            r == self.bytes().len() - self.spec_offset(),
    {
        self.envelope.envelope.data_len() - self.offset
    }

    /// Byte index where this layer's payload begins.
    pub fn payload_offset(&self) -> (r: usize)
        requires
            self.wf(),
        ensures
            r == self.spec_offset() + IPV4_HEADER_LEN,
    {
        self.offset + IPV4_HEADER_LEN
    }

    /// Live bytes past this layer's header.
    pub fn payload_len(&self) -> (r: usize)
        requires
            self.wf(),
        ensures
            r == self.bytes().len() - self.spec_offset() - IPV4_HEADER_LEN,
    {
        self.len() - IPV4_HEADER_LEN
    }

    /// Opens a fresh IPv4 header at the Ethernet payload and announces it
    /// in the frame's Ethertype.
    ///
    /// Refused, handing the envelope back unchanged, when the header does
    /// not fit in the tailroom.
    pub fn push(envelope: Ethernet) -> (r: Result<Ipv4, (BufferError, Ethernet)>)
        requires
            envelope.wf(),
        ensures
            match r {
                Ok(l) => {
                    &&& (IPV4_HEADER_LEN as int) < envelope.spec_tailroom()
                    &&& l.wf()
                    &&& l.spec_offset() == ETHERNET_HEADER_LEN
                    &&& ipv4_push_effect(envelope.bytes(), l.bytes())
                    &&& l.spec_tailroom() == envelope.spec_tailroom() - IPV4_HEADER_LEN
                },
                Err((e, env)) => {
                    &&& e == BufferError::NotResized
                    &&& envelope.spec_tailroom() <= IPV4_HEADER_LEN
                    &&& env.wf()
                    &&& env.bytes() == envelope.bytes()
                    &&& env.spec_offset() == envelope.spec_offset()
                    &&& env.spec_tailroom() == envelope.spec_tailroom()
                },
            },
    {
        let mut env = envelope;
        let off = env.payload_offset();
        match env.envelope.extend(off, IPV4_HEADER_LEN) {
            Err(e) => Err((e, env)),
            Ok(()) => {
                let ghost b1 = env.bytes();
                let mut hdr = zero_vec(IPV4_HEADER_LEN);
                hdr.set(0, 0x45);
                env.envelope.write_bytes(off, hdr.as_slice());
                let ghost b2 = env.bytes();
                env.set_ether_type(ETHERTYPE_IPV4);
                proof {
                    assert forall|i: int| 15 <= i < 34 implies env.bytes()[i] == 0 by {
                        assert(b2[14 + (i - 14)] == hdr@[i - 14]);
                    }
                    assert(env.bytes()[14int + 0] == b2[14int + 0]);
                    assert(b2[14int + 0] == hdr@[0]);
                    assert forall|i: int|
                        14 <= i < envelope.bytes().len() implies env.bytes()[i + IPV4_HEADER_LEN]
                        == envelope.bytes()[i] by {
                        assert(b1[i + IPV4_HEADER_LEN] == envelope.bytes()[i]);
                        assert(b2[i + IPV4_HEADER_LEN] == b1[i + IPV4_HEADER_LEN]);
                    }
                    assert forall|i: int| 0 <= i < 12 implies env.bytes()[i] == envelope.bytes()[i]
                    by {
                        assert(b1[i] == envelope.bytes()[i]);
                        assert(b2[i] == b1[i]);
                    }
                }
                Ok(Ipv4 { envelope: env, offset: off })
            },
        }
    }

    /// Interprets the Ethernet payload as an IPv4 header, without
    /// touching any byte.
    ///
    /// Refused, handing the envelope back unchanged, when the Ethertype
    /// does not announce IPv4 or fewer than 20 payload bytes are present.
    pub fn parse(envelope: Ethernet) -> (r: Result<Ipv4, (BufferError, Ethernet)>)
        requires
            envelope.wf(),
        ensures
            match r {
                Ok(l) => {
                    &&& envelope.spec_ether_type() == ETHERTYPE_IPV4
                    &&& envelope.bytes().len() >= ETHERNET_HEADER_LEN + IPV4_HEADER_LEN
                    &&& l.wf()
                    &&& l.spec_offset() == ETHERNET_HEADER_LEN
                    &&& l.bytes() == envelope.bytes()
                    &&& l.spec_tailroom() == envelope.spec_tailroom()
                },
                Err((e, env)) => {
                    &&& !(envelope.spec_ether_type() == ETHERTYPE_IPV4 && envelope.bytes().len()
                        >= ETHERNET_HEADER_LEN + IPV4_HEADER_LEN)
                    &&& e == (if envelope.spec_ether_type() != ETHERTYPE_IPV4 {
                        BufferError::ParseMismatch
                    } else if envelope.bytes().len() == ETHERNET_HEADER_LEN {
                        BufferError::BadOffset(ETHERNET_HEADER_LEN, ETHERNET_HEADER_LEN)
                    } else {
                        BufferError::OutOfBuffer(
                            IPV4_HEADER_LEN,
                            (envelope.bytes().len() - ETHERNET_HEADER_LEN) as usize,
                        )
                    })
                    &&& env.wf()
                    &&& env.bytes() == envelope.bytes()
                    &&& env.spec_offset() == envelope.spec_offset()
                    &&& env.spec_tailroom() == envelope.spec_tailroom()
                },
            },
    {
        if envelope.ether_type() != ETHERTYPE_IPV4 {
            return Err((BufferError::ParseMismatch, envelope));
        }
        let off = envelope.payload_offset();
        let n = envelope.envelope.data_len();
        if off >= n {
            return Err((BufferError::BadOffset(off, n), envelope));
        }
        if IPV4_HEADER_LEN > n - off {
            return Err((BufferError::OutOfBuffer(IPV4_HEADER_LEN, n - off), envelope));
        }
        Ok(Ipv4 { offset: off, envelope })
    }

    /// A view of the same packet over an observer copy of the buffer:
    /// dropping or mutating it cannot touch the original packet.
    pub fn observe(&self) -> (r: Ipv4)
        requires
            self.wf(),
        ensures
            r.wf(),
            r.bytes() == self.bytes(),
            r.spec_offset() == self.spec_offset(),
            r.spec_tailroom() == self.spec_tailroom(),
    {
        Ipv4 { envelope: self.envelope.observe(), offset: self.offset }
    }

    /// Like `parse`, but observes the frame without consuming it.
    pub fn peek(envelope: &Ethernet) -> (r: Result<Ipv4, BufferError>)
        requires
            envelope.wf(),
        ensures
            match r {
                Ok(l) => {
                    &&& envelope.spec_ether_type() == ETHERTYPE_IPV4
                    &&& envelope.bytes().len() >= ETHERNET_HEADER_LEN + IPV4_HEADER_LEN
                    &&& l.wf()
                    &&& l.spec_offset() == ETHERNET_HEADER_LEN
                    &&& l.bytes() == envelope.bytes()
                },
                Err(e) => {
                    &&& !(envelope.spec_ether_type() == ETHERTYPE_IPV4 && envelope.bytes().len()
                        >= ETHERNET_HEADER_LEN + IPV4_HEADER_LEN)
                    &&& e == (if envelope.spec_ether_type() != ETHERTYPE_IPV4 {
                        BufferError::ParseMismatch
                    } else if envelope.bytes().len() == ETHERNET_HEADER_LEN {
                        BufferError::BadOffset(ETHERNET_HEADER_LEN, ETHERNET_HEADER_LEN)
                    } else {
                        BufferError::OutOfBuffer(
                            IPV4_HEADER_LEN,
                            (envelope.bytes().len() - ETHERNET_HEADER_LEN) as usize,
                        )
                    })
                },
            },
    {
        match Ipv4::parse(envelope.observe()) {
            Ok(l) => Ok(l),
            Err((e, _)) => Err(e),
        }
    }

    /// Reverts the view to its envelope without touching any byte.
    pub fn deparse(self) -> (r: Ethernet)
        requires
            self.wf(),
        ensures
            r.wf(),
            r.bytes() == self.bytes(),
            r.spec_offset() == self.spec_offset() - ETHERNET_HEADER_LEN,
            r.spec_tailroom() == self.spec_tailroom(),
    {
        self.envelope
    }

    /// Discards the whole view chain and hands back the raw buffer.
    pub fn reset(self) -> (r: Mbuf)
        requires
            self.wf(),
        ensures
            r.wf(),
            r@ == self.bytes(),
            r.spec_tailroom() == self.spec_tailroom(),
    {
        self.envelope.reset()
    }

    /// Shrinks the header away and hands back the envelope.
    pub fn remove(self) -> (r: Ethernet)
        requires
            self.wf(),
        ensures
            r.wf(),
            shrink_effect(self.bytes(), r.bytes(), self.spec_offset(), IPV4_HEADER_LEN as int),
            r.spec_offset() == self.spec_offset() - ETHERNET_HEADER_LEN,
            r.spec_tailroom() == self.spec_tailroom() + IPV4_HEADER_LEN,
    {
        let mut env = self.envelope;
        let rr = env.envelope.shrink(self.offset, IPV4_HEADER_LEN);
        proof {
            assert(rr is Ok);
        }
        env
    }

    /// The total length field, in host order.
    pub fn total_length(&self) -> (r: u16)
        requires
            self.wf(),
        ensures
            r == self.spec_total_length(),
    {
        u16_from_be_pair(
            self.envelope.envelope.byte_at(self.offset + 2),
            self.envelope.envelope.byte_at(self.offset + 3),
        )
    }

    /// The time-to-live field.
    pub fn ttl(&self) -> (r: u8)
        requires
            self.wf(),
        ensures
            r == self.spec_ttl(),
    {
        self.envelope.envelope.byte_at(self.offset + 8)
    }

    /// Writes the time-to-live field.
    pub fn set_ttl(&mut self, v: u8)
        requires
            old(self).wf(),
        ensures
            final(self).wf(),
            final(self).spec_offset() == old(self).spec_offset(),
            final(self).spec_tailroom() == old(self).spec_tailroom(),
            final(self).bytes() == old(self).bytes().update(old(self).spec_offset() + 8, v),
            final(self).spec_ttl() == v,
    {
        self.envelope.envelope.set_byte(self.offset + 8, v);
    }

    /// The protocol field.
    pub fn protocol(&self) -> (r: u8)
        requires
            self.wf(),
        ensures
            r == self.spec_protocol(),
    {
        self.envelope.envelope.byte_at(self.offset + 9)
    }

    /// Writes the protocol field.
    pub fn set_protocol(&mut self, v: u8)
        requires
            old(self).wf(),
        ensures
            final(self).wf(),
            final(self).spec_offset() == old(self).spec_offset(),
            final(self).spec_tailroom() == old(self).spec_tailroom(),
            final(self).bytes() == old(self).bytes().update(old(self).spec_offset() + 9, v),
            final(self).spec_protocol() == v,
    {
        self.envelope.envelope.set_byte(self.offset + 9, v);
    }

    /// The header checksum field, in host order.
    pub fn checksum(&self) -> (r: u16)
        requires
            self.wf(),
        ensures
            r == self.spec_checksum(),
    {
        u16_from_be_pair(
            self.envelope.envelope.byte_at(self.offset + 10),
            self.envelope.envelope.byte_at(self.offset + 11),
        )
    }

    /// The source address, as its four bytes.
    pub fn src(&self) -> (r: Vec<u8>)
        requires
            self.wf(),
        ensures
            r@ == self.spec_src(),
    {
        self.envelope.envelope.read_bytes(self.offset + 12, 4)
    }

    /// Writes the source address.
    pub fn set_src(&mut self, addr: &[u8])
        requires
            old(self).wf(),
            addr@.len() == 4,
        ensures
            final(self).wf(),
            final(self).spec_offset() == old(self).spec_offset(),
            final(self).spec_tailroom() == old(self).spec_tailroom(),
            final(self).bytes().len() == old(self).bytes().len(),
            final(self).spec_src() == addr@,
            forall|i: int|
                0 <= i < old(self).bytes().len() && !(old(self).spec_offset() + 12 <= i < old(
                    self,
                ).spec_offset() + 16) ==> final(self).bytes()[i] == old(self).bytes()[i],
    {
        self.envelope.envelope.write_bytes(self.offset + 12, addr);
        proof {
            assert(self.spec_src() =~= addr@);
        }
    }

    /// The destination address, as its four bytes.
    pub fn dst(&self) -> (r: Vec<u8>)
        requires
            self.wf(),
        ensures
            r@ == self.spec_dst(),
    {
        self.envelope.envelope.read_bytes(self.offset + 16, 4)
    }

    /// Writes the destination address.
    pub fn set_dst(&mut self, addr: &[u8])
        requires
            old(self).wf(),
            addr@.len() == 4,
        ensures
            final(self).wf(),
            final(self).spec_offset() == old(self).spec_offset(),
            final(self).spec_tailroom() == old(self).spec_tailroom(),
            final(self).bytes().len() == old(self).bytes().len(),
            final(self).spec_dst() == addr@,
            forall|i: int|
                0 <= i < old(self).bytes().len() && !(old(self).spec_offset() + 16 <= i < old(
                    self,
                ).spec_offset() + 20) ==> final(self).bytes()[i] == old(self).bytes()[i],
    {
        self.envelope.envelope.write_bytes(self.offset + 16, addr);
        proof {
            assert(self.spec_dst() =~= addr@);
        }
    }

    /// Recomputes this layer's derived fields: the total length becomes
    /// the live bytes from the header on, and the header checksum is
    /// recomputed over the updated header with its field read as zero.
    pub fn reconcile(&mut self)
        requires
            old(self).wf(),
        ensures
            final(self).wf(),
            final(self).spec_offset() == old(self).spec_offset(),
            final(self).spec_tailroom() == old(self).spec_tailroom(),
            final(self).bytes() == ipv4_reconciled(old(self).bytes(), old(self).spec_offset()),
    {
        proof {
            self.envelope.envelope.lemma_wf_bounds();
        }
        let off = self.offset;
        let total = self.len();
        let (thi, tlo) = u16_to_be_pair(total as u16);
        self.envelope.envelope.set_byte(off + 2, thi);
        self.envelope.envelope.set_byte(off + 3, tlo);
        let ghost b1 = self.bytes();
        self.envelope.envelope.set_byte(off + 10, 0);
        self.envelope.envelope.set_byte(off + 11, 0);
        let hdr = self.envelope.envelope.read_bytes(off, IPV4_HEADER_LEN);
        proof {
            assert(hdr@ =~= ipv4_checksum_input(b1, off as int));
        }
        let ck = checksum16(&hdr);
        let (hi, lo) = u16_to_be_pair(ck);
        self.envelope.envelope.set_byte(off + 10, hi);
        self.envelope.envelope.set_byte(off + 11, lo);
        proof {
            assert(self.bytes() =~= ipv4_reconciled(old(self).bytes(), off as int));
        }
    }

    /// Recomputes derived fields here and in every enclosing layer,
    /// innermost first.
    pub fn reconcile_all(&mut self)
        requires
            old(self).wf(),
        ensures
            final(self).wf(),
            final(self).spec_offset() == old(self).spec_offset(),
            final(self).spec_tailroom() == old(self).spec_tailroom(),
            final(self).bytes() == ipv4_reconciled(old(self).bytes(), old(self).spec_offset()),
    {
        self.reconcile();
        self.envelope.reconcile_all();
    }
}

/// Pushing an IPv4 layer and then removing it restores the envelope
/// bytes exactly, provided the frame already announced IPv4.
pub proof fn lemma_ipv4_push_remove_roundtrip(pre: Seq<u8>, mid: Seq<u8>, post: Seq<u8>)
    requires
        pre.len() >= ETHERNET_HEADER_LEN,
        pre[12] == be16_hi(ETHERTYPE_IPV4),
        pre[13] == be16_lo(ETHERTYPE_IPV4),
        ipv4_push_effect(pre, mid),
        shrink_effect(mid, post, ETHERNET_HEADER_LEN as int, IPV4_HEADER_LEN as int),
    ensures
        post == pre,
{
    assert forall|i: int| 0 <= i < pre.len() implies post[i] == pre[i] by {
        if i < 14 {
            assert(post[i] == mid[i]);
        } else {
            assert(mid[i + IPV4_HEADER_LEN] == pre[i]);
            assert(post[(i + IPV4_HEADER_LEN) - IPV4_HEADER_LEN] == mid[i + IPV4_HEADER_LEN]);
        }
    }
    assert(post =~= pre);
}

/// After one reconciliation, the stored header checksum field is exactly
/// the one's-complement checksum of the reconciled header with the field
/// read as zero.
pub proof fn lemma_checksum_validates_v4(b: Seq<u8>, off: int)
    requires
        ETHERNET_HEADER_LEN <= off,
        off + IPV4_HEADER_LEN <= b.len(),
    ensures
        ({
            let b1 = ipv4_reconciled(b, off);
            be16(b1[off + 10], b1[off + 11]) == ocsum(ipv4_checksum_input(b1, off))
        }),
{
    let b1 = ipv4_reconciled(b, off);
    let bt = b.update(off + 2, be16_hi((b.len() - off) as u16)).update(
        off + 3,
        be16_lo((b.len() - off) as u16),
    );
    assert(ipv4_checksum_input(b1, off) =~= ipv4_checksum_input(bt, off));
    let ck = ocsum(ipv4_checksum_input(bt, off));
    crate::endian::lemma_be16_roundtrip(ck);
}

/// The receiver's validation of a reconciled IPv4 header: summing its
/// twenty bytes as they stand, stored checksum included, folds to all
/// ones.
pub proof fn lemma_ipv4_header_sum_is_all_ones(b: Seq<u8>, off: int)
    requires
        ETHERNET_HEADER_LEN <= off,
        off + IPV4_HEADER_LEN <= b.len(),
    ensures
        fold16(sum16(ipv4_reconciled(b, off).subrange(off, off + IPV4_HEADER_LEN))) == 0xffff,
{
    let tl = (b.len() - off) as u16;
    let bt = b.update(off + 2, be16_hi(tl)).update(off + 3, be16_lo(tl));
    let x = bt.subrange(off, off + IPV4_HEADER_LEN);
    assert(x.update(10, 0u8).update(11, 0u8) =~= ipv4_checksum_input(bt, off));
    lemma_stored_checksum_folds_to_all_ones(x, 10);
    let ck = ocsum(ipv4_checksum_input(bt, off));
    assert(ipv4_reconciled(b, off).subrange(off, off + IPV4_HEADER_LEN) =~= x.update(
        10,
        be16_hi(ck),
    ).update(11, be16_lo(ck)));
}

} // verus!
