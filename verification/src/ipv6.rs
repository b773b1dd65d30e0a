//! The IPv6 layer: a fixed 40-byte header nested in an Ethernet frame.
//! Version and traffic class share the first byte; the payload length
//! (2 bytes, network order), next header (1 byte) and hop limit (1 byte)
//! follow, then the 16-byte source and destination addresses.

use crate::endian::{be16, be16_hi, be16_lo, u16_from_be_pair, u16_to_be_pair};
use crate::ethernet::{Ethernet, ETHERNET_HEADER_LEN, ETHERTYPE_IPV6};
use crate::mbuf::{shrink_effect, zero_vec, BufferError, Mbuf};
use vstd::prelude::*;

verus! {

/// Width in bytes of an IPv6 header.
pub const IPV6_HEADER_LEN: usize = 40;

/// The next-header number announcing an ICMPv6 payload.
pub const PROTOCOL_ICMPV6: u8 = 58;

/// An IPv6 view nested in an Ethernet frame.
pub struct Ipv6 {
    pub envelope: Ethernet,
    pub offset: usize,
}

/// How pushing an IPv6 layer changes the live bytes: the Ethertype is
/// written, a fresh header opens at the Ethernet payload (version 6, all
/// other fields zero), and the old payload follows it.
pub open spec fn ipv6_push_effect(pre: Seq<u8>, post: Seq<u8>) -> bool {
    &&& post.len() == pre.len() + IPV6_HEADER_LEN
    &&& forall|i: int| 0 <= i < 12 ==> post[i] == pre[i]
    &&& post[12] == be16_hi(ETHERTYPE_IPV6)
    &&& post[13] == be16_lo(ETHERTYPE_IPV6)
    &&& post[14] == 0x60
    &&& forall|i: int| 15 <= i < 54 ==> post[i] == 0
    &&& forall|i: int| 14 <= i < pre.len() ==> post[i + IPV6_HEADER_LEN] == pre[i]
}

/// The bytes after this layer recomputes its derived fields: the payload
/// length field is set to the live bytes past the header.
pub open spec fn ipv6_reconciled(b: Seq<u8>, off: int) -> Seq<u8> {
    b.update(off + 4, be16_hi((b.len() - off - IPV6_HEADER_LEN) as u16)).update(
        off + 5,
        be16_lo((b.len() - off - IPV6_HEADER_LEN) as u16),
    )
}

impl Ipv6 {
    /// The live bytes of the underlying buffer.
    pub open spec fn bytes(&self) -> Seq<u8> {
        self.envelope.bytes()
    }

    /// Byte index where this layer's header begins.
    pub open spec fn spec_offset(&self) -> int {
        self.offset as int
    }

    /// Free bytes behind the live region of the underlying buffer.
    pub open spec fn spec_tailroom(&self) -> int {
        self.envelope.spec_tailroom()
    }

    /// The view begins exactly at its envelope's payload and its header
    /// fits in the live bytes.
    pub open spec fn wf(&self) -> bool {
        &&& self.envelope.wf()
        &&& self.offset == self.envelope.spec_offset() + ETHERNET_HEADER_LEN
        &&& self.spec_offset() + IPV6_HEADER_LEN <= self.bytes().len()
    }

    /// The payload length field, read in network order.
    pub open spec fn spec_payload_length(&self) -> u16 {
        be16(self.bytes()[self.spec_offset() + 4], self.bytes()[self.spec_offset() + 5])
    }

    /// The next-header field.
    pub open spec fn spec_next_header(&self) -> u8 {
        self.bytes()[self.spec_offset() + 6]
    }

    /// The source address, as its sixteen bytes.
    pub open spec fn spec_src(&self) -> Seq<u8> {
        self.bytes().subrange(self.spec_offset() + 8, self.spec_offset() + 24)
    }

    /// The destination address, as its sixteen bytes.
    pub open spec fn spec_dst(&self) -> Seq<u8> {
        self.bytes().subrange(self.spec_offset() + 24, self.spec_offset() + 40)
    }

    /// Byte index where this layer's header begins.
    pub fn offset(&self) -> (r: usize)
        ensures
            r == self.spec_offset(),
    {
        self.offset
    }

    /// Bytes occupied by this layer's header.
    pub fn header_len(&self) -> (r: usize)
        ensures
            r == IPV6_HEADER_LEN,
    {
        IPV6_HEADER_LEN
    }

    /// Live bytes from this layer's header to the end of the packet.
    pub fn len(&self) -> (r: usize)
        requires
            self.wf(),
        ensures
            r == self.bytes().len() - self.spec_offset(),
    {
        self.envelope.envelope.data_len() - self.offset
    }

    /// Byte index where this layer's payload begins.
    pub fn payload_offset(&self) -> (r: usize)
        requires
            self.wf(),
        ensures
            r == self.spec_offset() + IPV6_HEADER_LEN,
    {
        self.offset + IPV6_HEADER_LEN
    }

    /// Live bytes past this layer's header.
    pub fn payload_len(&self) -> (r: usize)
        requires
            self.wf(),
        ensures
            r == self.bytes().len() - self.spec_offset() - IPV6_HEADER_LEN,
    {
        self.len() - IPV6_HEADER_LEN
    }

    /// Opens a fresh IPv6 header at the Ethernet payload and announces it
    /// in the frame's Ethertype.
    ///
    /// Refused, handing the envelope back unchanged, when the header does
    /// not fit in the tailroom.
    pub fn push(envelope: Ethernet) -> (r: Result<Ipv6, (BufferError, Ethernet)>)
        requires
            envelope.wf(),
        ensures
            match r {
                Ok(l) => {
                    &&& (IPV6_HEADER_LEN as int) < envelope.spec_tailroom()
                    &&& l.wf()
                    &&& l.spec_offset() == ETHERNET_HEADER_LEN
                    &&& ipv6_push_effect(envelope.bytes(), l.bytes())
                    &&& l.spec_tailroom() == envelope.spec_tailroom() - IPV6_HEADER_LEN
                },
                Err((e, env)) => {
                    &&& e == BufferError::NotResized
                    &&& envelope.spec_tailroom() <= IPV6_HEADER_LEN
                    &&& env.wf()
                    &&& env.bytes() == envelope.bytes()
                    &&& env.spec_offset() == envelope.spec_offset()
                    &&& env.spec_tailroom() == envelope.spec_tailroom()
                },
            },
    {
        let mut env = envelope;
        let off = env.payload_offset();
        match env.envelope.extend(off, IPV6_HEADER_LEN) {
            Err(e) => Err((e, env)),
            Ok(()) => {
                let ghost b1 = env.bytes();
                let mut hdr = zero_vec(IPV6_HEADER_LEN);
                hdr.set(0, 0x60);
                env.envelope.write_bytes(off, hdr.as_slice());
                let ghost b2 = env.bytes();
                env.set_ether_type(ETHERTYPE_IPV6);
                proof {
                    assert forall|i: int| 15 <= i < 54 implies env.bytes()[i] == 0 by {
                        assert(b2[14 + (i - 14)] == hdr@[i - 14]);
                    }
                    assert(env.bytes()[14int + 0] == b2[14int + 0]);
                    assert(b2[14int + 0] == hdr@[0]);
                    assert forall|i: int|
                        14 <= i < envelope.bytes().len() implies env.bytes()[i + IPV6_HEADER_LEN]
                        == envelope.bytes()[i] by {
                        assert(b1[i + IPV6_HEADER_LEN] == envelope.bytes()[i]);
                        assert(b2[i + IPV6_HEADER_LEN] == b1[i + IPV6_HEADER_LEN]);
                    }
                    assert forall|i: int| 0 <= i < 12 implies env.bytes()[i] == envelope.bytes()[i]
                    by {
                        assert(b1[i] == envelope.bytes()[i]);
                        assert(b2[i] == b1[i]);
                    }
                }
                Ok(Ipv6 { envelope: env, offset: off })
            },
        }
    }

    /// Interprets the Ethernet payload as an IPv6 header, without
    /// touching any byte.
    ///
    /// Refused, handing the envelope back unchanged, when the Ethertype
    /// does not announce IPv6 or fewer than 40 payload bytes are present.
    pub fn parse(envelope: Ethernet) -> (r: Result<Ipv6, (BufferError, Ethernet)>)
        requires
            envelope.wf(),
        ensures
            match r {
                Ok(l) => {
                    &&& envelope.spec_ether_type() == ETHERTYPE_IPV6
                    &&& envelope.bytes().len() >= ETHERNET_HEADER_LEN + IPV6_HEADER_LEN
                    &&& l.wf()
                    &&& l.spec_offset() == ETHERNET_HEADER_LEN
                    &&& l.bytes() == envelope.bytes()
                    &&& l.spec_tailroom() == envelope.spec_tailroom()
                },
                Err((e, env)) => {
                    &&& !(envelope.spec_ether_type() == ETHERTYPE_IPV6 && envelope.bytes().len()
                        >= ETHERNET_HEADER_LEN + IPV6_HEADER_LEN)
                    &&& e == (if envelope.spec_ether_type() != ETHERTYPE_IPV6 {
                        BufferError::ParseMismatch
                    } else if envelope.bytes().len() == ETHERNET_HEADER_LEN {
                        BufferError::BadOffset(ETHERNET_HEADER_LEN, ETHERNET_HEADER_LEN)
                    } else {
                        BufferError::OutOfBuffer(
                            IPV6_HEADER_LEN,
                            (envelope.bytes().len() - ETHERNET_HEADER_LEN) as usize,
                        )
                    })
                    &&& env.wf()
                    &&& env.bytes() == envelope.bytes()
                    &&& env.spec_offset() == envelope.spec_offset()
                    &&& env.spec_tailroom() == envelope.spec_tailroom()
                },
            },
    {
        if envelope.ether_type() != ETHERTYPE_IPV6 {
            return Err((BufferError::ParseMismatch, envelope));
        }
        let off = envelope.payload_offset();
        let n = envelope.envelope.data_len();
        if off >= n {
            return Err((BufferError::BadOffset(off, n), envelope));
        }
        if IPV6_HEADER_LEN > n - off {
            return Err((BufferError::OutOfBuffer(IPV6_HEADER_LEN, n - off), envelope));
        }
        Ok(Ipv6 { offset: off, envelope })
    }

    /// A view of the same packet over an observer copy of the buffer:
    /// dropping or mutating it cannot touch the original packet.
    pub fn observe(&self) -> (r: Ipv6)
        requires
            self.wf(),
        ensures
            r.wf(),
            r.bytes() == self.bytes(),
            r.spec_offset() == self.spec_offset(),
            r.spec_tailroom() == self.spec_tailroom(),
    {
        Ipv6 { envelope: self.envelope.observe(), offset: self.offset }
    }

    /// Like `parse`, but observes the frame without consuming it.
    pub fn peek(envelope: &Ethernet) -> (r: Result<Ipv6, BufferError>)
        requires
            envelope.wf(),
        ensures
            match r {
                Ok(l) => {
                    &&& envelope.spec_ether_type() == ETHERTYPE_IPV6
                    &&& envelope.bytes().len() >= ETHERNET_HEADER_LEN + IPV6_HEADER_LEN
                    &&& l.wf()
                    &&& l.spec_offset() == ETHERNET_HEADER_LEN
                    &&& l.bytes() == envelope.bytes()
                },
                Err(e) => {
                    &&& !(envelope.spec_ether_type() == ETHERTYPE_IPV6 && envelope.bytes().len()
                        >= ETHERNET_HEADER_LEN + IPV6_HEADER_LEN)
                    &&& e == (if envelope.spec_ether_type() != ETHERTYPE_IPV6 {
                        BufferError::ParseMismatch
                    } else if envelope.bytes().len() == ETHERNET_HEADER_LEN {
                        BufferError::BadOffset(ETHERNET_HEADER_LEN, ETHERNET_HEADER_LEN)
                    } else {
                        BufferError::OutOfBuffer(
                            IPV6_HEADER_LEN,
                            (envelope.bytes().len() - ETHERNET_HEADER_LEN) as usize,
                        )
                    })
                },
            },
    {
        match Ipv6::parse(envelope.observe()) {
            Ok(l) => Ok(l),
            Err((e, _)) => Err(e),
        }
    }

    /// Reverts the view to its envelope without touching any byte.
    pub fn deparse(self) -> (r: Ethernet)
        requires
            self.wf(),
        ensures
            r.wf(),
            r.bytes() == self.bytes(),
            r.spec_offset() == self.spec_offset() - ETHERNET_HEADER_LEN,
            r.spec_tailroom() == self.spec_tailroom(),
    {
        self.envelope
    }

    /// Discards the whole view chain and hands back the raw buffer.
    pub fn reset(self) -> (r: Mbuf)
        requires
            self.wf(),
        ensures
            r.wf(),
            r@ == self.bytes(),
            r.spec_tailroom() == self.spec_tailroom(),
    {
        self.envelope.reset()
    }

    /// Shrinks the header away and hands back the envelope.
    pub fn remove(self) -> (r: Ethernet)
        requires
            self.wf(),
        ensures
            r.wf(),
            shrink_effect(self.bytes(), r.bytes(), self.spec_offset(), IPV6_HEADER_LEN as int),
            r.spec_offset() == self.spec_offset() - ETHERNET_HEADER_LEN,
            r.spec_tailroom() == self.spec_tailroom() + IPV6_HEADER_LEN,
    {
        let mut env = self.envelope;
        let rr = env.envelope.shrink(self.offset, IPV6_HEADER_LEN);
        proof {
            assert(rr is Ok);
        }
        env
    }

    /// The payload length field, in host order.
    pub fn payload_length(&self) -> (r: u16)
        requires
            self.wf(),
        ensures
            r == self.spec_payload_length(),
    {
        u16_from_be_pair(
            self.envelope.envelope.byte_at(self.offset + 4),
            self.envelope.envelope.byte_at(self.offset + 5),
        )
    }

    /// Writes the payload length field in network order.
    pub fn set_payload_length(&mut self, v: u16)
        requires
            old(self).wf(),
        ensures
            final(self).wf(),
            final(self).spec_offset() == old(self).spec_offset(),
            final(self).spec_tailroom() == old(self).spec_tailroom(),
            final(self).bytes() == old(self).bytes().update(
                old(self).spec_offset() + 4,
                be16_hi(v),
            ).update(old(self).spec_offset() + 5, be16_lo(v)),
            final(self).spec_payload_length() == v,
    {
        let (hi, lo) = u16_to_be_pair(v);
        self.envelope.envelope.set_byte(self.offset + 4, hi);
        self.envelope.envelope.set_byte(self.offset + 5, lo);
    }

    /// The next-header field.
    pub fn next_header(&self) -> (r: u8)
        requires
            self.wf(),
        ensures
            r == self.spec_next_header(),
    {
        self.envelope.envelope.byte_at(self.offset + 6)
    }

    /// Writes the next-header field.
    pub fn set_next_header(&mut self, v: u8)
        requires
            old(self).wf(),
        ensures
            final(self).wf(),
            final(self).spec_offset() == old(self).spec_offset(),
            final(self).spec_tailroom() == old(self).spec_tailroom(),
            final(self).bytes() == old(self).bytes().update(old(self).spec_offset() + 6, v),
            final(self).spec_next_header() == v,
    {
        self.envelope.envelope.set_byte(self.offset + 6, v);
    }

    /// The hop limit field.
    pub fn hop_limit(&self) -> (r: u8)
        requires
            self.wf(),
        ensures
            r == self.bytes()[self.spec_offset() + 7],
    {
        self.envelope.envelope.byte_at(self.offset + 7)
    }

    /// Writes the hop limit field.
    pub fn set_hop_limit(&mut self, v: u8)
        requires
            old(self).wf(),
        ensures
            final(self).wf(),
            final(self).spec_offset() == old(self).spec_offset(),
            final(self).spec_tailroom() == old(self).spec_tailroom(),
            final(self).bytes() == old(self).bytes().update(old(self).spec_offset() + 7, v),
    {
        self.envelope.envelope.set_byte(self.offset + 7, v);
    }

    /// The source address, as its sixteen bytes.
    pub fn src(&self) -> (r: Vec<u8>)
        requires
            self.wf(),
        ensures
            r@ == self.spec_src(),
    {
        self.envelope.envelope.read_bytes(self.offset + 8, 16)
    }

    /// Writes the source address.
    pub fn set_src(&mut self, addr: &[u8])
        requires
            old(self).wf(),
            addr@.len() == 16,
        ensures
            final(self).wf(),
            final(self).spec_offset() == old(self).spec_offset(),
            final(self).spec_tailroom() == old(self).spec_tailroom(),
            final(self).bytes().len() == old(self).bytes().len(),
            final(self).spec_src() == addr@,
            forall|i: int|
                0 <= i < old(self).bytes().len() && !(old(self).spec_offset() + 8 <= i < old(
                    self,
                ).spec_offset() + 24) ==> final(self).bytes()[i] == old(self).bytes()[i],
    {
        self.envelope.envelope.write_bytes(self.offset + 8, addr);
        proof {
            assert(self.spec_src() =~= addr@);
        }
    }

    /// The destination address, as its sixteen bytes.
    pub fn dst(&self) -> (r: Vec<u8>)
        requires
            self.wf(),
        ensures
            r@ == self.spec_dst(),
    {
        self.envelope.envelope.read_bytes(self.offset + 24, 16)
    }

    /// Writes the destination address.
    pub fn set_dst(&mut self, addr: &[u8])
        requires
            old(self).wf(),
            addr@.len() == 16,
        ensures
            final(self).wf(),
            final(self).spec_offset() == old(self).spec_offset(),
            final(self).spec_tailroom() == old(self).spec_tailroom(),
            final(self).bytes().len() == old(self).bytes().len(),
            final(self).spec_dst() == addr@,
            forall|i: int|
                0 <= i < old(self).bytes().len() && !(old(self).spec_offset() + 24 <= i < old(
                    self,
                ).spec_offset() + 40) ==> final(self).bytes()[i] == old(self).bytes()[i],
    {
        self.envelope.envelope.write_bytes(self.offset + 24, addr);
        proof {
            assert(self.spec_dst() =~= addr@);
        }
    }

    /// Recomputes this layer's derived field: the payload length becomes
    /// the number of live bytes past the header.
    pub fn reconcile(&mut self)
        requires
            old(self).wf(),
        ensures
            final(self).wf(),
            final(self).spec_offset() == old(self).spec_offset(),
            final(self).spec_tailroom() == old(self).spec_tailroom(),
            final(self).bytes() == ipv6_reconciled(old(self).bytes(), old(self).spec_offset()),
    {
        proof {
            self.envelope.envelope.lemma_wf_bounds();
        }
        let pl = self.payload_len();
        self.set_payload_length(pl as u16);
    }

    /// Recomputes derived fields here and in every enclosing layer,
    /// innermost first.
    pub fn reconcile_all(&mut self)
        requires
            old(self).wf(),
        ensures
            final(self).wf(),
            final(self).spec_offset() == old(self).spec_offset(),
            final(self).spec_tailroom() == old(self).spec_tailroom(),
            final(self).bytes() == ipv6_reconciled(old(self).bytes(), old(self).spec_offset()),
    {
        self.reconcile();
        self.envelope.reconcile_all();
    }
}

/// Recomputing the IPv6 derived fields twice writes the same bytes as
/// doing it once.
pub proof fn lemma_ipv6_reconcile_idempotent(b: Seq<u8>, off: int)
    requires
        0 <= off,
        off + IPV6_HEADER_LEN <= b.len(),
    ensures
        ipv6_reconciled(ipv6_reconciled(b, off), off) == ipv6_reconciled(b, off),
{
    assert(ipv6_reconciled(ipv6_reconciled(b, off), off) =~= ipv6_reconciled(b, off));
}

/// Pushing an IPv6 layer and then removing it restores the envelope
/// bytes exactly, provided the frame already announced IPv6.
pub proof fn lemma_ipv6_push_remove_roundtrip(pre: Seq<u8>, mid: Seq<u8>, post: Seq<u8>)
    requires
        pre.len() >= ETHERNET_HEADER_LEN,
        pre[12] == be16_hi(ETHERTYPE_IPV6),
        pre[13] == be16_lo(ETHERTYPE_IPV6),
        ipv6_push_effect(pre, mid),
        shrink_effect(mid, post, ETHERNET_HEADER_LEN as int, IPV6_HEADER_LEN as int),
    ensures
        post == pre,
{
    assert forall|i: int| 0 <= i < pre.len() implies post[i] == pre[i] by {
        if i < 12 {
            assert(post[i] == mid[i]);
        } else if i < 14 {
            assert(post[i] == mid[i]);
        } else {
            assert(mid[i + IPV6_HEADER_LEN] == pre[i]);
            assert(post[(i + IPV6_HEADER_LEN) - IPV6_HEADER_LEN] == mid[i + IPV6_HEADER_LEN]);
        }
    }
    assert(post =~= pre);
}

} // verus!
