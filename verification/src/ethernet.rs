//! The Ethernet II layer: destination MAC (6 bytes), source MAC (6
//! bytes) and Ethertype (2 bytes, network order) at the front of the
//! buffer, followed by the payload of the announced protocol.

use crate::endian::{be16, be16_hi, be16_lo, u16_from_be_pair, u16_to_be_pair};
use crate::mbuf::{extend_effect, shrink_effect, zero_vec, BufferError, Mbuf};
use vstd::prelude::*;

verus! {

/// Width in bytes of an Ethernet II header.
pub const ETHERNET_HEADER_LEN: usize = 14;

/// The Ethertype announcing an IPv4 payload.
pub const ETHERTYPE_IPV4: u16 = 0x0800;

/// The Ethertype announcing an IPv6 payload.
pub const ETHERTYPE_IPV6: u16 = 0x86DD;

/// An Ethernet II view over a message buffer. The view never copies: it
/// records where in the buffer its header begins.
pub struct Ethernet {
    pub envelope: Mbuf,
    pub offset: usize,
}

/// How pushing an Ethernet layer changes the live bytes: a zeroed
/// 14-byte header opens at the front and the old bytes follow it.
pub open spec fn eth_push_effect(pre: Seq<u8>, post: Seq<u8>) -> bool {
    &&& post.len() == pre.len() + ETHERNET_HEADER_LEN
    &&& forall|i: int| 0 <= i < ETHERNET_HEADER_LEN ==> post[i] == 0
    &&& forall|i: int| 0 <= i < pre.len() ==> post[i + ETHERNET_HEADER_LEN] == pre[i]
}

impl Ethernet {
    /// The live bytes of the underlying buffer.
    pub open spec fn bytes(&self) -> Seq<u8> {
        self.envelope@
    }

    /// Byte index where this layer's header begins.
    pub open spec fn spec_offset(&self) -> int {
        self.offset as int
    }

    /// Free bytes behind the live region of the underlying buffer.
    pub open spec fn spec_tailroom(&self) -> int {
        self.envelope.spec_tailroom()
    }

    /// The view sits at the front of the buffer and its header fits in
    /// the live bytes.
    pub open spec fn wf(&self) -> bool {
        &&& self.envelope.wf()
        &&& self.offset == 0
        &&& self.spec_offset() + ETHERNET_HEADER_LEN <= self.bytes().len()
    }

    /// The Ethertype field, read in network order.
    pub open spec fn spec_ether_type(&self) -> u16 {
        be16(self.bytes()[self.spec_offset() + 12], self.bytes()[self.spec_offset() + 13])
    }

    /// Byte index where this layer's header begins.
    pub fn offset(&self) -> (r: usize)
        ensures
            r == self.spec_offset(),
    {
        self.offset
    }

    /// Bytes occupied by this layer's header.
    pub fn header_len(&self) -> (r: usize)
        ensures
            r == ETHERNET_HEADER_LEN,
    {
        ETHERNET_HEADER_LEN
    }

    /// Live bytes from this layer's header to the end of the packet.
    pub fn len(&self) -> (r: usize)
        requires
            self.wf(),
        ensures
            r == self.bytes().len() - self.spec_offset(),
    {
        self.envelope.data_len() - self.offset
    }

    /// Byte index where this layer's payload begins.
    pub fn payload_offset(&self) -> (r: usize)
        requires
            self.wf(),
        ensures
            r == self.spec_offset() + ETHERNET_HEADER_LEN,
    {
        self.offset + ETHERNET_HEADER_LEN
    }

    /// Live bytes past this layer's header.
    pub fn payload_len(&self) -> (r: usize)
        requires
            self.wf(),
        ensures
            r == self.bytes().len() - self.spec_offset() - ETHERNET_HEADER_LEN,
    {
        self.len() - ETHERNET_HEADER_LEN
    }

    /// Prepends a zeroed Ethernet header to the buffer's bytes.
    ///
    /// Refused, handing the buffer back unchanged, when the header does
    /// not fit in the tailroom.
    pub fn push(envelope: Mbuf) -> (r: Result<Ethernet, (BufferError, Mbuf)>)
        requires
            envelope.wf(),
        ensures
            match r {
                Ok(l) => {
                    &&& (ETHERNET_HEADER_LEN as int) < envelope.spec_tailroom()
                    &&& l.wf()
                    &&& l.spec_offset() == 0
                    &&& eth_push_effect(envelope@, l.bytes())
                    &&& l.spec_tailroom() == envelope.spec_tailroom() - ETHERNET_HEADER_LEN
                },
                Err((e, m)) => {
                    &&& e == BufferError::NotResized
                    &&& envelope.spec_tailroom() <= ETHERNET_HEADER_LEN
                    &&& m@ == envelope@
                    &&& m.wf()
                    &&& m.spec_tailroom() == envelope.spec_tailroom()
                },
            },
    {
        let mut m = envelope;
        match m.extend(0, ETHERNET_HEADER_LEN) {
            Err(e) => Err((e, m)),
            Ok(()) => {
                let ghost m1 = m;
                let hdr = zero_vec(ETHERNET_HEADER_LEN);
                m.write_bytes(0, hdr.as_slice());
                proof {
                    assert forall|i: int| 0 <= i < envelope@.len() implies m@[i
                        + ETHERNET_HEADER_LEN] == envelope@[i] by {
                        assert(m1@[i + ETHERNET_HEADER_LEN] == envelope@[i]);
                        assert(m@[i + ETHERNET_HEADER_LEN] == m1@[i + ETHERNET_HEADER_LEN]);
                    }
                    assert forall|i: int| 0 <= i < ETHERNET_HEADER_LEN implies m@[i] == 0 by {
                        assert(m@[0 + i] == hdr@[i]);
                    }
                }
                Ok(Ethernet { envelope: m, offset: 0 })
            },
        }
    }

    /// Interprets the front of the buffer as an Ethernet header, without
    /// touching any byte.
    ///
    /// Refused, handing the buffer back unchanged, when fewer than 14
    /// live bytes are present.
    pub fn parse(envelope: Mbuf) -> (r: Result<Ethernet, (BufferError, Mbuf)>)
        requires
            envelope.wf(),
        ensures
            match r {
                Ok(l) => {
                    &&& envelope@.len() >= ETHERNET_HEADER_LEN
                    &&& l.wf()
                    &&& l.spec_offset() == 0
                    &&& l.bytes() == envelope@
                    &&& l.spec_tailroom() == envelope.spec_tailroom()
                },
                Err((e, m)) => {
                    &&& envelope@.len() < ETHERNET_HEADER_LEN
                    &&& e == (if envelope@.len() == 0 {
                        BufferError::BadOffset(0, 0)
                    } else {
                        BufferError::OutOfBuffer(ETHERNET_HEADER_LEN, envelope@.len() as usize)
                    })
                    &&& m@ == envelope@
                    &&& m.wf()
                    &&& m.spec_tailroom() == envelope.spec_tailroom()
                },
            },
    {
        let n = envelope.data_len();
        if n == 0 {
            return Err((BufferError::BadOffset(0, n), envelope));
        }
        if n < ETHERNET_HEADER_LEN {
            return Err((BufferError::OutOfBuffer(ETHERNET_HEADER_LEN, n), envelope));
        }
        Ok(Ethernet { envelope, offset: 0 })
    }

    /// A view of the same frame over an observer copy of the buffer:
    /// dropping or mutating it cannot touch the original packet.
    pub fn observe(&self) -> (r: Ethernet)
        requires
            self.wf(),
        ensures
            r.wf(),
            r.bytes() == self.bytes(),
            r.spec_offset() == self.spec_offset(),
            r.spec_tailroom() == self.spec_tailroom(),
    {
        Ethernet { envelope: self.envelope.peek(), offset: self.offset }
    }

    /// Like `parse`, but observes the buffer without consuming it.
    pub fn peek(envelope: &Mbuf) -> (r: Result<Ethernet, BufferError>)
        requires
            envelope.wf(),
        ensures
            match r {
                Ok(l) => {
                    &&& envelope@.len() >= ETHERNET_HEADER_LEN
                    &&& l.wf()
                    &&& l.spec_offset() == 0
                    &&& l.bytes() == envelope@
                },
                Err(e) => {
                    &&& envelope@.len() < ETHERNET_HEADER_LEN
                    &&& e == (if envelope@.len() == 0 {
                        BufferError::BadOffset(0, 0)
                    } else {
                        BufferError::OutOfBuffer(ETHERNET_HEADER_LEN, envelope@.len() as usize)
                    })
                },
            },
    {
        match Ethernet::parse(envelope.peek()) {
            Ok(l) => Ok(l),
            Err((e, _)) => Err(e),
        }
    }

    /// Reverts the view without touching any byte.
    pub fn deparse(self) -> (r: Mbuf)
        requires
            self.wf(),
        ensures
            r.wf(),
            r@ == self.bytes(),
            r.spec_tailroom() == self.spec_tailroom(),
    {
        self.envelope
    }

    /// Discards the whole view chain and hands back the raw buffer.
    pub fn reset(self) -> (r: Mbuf)
        requires
            self.wf(),
        ensures
            r.wf(),
            r@ == self.bytes(),
            r.spec_tailroom() == self.spec_tailroom(),
    {
        self.envelope
    }

    /// Shrinks the header away and hands back the envelope.
    pub fn remove(self) -> (r: Mbuf)
        requires
            self.wf(),
        ensures
            r.wf(),
            shrink_effect(self.bytes(), r@, self.spec_offset(), ETHERNET_HEADER_LEN as int),
            r.spec_tailroom() == self.spec_tailroom() + ETHERNET_HEADER_LEN,
    {
        let mut m = self.envelope;
        let r = m.shrink(self.offset, ETHERNET_HEADER_LEN);
        proof {
            assert(r is Ok);
        }
        m
    }

    /// The Ethertype field, in host order.
    pub fn ether_type(&self) -> (r: u16)
        requires
            self.wf(),
        ensures
            r == self.spec_ether_type(),
    {
        u16_from_be_pair(self.envelope.byte_at(self.offset + 12), self.envelope.byte_at(
            self.offset + 13,
        ))
    }

    /// Writes the Ethertype field in network order.
    pub fn set_ether_type(&mut self, v: u16)
        requires
            old(self).wf(),
        ensures
            final(self).wf(),
            final(self).spec_offset() == old(self).spec_offset(),
            final(self).spec_tailroom() == old(self).spec_tailroom(),
            final(self).bytes() == old(self).bytes().update(
                old(self).spec_offset() + 12,
                be16_hi(v),
            ).update(old(self).spec_offset() + 13, be16_lo(v)),
            final(self).spec_ether_type() == v,
    {
        let (hi, lo) = u16_to_be_pair(v);
        self.envelope.set_byte(self.offset + 12, hi);
        self.envelope.set_byte(self.offset + 13, lo);
    }

    /// The destination MAC address, as its six bytes.
    pub fn dst(&self) -> (r: Vec<u8>)
        requires
            self.wf(),
        ensures
            r@ == self.bytes().subrange(self.spec_offset(), self.spec_offset() + 6),
    {
        self.envelope.read_bytes(self.offset, 6)
    }

    /// Writes the destination MAC address.
    pub fn set_dst(&mut self, mac: &[u8])
        requires
            old(self).wf(),
            mac@.len() == 6,
        ensures
            final(self).wf(),
            final(self).spec_offset() == old(self).spec_offset(),
            final(self).spec_tailroom() == old(self).spec_tailroom(),
            final(self).bytes().len() == old(self).bytes().len(),
            forall|i: int|
                0 <= i < 6 ==> final(self).bytes()[old(self).spec_offset() + i] == mac@[i],
            forall|i: int|
                0 <= i < old(self).bytes().len() && !(old(self).spec_offset() <= i < old(
                    self,
                ).spec_offset() + 6) ==> final(self).bytes()[i] == old(self).bytes()[i],
    {
        self.envelope.write_bytes(self.offset, mac);
    }

    /// The source MAC address, as its six bytes.
    pub fn src(&self) -> (r: Vec<u8>)
        requires
            self.wf(),
        ensures
            r@ == self.bytes().subrange(self.spec_offset() + 6, self.spec_offset() + 12),
    {
        self.envelope.read_bytes(self.offset + 6, 6)
    }

    /// Writes the source MAC address.
    pub fn set_src(&mut self, mac: &[u8])
        requires
            old(self).wf(),
            mac@.len() == 6,
        ensures
            final(self).wf(),
            final(self).spec_offset() == old(self).spec_offset(),
            final(self).spec_tailroom() == old(self).spec_tailroom(),
            final(self).bytes().len() == old(self).bytes().len(),
            forall|i: int|
                0 <= i < 6 ==> final(self).bytes()[old(self).spec_offset() + 6 + i] == mac@[i],
            forall|i: int|
                0 <= i < old(self).bytes().len() && !(old(self).spec_offset() + 6 <= i < old(
                    self,
                ).spec_offset() + 12) ==> final(self).bytes()[i] == old(self).bytes()[i],
    {
        self.envelope.write_bytes(self.offset + 6, mac);
    }

    /// Recomputes this layer's derived fields. An Ethernet header has
    /// none, so the bytes stay as they are.
    pub fn reconcile(&mut self)
        requires
            old(self).wf(),
        ensures
            *final(self) == *old(self),
    {
    }

    /// Recomputes derived fields here and in every enclosing layer. The
    /// buffer is the outermost layer, so this ends the cascade.
    pub fn reconcile_all(&mut self)
        requires
            old(self).wf(),
        ensures
            *final(self) == *old(self),
    {
        self.reconcile();
    }
}

/// Pushing an Ethernet layer and then removing it restores the envelope
/// bytes exactly.
pub proof fn lemma_eth_push_remove_roundtrip(pre: Seq<u8>, mid: Seq<u8>, post: Seq<u8>)
    requires
        eth_push_effect(pre, mid),
        shrink_effect(mid, post, 0, ETHERNET_HEADER_LEN as int),
    ensures
        post == pre,
{
    assert(extend_effect(pre, mid, 0, ETHERNET_HEADER_LEN as int));
    crate::mbuf::lemma_extend_then_shrink_inverse(pre, mid, post, 0, ETHERNET_HEADER_LEN as int);
}

} // verus!
