//! The ICMPv6 layer and its echo reply message. The common header is
//! four bytes: message type, code and a checksum that covers the whole
//! ICMPv6 segment together with a pseudo-header built from the enclosing
//! IPv6 addresses and payload length. The echo reply body holds a
//! 16-bit identifier and sequence number, both in network order, and an
//! opaque data tail.

use crate::checksum::{
    checksum16, fold16, lemma_stored_checksum_folds_to_all_ones, ocsum, sum16,
};
use crate::endian::{be16, be16_hi, be16_lo, u16_from_be_pair, u16_to_be_pair};
use crate::ethernet::ETHERNET_HEADER_LEN;
use crate::ipv6::{ipv6_reconciled, Ipv6, IPV6_HEADER_LEN, PROTOCOL_ICMPV6};
use crate::mbuf::{shrink_effect, zero_vec, BufferError, Mbuf};
use vstd::prelude::*;

verus! {

/// Width in bytes of the common ICMPv6 header.
pub const ICMPV6_HEADER_LEN: usize = 4;

/// The message type of an ICMPv6 echo reply.
pub const ICMPV6_ECHO_REPLY: u8 = 129;

/// An ICMPv6 view nested in an IPv6 packet.
pub struct Icmpv6 {
    pub envelope: Ipv6,
    pub offset: usize,
}

/// How pushing an ICMPv6 layer changes the live bytes: the IPv6
/// next-header is written, a zeroed common header opens at the IPv6
/// payload, and the old payload follows it. `off` is where the new
/// header begins; the next-header field sits 34 bytes before it.
pub open spec fn icmpv6_push_effect(pre: Seq<u8>, post: Seq<u8>, off: int) -> bool {
    &&& post.len() == pre.len() + ICMPV6_HEADER_LEN
    &&& forall|i: int| 0 <= i < off - 34 ==> post[i] == pre[i]
    &&& post[off - 34] == PROTOCOL_ICMPV6
    &&& forall|i: int| off - 33 <= i < off ==> post[i] == pre[i]
    &&& forall|i: int| off <= i < off + ICMPV6_HEADER_LEN ==> post[i] == 0
    &&& forall|i: int| off <= i < pre.len() ==> post[i + ICMPV6_HEADER_LEN] == pre[i]
}

/// The pseudo-header that the ICMPv6 checksum covers: source address,
/// destination address, the upper-layer length as four network-order
/// bytes, three zero bytes and the next-header number. `ip_off` is where
/// the IPv6 header begins.
pub open spec fn icmpv6_pseudo(b: Seq<u8>, ip_off: int) -> Seq<u8> {
    let len = b.len() - ip_off - IPV6_HEADER_LEN;
    b.subrange(ip_off + 8, ip_off + 40) + seq![
        ((len / 0x1000000) % 256) as u8,
        ((len / 0x10000) % 256) as u8,
        ((len / 256) % 256) as u8,
        (len % 256) as u8,
        0u8,
        0u8,
        0u8,
        PROTOCOL_ICMPV6,
    ]
}

/// The exact byte string whose one's-complement sum is the ICMPv6
/// checksum: the pseudo-header, then the ICMPv6 segment with its
/// checksum field read as zero. `off` is where the common header begins.
pub open spec fn icmpv6_checksum_input(b: Seq<u8>, off: int) -> Seq<u8> {
    let zeroed = b.update(off + 2, 0u8).update(off + 3, 0u8);
    icmpv6_pseudo(b, off - IPV6_HEADER_LEN) + zeroed.subrange(off, b.len() as int)
}

/// The bytes after this layer recomputes its derived field: the checksum
/// of the pseudo-header and segment lands in the checksum field.
pub open spec fn icmpv6_reconciled(b: Seq<u8>, off: int) -> Seq<u8> {
    let ck = ocsum(icmpv6_checksum_input(b, off));
    b.update(off + 2, be16_hi(ck)).update(off + 3, be16_lo(ck))
}

impl Icmpv6 {
    /// The live bytes of the underlying buffer.
    pub open spec fn bytes(&self) -> Seq<u8> {
        self.envelope.bytes()
    }

    /// Byte index where this layer's header begins.
    pub open spec fn spec_offset(&self) -> int {
        self.offset as int
    }

    /// Free bytes behind the live region of the underlying buffer.
    pub open spec fn spec_tailroom(&self) -> int {
        self.envelope.spec_tailroom()
    }

    /// The view begins exactly at its envelope's payload and its header
    /// fits in the live bytes.
    pub open spec fn wf(&self) -> bool {
        &&& self.envelope.wf()
        &&& self.offset == self.envelope.spec_offset() + IPV6_HEADER_LEN
        &&& self.spec_offset() + ICMPV6_HEADER_LEN <= self.bytes().len()
    }

    /// The message type field.
    pub open spec fn spec_msg_type(&self) -> u8 {
        self.bytes()[self.spec_offset()]
    }

    /// The code field.
    pub open spec fn spec_code(&self) -> u8 {
        self.bytes()[self.spec_offset() + 1]
    }

    /// The checksum field, read in network order.
    pub open spec fn spec_checksum(&self) -> u16 {
        be16(self.bytes()[self.spec_offset() + 2], self.bytes()[self.spec_offset() + 3])
    }

    /// Byte index where this layer's header begins.
    pub fn offset(&self) -> (r: usize)
        ensures
            r == self.spec_offset(),
    {
        self.offset
    }

    /// Bytes occupied by this layer's header.
    pub fn header_len(&self) -> (r: usize)
        ensures
            r == ICMPV6_HEADER_LEN,
    {
        ICMPV6_HEADER_LEN
    }

    /// Live bytes from this layer's header to the end of the packet.
    pub fn len(&self) -> (r: usize)
        requires
            self.wf(),
        ensures
            r == self.bytes().len() - self.spec_offset(),
    {
        self.envelope.envelope.envelope.data_len() - self.offset
    }

    /// Byte index where this layer's payload begins.
    pub fn payload_offset(&self) -> (r: usize)
        requires
            self.wf(),
        ensures
            r == self.spec_offset() + ICMPV6_HEADER_LEN,
    {
        self.offset + ICMPV6_HEADER_LEN
    }

    /// Live bytes past this layer's header.
    pub fn payload_len(&self) -> (r: usize)
        requires
            self.wf(),
        ensures
            r == self.bytes().len() - self.spec_offset() - ICMPV6_HEADER_LEN,
    {
        self.len() - ICMPV6_HEADER_LEN
    }

    /// Opens a zeroed common header at the IPv6 payload and announces it
    /// in the IPv6 next-header field.
    ///
    /// Refused, handing the envelope back unchanged, when the header does
    /// not fit in the tailroom.
    pub fn push(envelope: Ipv6) -> (r: Result<Icmpv6, (BufferError, Ipv6)>)
        requires
            envelope.wf(),
        ensures
            match r {
                Ok(l) => {
                    &&& (ICMPV6_HEADER_LEN as int) < envelope.spec_tailroom()
                    &&& l.wf()
                    &&& l.spec_offset() == envelope.spec_offset() + IPV6_HEADER_LEN
                    &&& icmpv6_push_effect(envelope.bytes(), l.bytes(), l.spec_offset())
                    &&& l.spec_tailroom() == envelope.spec_tailroom() - ICMPV6_HEADER_LEN
                },
                Err((e, env)) => {
                    &&& e == BufferError::NotResized
                    &&& envelope.spec_tailroom() <= ICMPV6_HEADER_LEN
                    &&& env.wf()
                    &&& env.bytes() == envelope.bytes()
                    &&& env.spec_offset() == envelope.spec_offset()
                    &&& env.spec_tailroom() == envelope.spec_tailroom()
                },
            },
    {
        let mut env = envelope;
        let off = env.payload_offset();
        match env.envelope.envelope.extend(off, ICMPV6_HEADER_LEN) {
            Err(e) => Err((e, env)),
            Ok(()) => {
                let ghost b1 = env.bytes();
                let hdr = zero_vec(ICMPV6_HEADER_LEN);
                env.envelope.envelope.write_bytes(off, hdr.as_slice());
                let ghost b2 = env.bytes();
                env.set_next_header(PROTOCOL_ICMPV6);
                proof {
                    assert forall|i: int| off <= i < off + ICMPV6_HEADER_LEN implies env.bytes()[i]
                        == 0 by {
                        assert(b2[off + (i - off)] == hdr@[i - off]);
                    }
                    assert forall|i: int|
                        off <= i < envelope.bytes().len() implies env.bytes()[i
                        + ICMPV6_HEADER_LEN] == envelope.bytes()[i] by {
                        assert(b1[i + ICMPV6_HEADER_LEN] == envelope.bytes()[i]);
                        assert(b2[i + ICMPV6_HEADER_LEN] == b1[i + ICMPV6_HEADER_LEN]);
                    }
                    assert forall|i: int|
                        0 <= i < off && i != off - 34 implies env.bytes()[i] == envelope.bytes()[i]
                    by {
                        assert(b1[i] == envelope.bytes()[i]);
                        assert(b2[i] == b1[i]);
                    }
                }
                Ok(Icmpv6 { envelope: env, offset: off })
            },
        }
    }

    /// Interprets the IPv6 payload as an ICMPv6 header, without touching
    /// any byte.
    ///
    /// Refused, handing the envelope back unchanged, when the next-header
    /// field does not announce ICMPv6 or fewer than 4 payload bytes are
    /// present.
    pub fn parse(envelope: Ipv6) -> (r: Result<Icmpv6, (BufferError, Ipv6)>)
        requires
            envelope.wf(),
        ensures
            match r {
                Ok(l) => {
                    &&& envelope.spec_next_header() == PROTOCOL_ICMPV6
                    &&& envelope.bytes().len() >= envelope.spec_offset() + IPV6_HEADER_LEN
                        + ICMPV6_HEADER_LEN
                    &&& l.wf()
                    &&& l.spec_offset() == envelope.spec_offset() + IPV6_HEADER_LEN
                    &&& l.bytes() == envelope.bytes()
                    &&& l.spec_tailroom() == envelope.spec_tailroom()
                },
                Err((e, env)) => {
                    &&& !(envelope.spec_next_header() == PROTOCOL_ICMPV6 && envelope.bytes().len()
                        >= envelope.spec_offset() + IPV6_HEADER_LEN + ICMPV6_HEADER_LEN)
                    &&& e == (if envelope.spec_next_header() != PROTOCOL_ICMPV6 {
                        BufferError::ParseMismatch
                    } else if envelope.bytes().len() == envelope.spec_offset()
                        + IPV6_HEADER_LEN {
                        BufferError::BadOffset(
                            (envelope.spec_offset() + IPV6_HEADER_LEN) as usize,
                            envelope.bytes().len() as usize,
                        )
                    } else {
                        BufferError::OutOfBuffer(
                            ICMPV6_HEADER_LEN,
                            (envelope.bytes().len() - envelope.spec_offset()
                                - IPV6_HEADER_LEN) as usize,
                        )
                    })
                    &&& env.wf()
                    &&& env.bytes() == envelope.bytes()
                    &&& env.spec_offset() == envelope.spec_offset()
                    &&& env.spec_tailroom() == envelope.spec_tailroom()
                },
            },
    {
        if envelope.next_header() != PROTOCOL_ICMPV6 {
            return Err((BufferError::ParseMismatch, envelope));
        }
        let off = envelope.payload_offset();
        let n = envelope.envelope.envelope.data_len();
        if off >= n {
            return Err((BufferError::BadOffset(off, n), envelope));
        }
        if ICMPV6_HEADER_LEN > n - off {
            return Err((BufferError::OutOfBuffer(ICMPV6_HEADER_LEN, n - off), envelope));
        }
        Ok(Icmpv6 { offset: off, envelope })
    }

    /// A view of the same packet over an observer copy of the buffer:
    /// dropping or mutating it cannot touch the original packet.
    pub fn observe(&self) -> (r: Icmpv6)
        requires
            self.wf(),
        ensures
            r.wf(),
            r.bytes() == self.bytes(),
            r.spec_offset() == self.spec_offset(),
            r.spec_tailroom() == self.spec_tailroom(),
    {
        Icmpv6 { envelope: self.envelope.observe(), offset: self.offset }
    }

    /// Like `parse`, but observes the packet without consuming it.
    pub fn peek(envelope: &Ipv6) -> (r: Result<Icmpv6, BufferError>)
        requires
            envelope.wf(),
        ensures
            match r {
                Ok(l) => {
                    &&& envelope.spec_next_header() == PROTOCOL_ICMPV6
                    &&& envelope.bytes().len() >= envelope.spec_offset() + IPV6_HEADER_LEN
                        + ICMPV6_HEADER_LEN
                    &&& l.wf()
                    &&& l.spec_offset() == envelope.spec_offset() + IPV6_HEADER_LEN
                    &&& l.bytes() == envelope.bytes()
                },
                Err(e) => {
                    &&& !(envelope.spec_next_header() == PROTOCOL_ICMPV6 && envelope.bytes().len()
                        >= envelope.spec_offset() + IPV6_HEADER_LEN + ICMPV6_HEADER_LEN)
                    &&& e == (if envelope.spec_next_header() != PROTOCOL_ICMPV6 {
                        BufferError::ParseMismatch
                    } else if envelope.bytes().len() == envelope.spec_offset()
                        + IPV6_HEADER_LEN {
                        BufferError::BadOffset(
                            (envelope.spec_offset() + IPV6_HEADER_LEN) as usize,
                            envelope.bytes().len() as usize,
                        )
                    } else {
                        BufferError::OutOfBuffer(
                            ICMPV6_HEADER_LEN,
                            (envelope.bytes().len() - envelope.spec_offset()
                                - IPV6_HEADER_LEN) as usize,
                        )
                    })
                },
            },
    {
        match Icmpv6::parse(envelope.observe()) {
            Ok(l) => Ok(l),
            Err((e, _)) => Err(e),
        }
    }

    /// Reverts the view to its envelope without touching any byte.
    pub fn deparse(self) -> (r: Ipv6)
        requires
            self.wf(),
        ensures
            r.wf(),
            r.bytes() == self.bytes(),
            r.spec_offset() == self.spec_offset() - IPV6_HEADER_LEN,
            r.spec_tailroom() == self.spec_tailroom(),
    {
        self.envelope
    }

    /// Discards the whole view chain and hands back the raw buffer.
    pub fn reset(self) -> (r: Mbuf)
        requires
            self.wf(),
        ensures
            r.wf(),
            r@ == self.bytes(),
            r.spec_tailroom() == self.spec_tailroom(),
    {
        self.envelope.reset()
    }

    /// Shrinks the common header away and hands back the envelope.
    pub fn remove(self) -> (r: Ipv6)
        requires
            self.wf(),
        ensures
            r.wf(),
            shrink_effect(self.bytes(), r.bytes(), self.spec_offset(), ICMPV6_HEADER_LEN as int),
            r.spec_offset() == self.spec_offset() - IPV6_HEADER_LEN,
            r.spec_tailroom() == self.spec_tailroom() + ICMPV6_HEADER_LEN,
    {
        let mut env = self.envelope;
        let rr = env.envelope.envelope.shrink(self.offset, ICMPV6_HEADER_LEN);
        proof {
            assert(rr is Ok);
        }
        env
    }

    /// The message type field.
    pub fn msg_type(&self) -> (r: u8)
        requires
            self.wf(),
        ensures
            r == self.spec_msg_type(),
    {
        self.envelope.envelope.envelope.byte_at(self.offset)
    }

    /// Writes the message type field.
    pub fn set_msg_type(&mut self, v: u8)
        requires
            old(self).wf(),
        ensures
            final(self).wf(),
            final(self).spec_offset() == old(self).spec_offset(),
            final(self).spec_tailroom() == old(self).spec_tailroom(),
            final(self).bytes() == old(self).bytes().update(old(self).spec_offset(), v),
            final(self).spec_msg_type() == v,
    {
        self.envelope.envelope.envelope.set_byte(self.offset, v);
    }

    /// The code field.
    pub fn code(&self) -> (r: u8)
        requires
            self.wf(),
        ensures
            r == self.spec_code(),
    {
        self.envelope.envelope.envelope.byte_at(self.offset + 1)
    }

    /// Writes the code field.
    pub fn set_code(&mut self, v: u8)
        requires
            old(self).wf(),
        ensures
            final(self).wf(),
            final(self).spec_offset() == old(self).spec_offset(),
            final(self).spec_tailroom() == old(self).spec_tailroom(),
            final(self).bytes() == old(self).bytes().update(old(self).spec_offset() + 1, v),
            final(self).spec_code() == v,
    {
        self.envelope.envelope.envelope.set_byte(self.offset + 1, v);
    }

    /// The checksum field, in host order.
    pub fn checksum(&self) -> (r: u16)
        requires
            self.wf(),
        ensures
            r == self.spec_checksum(),
    {
        u16_from_be_pair(
            self.envelope.envelope.envelope.byte_at(self.offset + 2),
            self.envelope.envelope.envelope.byte_at(self.offset + 3),
        )
    }

    /// Recomputes the checksum field from the pseudo-header and the
    /// ICMPv6 segment, reading the field itself as zero.
    pub fn compute_checksum(&mut self)
        requires
            old(self).wf(),
        ensures
            final(self).wf(),
            final(self).spec_offset() == old(self).spec_offset(),
            final(self).spec_tailroom() == old(self).spec_tailroom(),
            final(self).bytes() == icmpv6_reconciled(old(self).bytes(), old(self).spec_offset()),
    {
        proof {
            self.envelope.envelope.envelope.lemma_wf_bounds();
        }
        let off = self.offset;
        let ip_off = self.envelope.offset;
        // read the field as zero while summing
        self.envelope.envelope.envelope.set_byte(off + 2, 0);
        self.envelope.envelope.envelope.set_byte(off + 3, 0);
        let ghost zeroed = self.bytes();
        let n = self.envelope.envelope.envelope.data_len();
        let seg_len = n - off;
        let mut input = self.envelope.envelope.envelope.read_bytes(ip_off + 8, 32);
        input.push(((seg_len / 0x1000000) % 256) as u8);
        input.push(((seg_len / 0x10000) % 256) as u8);
        input.push(((seg_len / 256) % 256) as u8);
        input.push((seg_len % 256) as u8);
        input.push(0u8);
        input.push(0u8);
        input.push(0u8);
        input.push(PROTOCOL_ICMPV6);
        let mut seg = self.envelope.envelope.envelope.read_bytes(off, seg_len);
        input.append(&mut seg);
        proof {
            assert(icmpv6_pseudo(old(self).bytes(), off - IPV6_HEADER_LEN) =~= input@.take(40));
            assert(zeroed.subrange(off as int, zeroed.len() as int) =~= input@.skip(40));
            assert(zeroed =~= old(self).bytes().update(off + 2, 0u8).update(off + 3, 0u8));
            assert(icmpv6_checksum_input(old(self).bytes(), off as int) =~= input@);
        }
        let ck = checksum16(&input);
        let (hi, lo) = u16_to_be_pair(ck);
        self.envelope.envelope.envelope.set_byte(off + 2, hi);
        self.envelope.envelope.envelope.set_byte(off + 3, lo);
        proof {
            assert(self.bytes() =~= icmpv6_reconciled(old(self).bytes(), off as int));
        }
    }

    /// Recomputes this layer's derived field, the checksum.
    pub fn reconcile(&mut self)
        requires
            old(self).wf(),
        ensures
            final(self).wf(),
            final(self).spec_offset() == old(self).spec_offset(),
            final(self).spec_tailroom() == old(self).spec_tailroom(),
            final(self).bytes() == icmpv6_reconciled(old(self).bytes(), old(self).spec_offset()),
    {
        self.compute_checksum();
    }

    /// Recomputes derived fields here and in every enclosing layer,
    /// innermost first, so the IPv6 length field is written after the
    /// checksum is in place.
    pub fn reconcile_all(&mut self)
        requires
            old(self).wf(),
        ensures
            final(self).wf(),
            final(self).spec_offset() == old(self).spec_offset(),
            final(self).spec_tailroom() == old(self).spec_tailroom(),
            final(self).bytes() == ipv6_reconciled(
                icmpv6_reconciled(old(self).bytes(), old(self).spec_offset()),
                old(self).spec_offset() - IPV6_HEADER_LEN,
            ),
    {
        self.compute_checksum();
        self.envelope.reconcile_all();
    }
}

/// The fixed body of an echo reply message: identifier and sequence
/// number, each two network-order bytes on the wire.
#[derive(Clone, Copy, Debug, Default, PartialEq, Eq, Structural)]
pub struct EchoReplyBody {
    pub identifier: u16,
    pub seq_no: u16,
}

impl EchoReplyBody {
    /// Bytes the body occupies on the wire.
    pub open spec fn spec_size_of() -> int {
        4
    }

    /// Bytes the body occupies on the wire.
    pub fn size_of() -> (r: usize)
        ensures
            r == EchoReplyBody::spec_size_of(),
    {
        4
    }
}

/// How pushing an echo reply changes the live bytes: the message type is
/// written into the common header at `off`, and a zeroed body opens at
/// the common header's payload.
pub open spec fn echo_reply_push_effect(pre: Seq<u8>, post: Seq<u8>, off: int) -> bool {
    &&& post.len() == pre.len() + EchoReplyBody::spec_size_of()
    &&& forall|i: int| 0 <= i < off ==> post[i] == pre[i]
    &&& post[off] == ICMPV6_ECHO_REPLY
    &&& forall|i: int| off + 1 <= i < off + ICMPV6_HEADER_LEN ==> post[i] == pre[i]
    &&& forall|i: int| off + 4 <= i < off + 8 ==> post[i] == 0
    &&& forall|i: int|
        off + 4 <= i < pre.len() ==> post[i + EchoReplyBody::spec_size_of()] == pre[i]
}

/// An echo reply message over an ICMPv6 layer: the common header, the
/// fixed body, then an opaque data tail to the end of the packet.
pub struct EchoReply {
    pub icmp: Icmpv6,
}

impl EchoReply {
    /// The live bytes of the underlying buffer.
    pub open spec fn bytes(&self) -> Seq<u8> {
        self.icmp.bytes()
    }

    /// Byte index where the common header begins.
    pub open spec fn spec_offset(&self) -> int {
        self.icmp.spec_offset()
    }

    /// Free bytes behind the live region of the underlying buffer.
    pub open spec fn spec_tailroom(&self) -> int {
        self.icmp.spec_tailroom()
    }

    /// The common header announces an echo reply and the fixed body fits
    /// in the live bytes.
    pub open spec fn wf(&self) -> bool {
        &&& self.icmp.wf()
        &&& self.icmp.spec_msg_type() == ICMPV6_ECHO_REPLY
        &&& self.spec_offset() + ICMPV6_HEADER_LEN + EchoReplyBody::spec_size_of()
            <= self.bytes().len()
    }

    /// Byte index where the data tail begins.
    pub open spec fn spec_data_offset(&self) -> int {
        self.spec_offset() + ICMPV6_HEADER_LEN + EchoReplyBody::spec_size_of()
    }

    /// The identifier field, read in network order.
    pub open spec fn spec_identifier(&self) -> u16 {
        be16(self.bytes()[self.spec_offset() + 4], self.bytes()[self.spec_offset() + 5])
    }

    /// The sequence number field, read in network order.
    pub open spec fn spec_seq_no(&self) -> u16 {
        be16(self.bytes()[self.spec_offset() + 6], self.bytes()[self.spec_offset() + 7])
    }

    /// The data tail.
    pub open spec fn spec_data(&self) -> Seq<u8> {
        self.bytes().subrange(self.spec_data_offset(), self.bytes().len() as int)
    }

    /// Byte index where the common header begins.
    pub fn offset(&self) -> (r: usize)
        ensures
            r == self.spec_offset(),
    {
        self.icmp.offset()
    }

    /// Bytes occupied by the common header.
    pub fn header_len(&self) -> (r: usize)
        ensures
            r == ICMPV6_HEADER_LEN,
    {
        self.icmp.header_len()
    }

    /// Live bytes from the common header to the end of the packet.
    pub fn len(&self) -> (r: usize)
        requires
            self.wf(),
        ensures
            r == self.bytes().len() - self.spec_offset(),
    {
        self.icmp.len()
    }

    /// Byte index where the message body begins.
    pub fn payload_offset(&self) -> (r: usize)
        requires
            self.wf(),
        ensures
            r == self.spec_offset() + ICMPV6_HEADER_LEN,
    {
        self.icmp.payload_offset()
    }

    /// Live bytes past the common header: the body and the data tail.
    pub fn payload_len(&self) -> (r: usize)
        requires
            self.wf(),
        ensures
            r == self.bytes().len() - self.spec_offset() - ICMPV6_HEADER_LEN,
    {
        self.icmp.payload_len()
    }

    /// Prepends a zeroed echo reply body to the ICMPv6 payload and writes
    /// the message type into the common header.
    ///
    /// Refused, handing the envelope back unchanged, when the body does
    /// not fit in the tailroom.
    pub fn push(icmp: Icmpv6) -> (r: Result<EchoReply, (BufferError, Icmpv6)>)
        requires
            icmp.wf(),
        ensures
            match r {
                Ok(l) => {
                    &&& EchoReplyBody::spec_size_of() < icmp.spec_tailroom()
                    &&& l.wf()
                    &&& l.spec_offset() == icmp.spec_offset()
                    &&& echo_reply_push_effect(icmp.bytes(), l.bytes(), icmp.spec_offset())
                    &&& l.spec_tailroom() == icmp.spec_tailroom() - EchoReplyBody::spec_size_of()
                },
                Err((e, env)) => {
                    &&& e == BufferError::NotResized
                    &&& icmp.spec_tailroom() <= EchoReplyBody::spec_size_of()
                    &&& env.wf()
                    &&& env.bytes() == icmp.bytes()
                    &&& env.spec_offset() == icmp.spec_offset()
                    &&& env.spec_tailroom() == icmp.spec_tailroom()
                },
            },
    {
        let mut env = icmp;
        let off = env.payload_offset();
        match env.envelope.envelope.envelope.extend(off, EchoReplyBody::size_of()) {
            Err(e) => Err((e, env)),
            Ok(()) => {
                let ghost b1 = env.bytes();
                let hdr = zero_vec(EchoReplyBody::size_of());
                env.envelope.envelope.envelope.write_bytes(off, hdr.as_slice());
                let ghost b2 = env.bytes();
                env.set_msg_type(ICMPV6_ECHO_REPLY);
                proof {
                    assert forall|i: int| off <= i < off + 4 implies env.bytes()[i] == 0 by {
                        assert(b2[off + (i - off)] == hdr@[i - off]);
                    }
                    assert forall|i: int|
                        off <= i < icmp.bytes().len() implies env.bytes()[i + 4] == icmp.bytes()[i]
                    by {
                        assert(b1[i + 4] == icmp.bytes()[i]);
                        assert(b2[i + 4] == b1[i + 4]);
                    }
                    assert forall|i: int|
                        0 <= i < off && i != icmp.spec_offset() implies env.bytes()[i]
                        == icmp.bytes()[i] by {
                        assert(b1[i] == icmp.bytes()[i]);
                        assert(b2[i] == b1[i]);
                    }
                }
                Ok(EchoReply { icmp: env })
            },
        }
    }

    /// Interprets the ICMPv6 payload as an echo reply body, without
    /// touching any byte.
    ///
    /// Refused, handing the ICMPv6 layer back unchanged, when the message
    /// type is not an echo reply or the body does not fit in the payload.
    pub fn parse(icmp: Icmpv6) -> (r: Result<EchoReply, (BufferError, Icmpv6)>)
        requires
            icmp.wf(),
        ensures
            match r {
                Ok(l) => {
                    &&& icmp.spec_msg_type() == ICMPV6_ECHO_REPLY
                    &&& icmp.bytes().len() >= icmp.spec_offset() + ICMPV6_HEADER_LEN
                        + EchoReplyBody::spec_size_of()
                    &&& l.wf()
                    &&& l.spec_offset() == icmp.spec_offset()
                    &&& l.bytes() == icmp.bytes()
                    &&& l.spec_tailroom() == icmp.spec_tailroom()
                },
                Err((e, env)) => {
                    &&& !(icmp.spec_msg_type() == ICMPV6_ECHO_REPLY && icmp.bytes().len()
                        >= icmp.spec_offset() + ICMPV6_HEADER_LEN
                        + EchoReplyBody::spec_size_of())
                    &&& e == (if icmp.spec_msg_type() != ICMPV6_ECHO_REPLY {
                        BufferError::ParseMismatch
                    } else if icmp.bytes().len() == icmp.spec_offset() + ICMPV6_HEADER_LEN {
                        BufferError::BadOffset(
                            (icmp.spec_offset() + ICMPV6_HEADER_LEN) as usize,
                            icmp.bytes().len() as usize,
                        )
                    } else {
                        BufferError::OutOfBuffer(
                            EchoReplyBody::spec_size_of() as usize,
                            (icmp.bytes().len() - icmp.spec_offset()
                                - ICMPV6_HEADER_LEN) as usize,
                        )
                    })
                    &&& env.wf()
                    &&& env.bytes() == icmp.bytes()
                    &&& env.spec_offset() == icmp.spec_offset()
                    &&& env.spec_tailroom() == icmp.spec_tailroom()
                },
            },
    {
        if icmp.msg_type() != ICMPV6_ECHO_REPLY {
            return Err((BufferError::ParseMismatch, icmp));
        }
        let off = icmp.payload_offset();
        let n = icmp.envelope.envelope.envelope.data_len();
        if off >= n {
            return Err((BufferError::BadOffset(off, n), icmp));
        }
        if EchoReplyBody::size_of() > n - off {
            return Err((BufferError::OutOfBuffer(EchoReplyBody::size_of(), n - off), icmp));
        }
        Ok(EchoReply { icmp })
    }

    /// Like `parse`, but observes the layer without consuming it: the
    /// message reads an observer copy of the buffer, so dropping it
    /// cannot touch the original packet.
    pub fn peek(icmp: &Icmpv6) -> (r: Result<EchoReply, BufferError>)
        requires
            icmp.wf(),
        ensures
            match r {
                Ok(l) => {
                    &&& icmp.spec_msg_type() == ICMPV6_ECHO_REPLY
                    &&& icmp.bytes().len() >= icmp.spec_offset() + ICMPV6_HEADER_LEN
                        + EchoReplyBody::spec_size_of()
                    &&& l.wf()
                    &&& l.spec_offset() == icmp.spec_offset()
                    &&& l.bytes() == icmp.bytes()
                },
                Err(e) => {
                    &&& !(icmp.spec_msg_type() == ICMPV6_ECHO_REPLY && icmp.bytes().len()
                        >= icmp.spec_offset() + ICMPV6_HEADER_LEN
                        + EchoReplyBody::spec_size_of())
                    &&& e == (if icmp.spec_msg_type() != ICMPV6_ECHO_REPLY {
                        BufferError::ParseMismatch
                    } else if icmp.bytes().len() == icmp.spec_offset() + ICMPV6_HEADER_LEN {
                        BufferError::BadOffset(
                            (icmp.spec_offset() + ICMPV6_HEADER_LEN) as usize,
                            icmp.bytes().len() as usize,
                        )
                    } else {
                        BufferError::OutOfBuffer(
                            EchoReplyBody::spec_size_of() as usize,
                            (icmp.bytes().len() - icmp.spec_offset()
                                - ICMPV6_HEADER_LEN) as usize,
                        )
                    })
                },
            },
    {
        match EchoReply::parse(icmp.observe()) {
            Ok(l) => Ok(l),
            Err((e, _)) => Err(e),
        }
    }

    /// Reverts the view to the bare ICMPv6 layer without touching any
    /// byte.
    pub fn into_icmp(self) -> (r: Icmpv6)
        ensures
            r == self.icmp,
    {
        self.icmp
    }

    /// Reverts the view to the bare ICMPv6 layer without touching any
    /// byte.
    pub fn deparse(self) -> (r: Icmpv6)
        ensures
            r == self.icmp,
    {
        self.icmp
    }

    /// Discards the whole view chain and hands back the raw buffer.
    pub fn reset(self) -> (r: Mbuf)
        requires
            self.wf(),
        ensures
            r.wf(),
            r@ == self.bytes(),
            r.spec_tailroom() == self.spec_tailroom(),
    {
        self.icmp.reset()
    }

    /// Shrinks the common header away and hands back the IPv6 envelope.
    /// The body and data stay behind as the IPv6 payload.
    pub fn remove(self) -> (r: Ipv6)
        requires
            self.wf(),
        ensures
            r.wf(),
            shrink_effect(self.bytes(), r.bytes(), self.spec_offset(), ICMPV6_HEADER_LEN as int),
            r.spec_offset() == self.spec_offset() - IPV6_HEADER_LEN,
            r.spec_tailroom() == self.spec_tailroom() + ICMPV6_HEADER_LEN,
    {
        self.icmp.remove()
    }

    /// The message type field.
    pub fn msg_type(&self) -> (r: u8)
        requires
            self.wf(),
        ensures
            r == ICMPV6_ECHO_REPLY,
    {
        self.icmp.msg_type()
    }

    /// The code field.
    pub fn code(&self) -> (r: u8)
        requires
            self.wf(),
        ensures
            r == self.icmp.spec_code(),
    {
        self.icmp.code()
    }

    /// The checksum field, in host order.
    pub fn checksum(&self) -> (r: u16)
        requires
            self.wf(),
        ensures
            r == self.icmp.spec_checksum(),
    {
        self.icmp.checksum()
    }

    /// The identifier field, in host order.
    pub fn identifier(&self) -> (r: u16)
        requires
            self.wf(),
        ensures
            r == self.spec_identifier(),
    {
        u16_from_be_pair(
            self.icmp.envelope.envelope.envelope.byte_at(self.icmp.offset + 4),
            self.icmp.envelope.envelope.envelope.byte_at(self.icmp.offset + 5),
        )
    }

    /// Writes the identifier field in network order.
    pub fn set_identifier(&mut self, identifier: u16)
        requires
            old(self).wf(),
        ensures
            final(self).wf(),
            final(self).spec_offset() == old(self).spec_offset(),
            final(self).spec_tailroom() == old(self).spec_tailroom(),
            final(self).bytes() == old(self).bytes().update(
                old(self).spec_offset() + 4,
                be16_hi(identifier),
            ).update(old(self).spec_offset() + 5, be16_lo(identifier)),
            final(self).spec_identifier() == identifier,
    {
        let (hi, lo) = u16_to_be_pair(identifier);
        self.icmp.envelope.envelope.envelope.set_byte(self.icmp.offset + 4, hi);
        self.icmp.envelope.envelope.envelope.set_byte(self.icmp.offset + 5, lo);
    }

    /// The sequence number field, in host order.
    pub fn seq_no(&self) -> (r: u16)
        requires
            self.wf(),
        ensures
            r == self.spec_seq_no(),
    {
        u16_from_be_pair(
            self.icmp.envelope.envelope.envelope.byte_at(self.icmp.offset + 6),
            self.icmp.envelope.envelope.envelope.byte_at(self.icmp.offset + 7),
        )
    }

    /// Writes the sequence number field in network order.
    pub fn set_seq_no(&mut self, seq_no: u16)
        requires
            old(self).wf(),
        ensures
            final(self).wf(),
            final(self).spec_offset() == old(self).spec_offset(),
            final(self).spec_tailroom() == old(self).spec_tailroom(),
            final(self).bytes() == old(self).bytes().update(
                old(self).spec_offset() + 6,
                be16_hi(seq_no),
            ).update(old(self).spec_offset() + 7, be16_lo(seq_no)),
            final(self).spec_seq_no() == seq_no,
    {
        let (hi, lo) = u16_to_be_pair(seq_no);
        self.icmp.envelope.envelope.envelope.set_byte(self.icmp.offset + 6, hi);
        self.icmp.envelope.envelope.envelope.set_byte(self.icmp.offset + 7, lo);
    }

    /// Byte index where the data tail begins.
    pub fn data_offset(&self) -> (r: usize)
        requires
            self.wf(),
        ensures
            r == self.spec_data_offset(),
    {
        self.payload_offset() + EchoReplyBody::size_of()
    }

    /// Length of the data tail.
    pub fn data_len(&self) -> (r: usize)
        requires
            self.wf(),
        ensures
            r == self.bytes().len() - self.spec_data_offset(),
    {
        self.payload_len() - EchoReplyBody::size_of()
    }

    /// The data tail, copied out.
    pub fn data(&self) -> (r: Vec<u8>)
        requires
            self.wf(),
        ensures
            r@ == self.spec_data(),
    {
        let doff = self.data_offset();
        let n = self.data_len();
        self.icmp.envelope.envelope.envelope.read_bytes(doff, n)
    }

    /// Replaces the data tail, resizing it to `data`'s length first.
    ///
    /// Refused, leaving the bytes unchanged, when growth does not fit in
    /// the tailroom, or when the tail already has exactly the wanted
    /// length and the resize has nothing to do.
    pub fn set_data(&mut self, data: &[u8]) -> (r: Result<(), BufferError>)
        requires
            old(self).wf(),
        ensures
            final(self).wf(),
            final(self).spec_offset() == old(self).spec_offset(),
            match r {
                Ok(()) => {
                    &&& final(self).bytes().len() == old(self).spec_data_offset() + data@.len()
                    &&& forall|i: int|
                        0 <= i < old(self).spec_data_offset() ==> final(self).bytes()[i] == old(
                            self,
                        ).bytes()[i]
                    &&& final(self).spec_data() == data@
                    &&& final(self).spec_tailroom() == old(self).spec_tailroom() + (old(
                        self,
                    ).bytes().len() - old(self).spec_data_offset()) - data@.len()
                },
                Err(e) => {
                    &&& e == BufferError::NotResized
                    &&& {
                        let cur = old(self).bytes().len() - old(self).spec_data_offset();
                        data@.len() == cur || (data@.len() > cur && data@.len() - cur >= old(
                            self,
                        ).spec_tailroom())
                    }
                    &&& final(self).bytes() == old(self).bytes()
                    &&& final(self).spec_tailroom() == old(self).spec_tailroom()
                },
            },
    {
        let doff = self.data_offset();
        let cur = self.data_len();
        let n = data.len();
        let resized = if n >= cur {
            self.icmp.envelope.envelope.envelope.extend(doff, n - cur)
        } else {
            self.icmp.envelope.envelope.envelope.shrink(doff, cur - n)
        };
        match resized {
            Err(e) => Err(e),
            Ok(()) => {
                let ghost b1 = self.bytes();
                self.icmp.envelope.envelope.envelope.write_bytes(doff, data);
                proof {
                    assert forall|i: int| 0 <= i < doff implies self.bytes()[i] == old(
                        self,
                    ).bytes()[i] by {
                        assert(b1[i] == old(self).bytes()[i]);
                        assert(self.bytes()[i] == b1[i]);
                    }
                    assert(self.spec_data() =~= data@);
                }
                Ok(())
            },
        }
    }

    /// Recomputes this message's derived field, the checksum in the
    /// common header.
    pub fn reconcile(&mut self)
        requires
            old(self).wf(),
        ensures
            final(self).wf(),
            final(self).spec_offset() == old(self).spec_offset(),
            final(self).spec_tailroom() == old(self).spec_tailroom(),
            final(self).bytes() == icmpv6_reconciled(old(self).bytes(), old(self).spec_offset()),
    {
        self.icmp.compute_checksum();
    }

    /// Recomputes derived fields here and in every enclosing layer,
    /// innermost first: the checksum is written before the IPv6 payload
    /// length.
    pub fn reconcile_all(&mut self)
        requires
            old(self).wf(),
        ensures
            final(self).wf(),
            final(self).spec_offset() == old(self).spec_offset(),
            final(self).spec_tailroom() == old(self).spec_tailroom(),
            final(self).bytes() == ipv6_reconciled(
                icmpv6_reconciled(old(self).bytes(), old(self).spec_offset()),
                old(self).spec_offset() - IPV6_HEADER_LEN,
            ),
    {
        self.icmp.reconcile_all();
    }
}

/// In a well-formed echo reply chain the layer offsets strictly increase
/// from the Ethernet header on, and the innermost header and body still
/// fit in the live bytes.
pub proof fn lemma_offsets_monotone_v6(e: &EchoReply)
    requires
        e.wf(),
    ensures
        e.icmp.envelope.envelope.spec_offset() == 0,
        e.icmp.envelope.envelope.spec_offset() < e.icmp.envelope.spec_offset(),
        e.icmp.envelope.spec_offset() < e.icmp.spec_offset(),
        e.icmp.spec_offset() + ICMPV6_HEADER_LEN + EchoReplyBody::spec_size_of()
            <= e.bytes().len(),
{
}

/// Pushing a bare ICMPv6 layer and then removing it restores the
/// envelope bytes exactly, provided the IPv6 header already announced
/// ICMPv6 in its next-header field.
pub proof fn lemma_icmpv6_push_remove_roundtrip(pre: Seq<u8>, mid: Seq<u8>, post: Seq<u8>, off: int)
    requires
        34 <= off <= pre.len(),
        pre[off - 34] == PROTOCOL_ICMPV6,
        icmpv6_push_effect(pre, mid, off),
        shrink_effect(mid, post, off, ICMPV6_HEADER_LEN as int),
    ensures
        post == pre,
{
    assert forall|i: int| 0 <= i < pre.len() implies post[i] == pre[i] by {
        if i < off {
            assert(post[i] == mid[i]);
        } else {
            assert(mid[i + ICMPV6_HEADER_LEN] == pre[i]);
            assert(post[(i + ICMPV6_HEADER_LEN) - ICMPV6_HEADER_LEN] == mid[i
                + ICMPV6_HEADER_LEN]);
        }
    }
    assert(post =~= pre);
}

/// Running the whole reconciliation cascade twice writes exactly the
/// bytes that one run writes: the checksum is computed over the packet
/// with its checksum field read as zero, and the IPv6 length field is
/// outside both the pseudo-header and the segment it covers.
pub proof fn lemma_reconcile_all_idempotent_v6(b: Seq<u8>, off: int)
    requires
        ETHERNET_HEADER_LEN + IPV6_HEADER_LEN <= off,
        off + ICMPV6_HEADER_LEN <= b.len(),
    ensures
        ({
            let once = ipv6_reconciled(icmpv6_reconciled(b, off), off - IPV6_HEADER_LEN);
            ipv6_reconciled(icmpv6_reconciled(once, off), off - IPV6_HEADER_LEN) == once
        }),
{
    let ip_off = off - IPV6_HEADER_LEN;
    let b1 = icmpv6_reconciled(b, off);
    let b2 = ipv6_reconciled(b1, ip_off);
    // the second checksum run sees the same input bytes
    assert(icmpv6_pseudo(b2, ip_off) =~= icmpv6_pseudo(b, ip_off));
    assert(b2.update(off + 2, 0u8).update(off + 3, 0u8).subrange(off, b2.len() as int) =~= b.update(
        off + 2,
        0u8,
    ).update(off + 3, 0u8).subrange(off, b.len() as int));
    assert(icmpv6_checksum_input(b2, off) =~= icmpv6_checksum_input(b, off));
    // so it writes the same checksum, which is already in place
    let ck = ocsum(icmpv6_checksum_input(b, off));
    assert(b2[off + 2] == be16_hi(ck) && b2[off + 3] == be16_lo(ck));
    assert(icmpv6_reconciled(b2, off) =~= b2);
    // and the length field write repeats the value already in place
    assert(ipv6_reconciled(b2, ip_off) =~= b2);
    assert(ipv6_reconciled(icmpv6_reconciled(b2, off), ip_off) =~= b2);
}

/// After one reconciliation, the stored checksum field is exactly the
/// one's-complement checksum of the pseudo-header and the segment with
/// the field read as zero, computed over the reconciled bytes
/// themselves.
pub proof fn lemma_checksum_validates_v6(b: Seq<u8>, off: int)
    requires
        ETHERNET_HEADER_LEN + IPV6_HEADER_LEN <= off,
        off + ICMPV6_HEADER_LEN <= b.len(),
    ensures
        ({
            let b1 = icmpv6_reconciled(b, off);
            be16(b1[off + 2], b1[off + 3]) == ocsum(icmpv6_checksum_input(b1, off))
        }),
{
    let b1 = icmpv6_reconciled(b, off);
    assert(icmpv6_pseudo(b1, off - IPV6_HEADER_LEN) =~= icmpv6_pseudo(b, off - IPV6_HEADER_LEN));
    assert(b1.update(off + 2, 0u8).update(off + 3, 0u8).subrange(off, b1.len() as int) =~= b.update(
        off + 2,
        0u8,
    ).update(off + 3, 0u8).subrange(off, b.len() as int));
    assert(icmpv6_checksum_input(b1, off) =~= icmpv6_checksum_input(b, off));
    let ck = ocsum(icmpv6_checksum_input(b, off));
    crate::endian::lemma_be16_roundtrip(ck);
}

/// The receiver's validation of a reconciled ICMPv6 segment: summing the
/// pseudo-header and the segment as they stand, stored checksum
/// included, folds to all ones.
pub proof fn lemma_icmpv6_segment_sum_is_all_ones(b: Seq<u8>, off: int)
    requires
        ETHERNET_HEADER_LEN + IPV6_HEADER_LEN <= off,
        off + ICMPV6_HEADER_LEN <= b.len(),
    ensures
        ({
            let b1 = icmpv6_reconciled(b, off);
            fold16(
                sum16(
                    icmpv6_pseudo(b1, off - IPV6_HEADER_LEN) + b1.subrange(off, b1.len() as int),
                ),
            ) == 0xffff
        }),
{
    let x = icmpv6_pseudo(b, off - IPV6_HEADER_LEN) + b.subrange(off, b.len() as int);
    assert(x.update(42, 0u8).update(43, 0u8) =~= icmpv6_checksum_input(b, off));
    lemma_stored_checksum_folds_to_all_ones(x, 42);
    let ck = ocsum(icmpv6_checksum_input(b, off));
    let b1 = icmpv6_reconciled(b, off);
    assert(icmpv6_pseudo(b1, off - IPV6_HEADER_LEN) =~= icmpv6_pseudo(b, off - IPV6_HEADER_LEN));
    assert(icmpv6_pseudo(b1, off - IPV6_HEADER_LEN) + b1.subrange(off, b1.len() as int) =~= x.update(
        42,
        be16_hi(ck),
    ).update(43, be16_lo(ck)));
}

} // verus!
