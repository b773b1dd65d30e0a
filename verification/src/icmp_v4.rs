//! The ICMPv4 echo reply message, nested in an IPv4 packet: a four-byte
//! common header (message type, code, checksum), the fixed echo body
//! (identifier and sequence number, each two network-order bytes), then
//! an opaque data tail. The checksum covers the whole ICMPv4 segment and
//! needs no pseudo-header.

use crate::checksum::{
    checksum16, fold16, lemma_stored_checksum_folds_to_all_ones, ocsum, sum16,
};
use crate::endian::{be16, be16_hi, be16_lo, u16_from_be_pair, u16_to_be_pair};
use crate::ethernet::ETHERNET_HEADER_LEN;
use crate::ipv4::{ipv4_checksum_input, ipv4_reconciled, Ipv4, IPV4_HEADER_LEN, PROTOCOL_ICMPV4};
use crate::mbuf::{shrink_effect, zero_vec, BufferError, Mbuf};
use vstd::prelude::*;

verus! {

/// Width in bytes of the common ICMPv4 header.
pub const ICMPV4_HEADER_LEN: usize = 4;

/// The message type of an ICMPv4 echo reply.
pub const ICMPV4_ECHO_REPLY: u8 = 0;

/// The fixed body of an echo reply message: identifier and sequence
/// number, each two network-order bytes on the wire.
#[derive(Clone, Copy, Debug, Default, PartialEq, Eq, Structural)]
pub struct EchoReply {
    pub identifier: u16,
    pub seq_no: u16,
}

impl EchoReply {
    /// Bytes the body occupies on the wire.
    pub open spec fn spec_size_of() -> int {
        4
    }

    /// Bytes the body occupies on the wire.
    pub fn size_of() -> (r: usize)
        ensures
            r == EchoReply::spec_size_of(),
    {
        4
    }
}

/// How pushing an ICMPv4 echo reply changes the live bytes: the IPv4
/// protocol field is written, and a zeroed common header and body open
/// at the IPv4 payload. `off` is where the common header begins; the
/// protocol field sits 11 bytes before it. A zero message type already
/// announces an echo reply.
pub open spec fn icmpv4_push_effect(pre: Seq<u8>, post: Seq<u8>, off: int) -> bool {
    &&& post.len() == pre.len() + ICMPV4_HEADER_LEN + EchoReply::spec_size_of()
    &&& forall|i: int| 0 <= i < off - 11 ==> post[i] == pre[i]
    &&& post[off - 11] == PROTOCOL_ICMPV4
    &&& forall|i: int| off - 10 <= i < off ==> post[i] == pre[i]
    &&& forall|i: int| off <= i < off + 8 ==> post[i] == 0
    &&& forall|i: int| off <= i < pre.len() ==> post[i + 8] == pre[i]
}

/// The exact byte string whose one's-complement sum is the ICMPv4
/// checksum: the whole ICMPv4 segment with its checksum field read as
/// zero. `off` is where the common header begins.
pub open spec fn icmpv4_checksum_input(b: Seq<u8>, off: int) -> Seq<u8> {
    b.update(off + 2, 0u8).update(off + 3, 0u8).subrange(off, b.len() as int)
}

/// The bytes after this message recomputes its derived field: the
/// checksum of the segment lands in the checksum field.
pub open spec fn icmpv4_reconciled(b: Seq<u8>, off: int) -> Seq<u8> {
    let ck = ocsum(icmpv4_checksum_input(b, off));
    b.update(off + 2, be16_hi(ck)).update(off + 3, be16_lo(ck))
}

/// An ICMPv4 echo reply view nested in an IPv4 packet.
pub struct Icmpv4 {
    pub envelope: Ipv4,
    pub offset: usize,
}

impl Icmpv4 {
    /// The live bytes of the underlying buffer.
    pub open spec fn bytes(&self) -> Seq<u8> {
        self.envelope.bytes()
    }

    /// Byte index where the common header begins.
    pub open spec fn spec_offset(&self) -> int {
        self.offset as int
    }

    /// Free bytes behind the live region of the underlying buffer.
    pub open spec fn spec_tailroom(&self) -> int {
        self.envelope.spec_tailroom()
    }

    /// The view begins exactly at its envelope's payload, the header and
    /// body fit in the live bytes, and the message type announces an
    /// echo reply.
    pub open spec fn wf(&self) -> bool {
        &&& self.envelope.wf()
        &&& self.offset == self.envelope.spec_offset() + IPV4_HEADER_LEN
        &&& self.spec_offset() + ICMPV4_HEADER_LEN + EchoReply::spec_size_of()
            <= self.bytes().len()
        &&& self.bytes()[self.spec_offset()] == ICMPV4_ECHO_REPLY
    }

    /// Byte index where the data tail begins.
    pub open spec fn spec_data_offset(&self) -> int {
        self.spec_offset() + ICMPV4_HEADER_LEN + EchoReply::spec_size_of()
    }

    /// The code field.
    pub open spec fn spec_code(&self) -> u8 {
        self.bytes()[self.spec_offset() + 1]
    }

    /// The checksum field, read in network order.
    pub open spec fn spec_checksum(&self) -> u16 {
        be16(self.bytes()[self.spec_offset() + 2], self.bytes()[self.spec_offset() + 3])
    }

    /// The identifier field, read in network order.
    pub open spec fn spec_identifier(&self) -> u16 {
        be16(self.bytes()[self.spec_offset() + 4], self.bytes()[self.spec_offset() + 5])
    }

    /// The sequence number field, read in network order.
    pub open spec fn spec_seq_no(&self) -> u16 {
        be16(self.bytes()[self.spec_offset() + 6], self.bytes()[self.spec_offset() + 7])
    }

    /// The data tail.
    pub open spec fn spec_data(&self) -> Seq<u8> {
        self.bytes().subrange(self.spec_data_offset(), self.bytes().len() as int)
    }

    /// Byte index where the common header begins.
    pub fn offset(&self) -> (r: usize)
        ensures
            r == self.spec_offset(),
    {
        self.offset
    }

    /// Bytes occupied by the common header.
    pub fn header_len(&self) -> (r: usize)
        ensures
            r == ICMPV4_HEADER_LEN,
    {
        ICMPV4_HEADER_LEN
    }

    /// Live bytes from the common header to the end of the packet.
    pub fn len(&self) -> (r: usize)
        requires
            self.wf(),
        ensures
            r == self.bytes().len() - self.spec_offset(),
    {
        self.envelope.envelope.envelope.data_len() - self.offset
    }

    /// Byte index where the message body begins.
    pub fn payload_offset(&self) -> (r: usize)
        requires
            self.wf(),
        ensures
            r == self.spec_offset() + ICMPV4_HEADER_LEN,
    {
        self.offset + ICMPV4_HEADER_LEN
    }

    /// Live bytes past the common header: the body and the data tail.
    pub fn payload_len(&self) -> (r: usize)
        requires
            self.wf(),
        ensures
            r == self.bytes().len() - self.spec_offset() - ICMPV4_HEADER_LEN,
    {
        self.len() - ICMPV4_HEADER_LEN
    }

    /// Opens a zeroed echo reply (common header and body) at the IPv4
    /// payload and announces ICMPv4 in the protocol field.
    ///
    /// Refused, handing the envelope back unchanged, when the eight bytes
    /// do not fit in the tailroom.
    pub fn push(envelope: Ipv4) -> (r: Result<Icmpv4, (BufferError, Ipv4)>)
        requires
            envelope.wf(),
        ensures
            match r {
                Ok(l) => {
                    &&& ICMPV4_HEADER_LEN + EchoReply::spec_size_of() < envelope.spec_tailroom()
                    &&& l.wf()
                    &&& l.spec_offset() == envelope.spec_offset() + IPV4_HEADER_LEN
                    &&& icmpv4_push_effect(envelope.bytes(), l.bytes(), l.spec_offset())
                    &&& l.spec_tailroom() == envelope.spec_tailroom() - ICMPV4_HEADER_LEN
                        - EchoReply::spec_size_of()
                },
                Err((e, env)) => {
                    &&& e == BufferError::NotResized
                    &&& envelope.spec_tailroom() <= ICMPV4_HEADER_LEN + EchoReply::spec_size_of()
                    &&& env.wf()
                    &&& env.bytes() == envelope.bytes()
                    &&& env.spec_offset() == envelope.spec_offset()
                    &&& env.spec_tailroom() == envelope.spec_tailroom()
                },
            },
    {
        let mut env = envelope;
        let off = env.payload_offset();
        match env.envelope.envelope.extend(off, ICMPV4_HEADER_LEN + EchoReply::size_of()) {
            Err(e) => Err((e, env)),
            Ok(()) => {
                let ghost b1 = env.bytes();
                let hdr = zero_vec(ICMPV4_HEADER_LEN + EchoReply::size_of());
                env.envelope.envelope.write_bytes(off, hdr.as_slice());
                let ghost b2 = env.bytes();
                env.set_protocol(PROTOCOL_ICMPV4);
                proof {
                    assert forall|i: int| off <= i < off + 8 implies env.bytes()[i] == 0 by {
                        assert(b2[off + (i - off)] == hdr@[i - off]);
                    }
                    assert forall|i: int|
                        off <= i < envelope.bytes().len() implies env.bytes()[i + 8]
                        == envelope.bytes()[i] by {
                        assert(b1[i + 8] == envelope.bytes()[i]);
                        assert(b2[i + 8] == b1[i + 8]);
                    }
                    assert forall|i: int|
                        0 <= i < off && i != envelope.spec_offset() + 9 implies env.bytes()[i]
                        == envelope.bytes()[i] by {
                        assert(b1[i] == envelope.bytes()[i]);
                        assert(b2[i] == b1[i]);
                    }
                }
                Ok(Icmpv4 { envelope: env, offset: off })
            },
        }
    }

    /// Interprets the IPv4 payload as an echo reply, without touching any
    /// byte.
    ///
    /// Refused, handing the envelope back unchanged, when the protocol
    /// field does not announce ICMPv4, the header and body do not fit in
    /// the payload, or the message type is not an echo reply.
    pub fn parse(envelope: Ipv4) -> (r: Result<Icmpv4, (BufferError, Ipv4)>)
        requires
            envelope.wf(),
        ensures
            match r {
                Ok(l) => {
                    &&& envelope.spec_protocol() == PROTOCOL_ICMPV4
                    &&& envelope.bytes().len() >= envelope.spec_offset() + IPV4_HEADER_LEN + 8
                    &&& envelope.bytes()[envelope.spec_offset() + IPV4_HEADER_LEN]
                        == ICMPV4_ECHO_REPLY
                    &&& l.wf()
                    &&& l.spec_offset() == envelope.spec_offset() + IPV4_HEADER_LEN
                    &&& l.bytes() == envelope.bytes()
                    &&& l.spec_tailroom() == envelope.spec_tailroom()
                },
                Err((e, env)) => {
                    &&& !(envelope.spec_protocol() == PROTOCOL_ICMPV4 && envelope.bytes().len()
                        >= envelope.spec_offset() + IPV4_HEADER_LEN + 8
                        && envelope.bytes()[envelope.spec_offset() + IPV4_HEADER_LEN]
                        == ICMPV4_ECHO_REPLY)
                    &&& e == (if envelope.spec_protocol() != PROTOCOL_ICMPV4 {
                        BufferError::ParseMismatch
                    } else if envelope.bytes().len() == envelope.spec_offset()
                        + IPV4_HEADER_LEN {
                        BufferError::BadOffset(
                            (envelope.spec_offset() + IPV4_HEADER_LEN) as usize,
                            envelope.bytes().len() as usize,
                        )
                    } else if envelope.bytes().len() < envelope.spec_offset() + IPV4_HEADER_LEN
                        + 8 {
                        BufferError::OutOfBuffer(
                            8,
                            (envelope.bytes().len() - envelope.spec_offset()
                                - IPV4_HEADER_LEN) as usize,
                        )
                    } else {
                        BufferError::ParseMismatch
                    })
                    &&& env.wf()
                    &&& env.bytes() == envelope.bytes()
                    &&& env.spec_offset() == envelope.spec_offset()
                    &&& env.spec_tailroom() == envelope.spec_tailroom()
                },
            },
    {
        if envelope.protocol() != PROTOCOL_ICMPV4 {
            return Err((BufferError::ParseMismatch, envelope));
        }
        let off = envelope.payload_offset();
        let n = envelope.envelope.envelope.data_len();
        if off >= n {
            return Err((BufferError::BadOffset(off, n), envelope));
        }
        if ICMPV4_HEADER_LEN + EchoReply::size_of() > n - off {
            return Err(
                (
                    BufferError::OutOfBuffer(ICMPV4_HEADER_LEN + EchoReply::size_of(), n - off),
                    envelope,
                ),
            );
        }
        if envelope.envelope.envelope.byte_at(off) != ICMPV4_ECHO_REPLY {
            return Err((BufferError::ParseMismatch, envelope));
        }
        Ok(Icmpv4 { offset: off, envelope })
    }

    /// Like `parse`, but observes the packet without consuming it: the
    /// message reads an observer copy of the buffer, so dropping it
    /// cannot touch the original packet.
    pub fn peek(envelope: &Ipv4) -> (r: Result<Icmpv4, BufferError>)
        requires
            envelope.wf(),
        ensures
            match r {
                Ok(l) => {
                    &&& envelope.spec_protocol() == PROTOCOL_ICMPV4
                    &&& envelope.bytes().len() >= envelope.spec_offset() + IPV4_HEADER_LEN + 8
                    &&& envelope.bytes()[envelope.spec_offset() + IPV4_HEADER_LEN]
                        == ICMPV4_ECHO_REPLY
                    &&& l.wf()
                    &&& l.spec_offset() == envelope.spec_offset() + IPV4_HEADER_LEN
                    &&& l.bytes() == envelope.bytes()
                },
                Err(e) => {
                    &&& !(envelope.spec_protocol() == PROTOCOL_ICMPV4 && envelope.bytes().len()
                        >= envelope.spec_offset() + IPV4_HEADER_LEN + 8
                        && envelope.bytes()[envelope.spec_offset() + IPV4_HEADER_LEN]
                        == ICMPV4_ECHO_REPLY)
                    &&& e == (if envelope.spec_protocol() != PROTOCOL_ICMPV4 {
                        BufferError::ParseMismatch
                    } else if envelope.bytes().len() == envelope.spec_offset()
                        + IPV4_HEADER_LEN {
                        BufferError::BadOffset(
                            (envelope.spec_offset() + IPV4_HEADER_LEN) as usize,
                            envelope.bytes().len() as usize,
                        )
                    } else if envelope.bytes().len() < envelope.spec_offset() + IPV4_HEADER_LEN
                        + 8 {
                        BufferError::OutOfBuffer(
                            8,
                            (envelope.bytes().len() - envelope.spec_offset()
                                - IPV4_HEADER_LEN) as usize,
                        )
                    } else {
                        BufferError::ParseMismatch
                    })
                },
            },
    {
        match Icmpv4::parse(envelope.observe()) {
            Ok(l) => Ok(l),
            Err((e, _)) => Err(e),
        }
    }

    /// Reverts the view to its envelope without touching any byte.
    pub fn deparse(self) -> (r: Ipv4)
        requires
            self.wf(),
        ensures
            r.wf(),
            r.bytes() == self.bytes(),
            r.spec_offset() == self.spec_offset() - IPV4_HEADER_LEN,
            r.spec_tailroom() == self.spec_tailroom(),
    {
        self.envelope
    }

    /// Discards the whole view chain and hands back the raw buffer.
    pub fn reset(self) -> (r: Mbuf)
        requires
            self.wf(),
        ensures
            r.wf(),
            r@ == self.bytes(),
            r.spec_tailroom() == self.spec_tailroom(),
    {
        self.envelope.reset()
    }

    /// Shrinks the common header away and hands back the IPv4 envelope.
    /// The body and data stay behind as the IPv4 payload.
    pub fn remove(self) -> (r: Ipv4)
        requires
            self.wf(),
        ensures
            r.wf(),
            shrink_effect(self.bytes(), r.bytes(), self.spec_offset(), ICMPV4_HEADER_LEN as int),
            r.spec_offset() == self.spec_offset() - IPV4_HEADER_LEN,
            r.spec_tailroom() == self.spec_tailroom() + ICMPV4_HEADER_LEN,
    {
        let mut env = self.envelope;
        let rr = env.envelope.envelope.shrink(self.offset, ICMPV4_HEADER_LEN);
        proof {
            assert(rr is Ok);
        }
        env
    }

    /// The message type field.
    pub fn msg_type(&self) -> (r: u8)
        requires
            self.wf(),
        ensures
            r == ICMPV4_ECHO_REPLY,
    {
        self.envelope.envelope.envelope.byte_at(self.offset)
    }

    /// The code field.
    pub fn code(&self) -> (r: u8)
        requires
            self.wf(),
        ensures
            r == self.spec_code(),
    {
        self.envelope.envelope.envelope.byte_at(self.offset + 1)
    }

    /// The checksum field, in host order.
    pub fn checksum(&self) -> (r: u16)
        requires
            self.wf(),
        ensures
            r == self.spec_checksum(),
    {
        u16_from_be_pair(
            self.envelope.envelope.envelope.byte_at(self.offset + 2),
            self.envelope.envelope.envelope.byte_at(self.offset + 3),
        )
    }

    /// The identifier field, in host order.
    pub fn identifier(&self) -> (r: u16)
        requires
            self.wf(),
        ensures
            r == self.spec_identifier(),
    {
        u16_from_be_pair(
            self.envelope.envelope.envelope.byte_at(self.offset + 4),
            self.envelope.envelope.envelope.byte_at(self.offset + 5),
        )
    }

    /// Writes the identifier field in network order.
    pub fn set_identifier(&mut self, identifier: u16)
        requires
            old(self).wf(),
        ensures
            final(self).wf(),
            final(self).spec_offset() == old(self).spec_offset(),
            final(self).spec_tailroom() == old(self).spec_tailroom(),
            final(self).bytes() == old(self).bytes().update(
                old(self).spec_offset() + 4,
                be16_hi(identifier),
            ).update(old(self).spec_offset() + 5, be16_lo(identifier)),
            final(self).spec_identifier() == identifier,
    {
        let (hi, lo) = u16_to_be_pair(identifier);
        self.envelope.envelope.envelope.set_byte(self.offset + 4, hi);
        self.envelope.envelope.envelope.set_byte(self.offset + 5, lo);
    }

    /// The sequence number field, in host order.
    pub fn seq_no(&self) -> (r: u16)
        requires
            self.wf(),
        ensures
            r == self.spec_seq_no(),
    {
        u16_from_be_pair(
            self.envelope.envelope.envelope.byte_at(self.offset + 6),
            self.envelope.envelope.envelope.byte_at(self.offset + 7),
        )
    }

    /// Writes the sequence number field in network order.
    pub fn set_seq_no(&mut self, seq_no: u16)
        requires
            old(self).wf(),
        ensures
            final(self).wf(),
            final(self).spec_offset() == old(self).spec_offset(),
            final(self).spec_tailroom() == old(self).spec_tailroom(),
            final(self).bytes() == old(self).bytes().update(
                old(self).spec_offset() + 6,
                be16_hi(seq_no),
            ).update(old(self).spec_offset() + 7, be16_lo(seq_no)),
            final(self).spec_seq_no() == seq_no,
    {
        let (hi, lo) = u16_to_be_pair(seq_no);
        self.envelope.envelope.envelope.set_byte(self.offset + 6, hi);
        self.envelope.envelope.envelope.set_byte(self.offset + 7, lo);
    }

    /// Byte index where the data tail begins.
    pub fn data_offset(&self) -> (r: usize)
        requires
            self.wf(),
        ensures
            r == self.spec_data_offset(),
    {
        self.payload_offset() + EchoReply::size_of()
    }

    /// Length of the data tail.
    pub fn data_len(&self) -> (r: usize)
        requires
            self.wf(),
        ensures
            r == self.bytes().len() - self.spec_data_offset(),
    {
        self.payload_len() - EchoReply::size_of()
    }

    /// The data tail, copied out.
    pub fn data(&self) -> (r: Vec<u8>)
        requires
            self.wf(),
        ensures
            r@ == self.spec_data(),
    {
        let doff = self.data_offset();
        let n = self.data_len();
        self.envelope.envelope.envelope.read_bytes(doff, n)
    }

    /// Replaces the data tail, resizing it to `data`'s length first.
    ///
    /// Refused, leaving the bytes unchanged, when growth does not fit in
    /// the tailroom, or when the tail already has exactly the wanted
    /// length and the resize has nothing to do.
    pub fn set_data(&mut self, data: &[u8]) -> (r: Result<(), BufferError>)
        requires
            old(self).wf(),
        ensures
            final(self).wf(),
            final(self).spec_offset() == old(self).spec_offset(),
            match r {
                Ok(()) => {
                    &&& final(self).bytes().len() == old(self).spec_data_offset() + data@.len()
                    &&& forall|i: int|
                        0 <= i < old(self).spec_data_offset() ==> final(self).bytes()[i] == old(
                            self,
                        ).bytes()[i]
                    &&& final(self).spec_data() == data@
                    &&& final(self).spec_tailroom() == old(self).spec_tailroom() + (old(
                        self,
                    ).bytes().len() - old(self).spec_data_offset()) - data@.len()
                },
                Err(e) => {
                    &&& e == BufferError::NotResized
                    &&& {
                        let cur = old(self).bytes().len() - old(self).spec_data_offset();
                        data@.len() == cur || (data@.len() > cur && data@.len() - cur >= old(
                            self,
                        ).spec_tailroom())
                    }
                    &&& final(self).bytes() == old(self).bytes()
                    &&& final(self).spec_tailroom() == old(self).spec_tailroom()
                },
            },
    {
        let doff = self.data_offset();
        let cur = self.data_len();
        let n = data.len();
        let resized = if n >= cur {
            self.envelope.envelope.envelope.extend(doff, n - cur)
        } else {
            self.envelope.envelope.envelope.shrink(doff, cur - n)
        };
        match resized {
            Err(e) => Err(e),
            Ok(()) => {
                let ghost b1 = self.bytes();
                self.envelope.envelope.envelope.write_bytes(doff, data);
                proof {
                    assert forall|i: int| 0 <= i < doff implies self.bytes()[i] == old(
                        self,
                    ).bytes()[i] by {
                        assert(b1[i] == old(self).bytes()[i]);
                        assert(self.bytes()[i] == b1[i]);
                    }
                    assert(self.spec_data() =~= data@);
                }
                Ok(())
            },
        }
    }

    /// Recomputes the checksum field from the ICMPv4 segment, reading the
    /// field itself as zero.
    pub fn compute_checksum(&mut self)
        requires
            old(self).wf(),
        ensures
            final(self).wf(),
            final(self).spec_offset() == old(self).spec_offset(),
            final(self).spec_tailroom() == old(self).spec_tailroom(),
            final(self).bytes() == icmpv4_reconciled(old(self).bytes(), old(self).spec_offset()),
    {
        proof {
            self.envelope.envelope.envelope.lemma_wf_bounds();
        }
        let off = self.offset;
        self.envelope.envelope.envelope.set_byte(off + 2, 0);
        self.envelope.envelope.envelope.set_byte(off + 3, 0);
        let n = self.envelope.envelope.envelope.data_len();
        let seg = self.envelope.envelope.envelope.read_bytes(off, n - off);
        proof {
            assert(seg@ =~= icmpv4_checksum_input(old(self).bytes(), off as int));
        }
        let ck = checksum16(&seg);
        let (hi, lo) = u16_to_be_pair(ck);
        self.envelope.envelope.envelope.set_byte(off + 2, hi);
        self.envelope.envelope.envelope.set_byte(off + 3, lo);
        proof {
            assert(self.bytes() =~= icmpv4_reconciled(old(self).bytes(), off as int));
        }
    }

    /// Recomputes this message's derived field, the checksum in the
    /// common header.
    pub fn reconcile(&mut self)
        requires
            old(self).wf(),
        ensures
            final(self).wf(),
            final(self).spec_offset() == old(self).spec_offset(),
            final(self).spec_tailroom() == old(self).spec_tailroom(),
            final(self).bytes() == icmpv4_reconciled(old(self).bytes(), old(self).spec_offset()),
    {
        self.compute_checksum();
    }

    /// Recomputes derived fields here and in every enclosing layer,
    /// innermost first: the ICMPv4 checksum is written before the IPv4
    /// length and header checksum.
    pub fn cascade(&mut self)
        requires
            old(self).wf(),
        ensures
            final(self).wf(),
            final(self).spec_offset() == old(self).spec_offset(),
            final(self).spec_tailroom() == old(self).spec_tailroom(),
            final(self).bytes() == ipv4_reconciled(
                icmpv4_reconciled(old(self).bytes(), old(self).spec_offset()),
                old(self).spec_offset() - IPV4_HEADER_LEN,
            ),
    {
        self.compute_checksum();
        self.envelope.reconcile_all();
    }

    /// Recomputes derived fields here and in every enclosing layer,
    /// innermost first.
    pub fn reconcile_all(&mut self)
        requires
            old(self).wf(),
        ensures
            final(self).wf(),
            final(self).spec_offset() == old(self).spec_offset(),
            final(self).spec_tailroom() == old(self).spec_tailroom(),
            final(self).bytes() == ipv4_reconciled(
                icmpv4_reconciled(old(self).bytes(), old(self).spec_offset()),
                old(self).spec_offset() - IPV4_HEADER_LEN,
            ),
    {
        self.cascade();
    }
}

/// In a well-formed ICMPv4 echo reply chain the layer offsets strictly
/// increase from the Ethernet header on, and the innermost header and
/// body still fit in the live bytes.
pub proof fn lemma_offsets_monotone_v4(e: &Icmpv4)
    requires
        e.wf(),
    ensures
        e.envelope.envelope.spec_offset() == 0,
        e.envelope.envelope.spec_offset() < e.envelope.spec_offset(),
        e.envelope.spec_offset() < e.spec_offset(),
        e.spec_offset() + ICMPV4_HEADER_LEN + EchoReply::spec_size_of() <= e.bytes().len(),
{
}

/// Running the whole reconciliation cascade twice writes exactly the
/// bytes that one run writes: the ICMPv4 checksum is computed over the
/// segment with its field read as zero, and the IPv4 fields the cascade
/// rewrites lie outside that segment.
pub proof fn lemma_reconcile_all_idempotent_v4(b: Seq<u8>, off: int)
    requires
        ETHERNET_HEADER_LEN + IPV4_HEADER_LEN <= off,
        off + ICMPV4_HEADER_LEN <= b.len(),
    ensures
        ({
            let once = ipv4_reconciled(icmpv4_reconciled(b, off), off - IPV4_HEADER_LEN);
            ipv4_reconciled(icmpv4_reconciled(once, off), off - IPV4_HEADER_LEN) == once
        }),
{
    let ip_off = off - IPV4_HEADER_LEN;
    let b1 = icmpv4_reconciled(b, off);
    let b2 = ipv4_reconciled(b1, ip_off);
    // the second checksum run sees the same segment bytes
    assert(icmpv4_checksum_input(b2, off) =~= icmpv4_checksum_input(b, off));
    let ck = ocsum(icmpv4_checksum_input(b, off));
    assert(b2[off + 2] == be16_hi(ck) && b2[off + 3] == be16_lo(ck));
    assert(icmpv4_reconciled(b2, off) =~= b2);
    // and the IPv4 pass repeats the values already in place
    let tl = (b2.len() - ip_off) as u16;
    let bt = b2.update(ip_off + 2, be16_hi(tl)).update(ip_off + 3, be16_lo(tl));
    assert(bt =~= b2);
    assert(ipv4_checksum_input(bt, ip_off) =~= ipv4_checksum_input(
        b1.update(ip_off + 2, be16_hi(tl)).update(ip_off + 3, be16_lo(tl)),
        ip_off,
    ));
    assert(ipv4_reconciled(b2, ip_off) =~= b2);
    assert(ipv4_reconciled(icmpv4_reconciled(b2, off), ip_off) =~= b2);
}

/// After one reconciliation, the stored ICMPv4 checksum field is exactly
/// the one's-complement checksum of the segment with the field read as
/// zero, computed over the reconciled bytes themselves.
pub proof fn lemma_checksum_validates_icmpv4(b: Seq<u8>, off: int)
    requires
        0 <= off,
        off + ICMPV4_HEADER_LEN <= b.len(),
    ensures
        ({
            let b1 = icmpv4_reconciled(b, off);
            be16(b1[off + 2], b1[off + 3]) == ocsum(icmpv4_checksum_input(b1, off))
        }),
{
    let b1 = icmpv4_reconciled(b, off);
    assert(icmpv4_checksum_input(b1, off) =~= icmpv4_checksum_input(b, off));
    let ck = ocsum(icmpv4_checksum_input(b, off));
    crate::endian::lemma_be16_roundtrip(ck);
}

/// The receiver's validation of a reconciled ICMPv4 segment: summing the
/// segment as it stands, stored checksum included, folds to all ones.
pub proof fn lemma_icmpv4_segment_sum_is_all_ones(b: Seq<u8>, off: int)
    requires
        0 <= off,
        off + ICMPV4_HEADER_LEN <= b.len(),
    ensures
        ({
            let b1 = icmpv4_reconciled(b, off);
            fold16(sum16(b1.subrange(off, b1.len() as int))) == 0xffff
        }),
{
    let x = b.subrange(off, b.len() as int);
    assert(x.update(2, 0u8).update(3, 0u8) =~= icmpv4_checksum_input(b, off));
    lemma_stored_checksum_folds_to_all_ones(x, 2);
    let ck = ocsum(icmpv4_checksum_input(b, off));
    let b1 = icmpv4_reconciled(b, off);
    assert(b1.subrange(off, b1.len() as int) =~= x.update(2, be16_hi(ck)).update(3, be16_lo(ck)));
}

} // verus!
