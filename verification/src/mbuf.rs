//! The message buffer: a handle to one contiguous region holding a single
//! network packet, read and written through byte offsets into the live
//! region, and resized in place by shifting bytes to open or close a gap.
//!
//! The region mirrors a poll-mode driver's single-segment packet buffer:
//! a fixed allocation with some headroom in front of the live bytes and
//! tailroom behind them. The driver, its pools and the transmit path are
//! outside this crate; the buffer here owns its bytes, and every
//! operation on them is verified.

use vstd::prelude::*;

verus! {

/// Total size in bytes of the region backing one fresh buffer.
pub const DEFAULT_BUF_LEN: usize = 2176;

/// Bytes kept free in front of the live region of a fresh buffer, so
/// that headers can be prepended without copying the payload.
pub const DEFAULT_HEADROOM: usize = 128;

/// Free bytes behind the live region of a fresh buffer.
pub const DEFAULT_TAILROOM: usize = 2048;

/// Why a buffer or packet operation was refused.
#[derive(Clone, Copy, Debug, PartialEq, Eq, Structural)]
pub enum BufferError {
    /// A read started past the end of the live region: the offset asked
    /// for, and the number of live bytes.
    BadOffset(usize, usize),
    /// A read or write needed more bytes past its offset than the live
    /// region holds: the size needed, and the bytes available.
    OutOfBuffer(usize, usize),
    /// A resize precondition failed; the buffer is unchanged.
    NotResized,
    /// A discriminant in the bytes did not match the layer being parsed.
    ParseMismatch,
}

/// A single-segment message buffer. Its view is the sequence of live
/// bytes, those between the headroom and the tailroom.
pub struct Mbuf {
    buf: Vec<u8>,
    data_off: usize,
    data_len: usize,
}

impl View for Mbuf {
    type V = Seq<u8>;

    closed spec fn view(&self) -> Seq<u8> {
        self.buf@.subrange(self.data_off as int, self.data_off + self.data_len)
    }
}

/// How `extend` changes the live bytes: `len` fresh bytes open at
/// `offset`; everything before `offset` stays, everything from `offset`
/// on moves down by `len`. The fresh bytes themselves are unspecified
/// until written.
pub open spec fn extend_effect(pre: Seq<u8>, post: Seq<u8>, offset: int, len: int) -> bool {
    &&& post.len() == pre.len() + len
    &&& forall|i: int| 0 <= i < offset ==> post[i] == pre[i]
    &&& forall|i: int| offset <= i < pre.len() ==> post[i + len] == pre[i]
}

/// How `shrink` changes the live bytes: the `len` bytes at `offset`
/// close; everything before `offset` stays, everything after the gap
/// moves up by `len`.
pub open spec fn shrink_effect(pre: Seq<u8>, post: Seq<u8>, offset: int, len: int) -> bool {
    &&& post.len() == pre.len() - len
    &&& forall|i: int| 0 <= i < offset ==> post[i] == pre[i]
    &&& forall|i: int| offset + len <= i < pre.len() ==> post[i - len] == pre[i]
}

impl Mbuf {
    /// The buffer accounts for its whole region: the live bytes fit
    /// between headroom and the end of the allocation.
    pub closed spec fn wf(&self) -> bool {
        &&& self.data_off + self.data_len <= self.buf@.len()
        &&& self.buf@.len() <= DEFAULT_BUF_LEN
    }

    /// Free bytes behind the live region.
    pub closed spec fn spec_tailroom(&self) -> int {
        self.buf@.len() - self.data_off - self.data_len
    }

    /// A well-formed buffer's live region and tailroom both fit inside
    /// the fixed allocation.
    pub proof fn lemma_wf_bounds(&self)
        requires
            self.wf(),
        ensures
            self@.len() + self.spec_tailroom() <= DEFAULT_BUF_LEN,
            0 <= self.spec_tailroom(),
    {
    }

    /// A fresh buffer: empty live region, default headroom and tailroom.
    pub fn new() -> (r: Mbuf)
        ensures
            r.wf(),
            r@.len() == 0,
            r.spec_tailroom() == DEFAULT_TAILROOM,
    {
        let mut buf: Vec<u8> = Vec::new();
        let mut i: usize = 0;
        while i < DEFAULT_BUF_LEN
            invariant
                buf@.len() == i,
                i <= DEFAULT_BUF_LEN,
            decreases DEFAULT_BUF_LEN - i,
        {
            buf.push(0u8);
            i = i + 1;
        }
        Mbuf { buf, data_off: DEFAULT_HEADROOM, data_len: 0 }
    }

    /// Number of live bytes stored in the buffer.
    pub fn data_len(&self) -> (r: usize)
        requires
            self.wf(),
        ensures
            r == self@.len(),
    {
        self.data_len
    }

    /// One live byte.
    pub(crate) fn byte_at(&self, i: usize) -> (r: u8)
        requires
            self.wf(),
            i < self@.len(),
        ensures
            r == self@[i as int],
    {
        self.buf[self.data_off + i]
    }

    /// Overwrites one live byte.
    pub(crate) fn set_byte(&mut self, i: usize, v: u8)
        requires
            old(self).wf(),
            i < old(self)@.len(),
        ensures
            final(self).wf(),
            final(self)@ == old(self)@.update(i as int, v),
            final(self).spec_tailroom() == old(self).spec_tailroom(),
    {
        let idx = self.data_off + i;
        self.buf.set(idx, v);
        proof {
            assert(self@ =~= old(self)@.update(i as int, v));
        }
    }

    /// Free bytes behind the live region.
    pub(crate) fn tailroom(&self) -> (r: usize)
        requires
            self.wf(),
        ensures
            r == self.spec_tailroom(),
    {
        self.buf.len() - self.data_off - self.data_len
    }

    /// Extends the live region at `offset` by `len` bytes. Bytes from
    /// `offset` on are shifted down to make room; the opened bytes hold
    /// unspecified values until written.
    ///
    /// Refused, leaving the buffer unchanged, when `len` is zero, the
    /// offset lies past the live region, or `len` does not fit in the
    /// tailroom.
    pub fn extend(&mut self, offset: usize, len: usize) -> (r: Result<(), BufferError>)
        requires
            old(self).wf(),
        ensures
            final(self).wf(),
            match r {
                Ok(()) => {
                    &&& 0 < len
                    &&& offset <= old(self)@.len()
                    &&& (len as int) < old(self).spec_tailroom()
                    &&& extend_effect(old(self)@, final(self)@, offset as int, len as int)
                    &&& final(self).spec_tailroom() == old(self).spec_tailroom() - len
                },
                Err(e) => {
                    &&& e == BufferError::NotResized
                    &&& !(0 < len && offset <= old(self)@.len() && (len as int) < old(
                        self,
                    ).spec_tailroom())
                    &&& final(self)@ == old(self)@
                    &&& final(self).spec_tailroom() == old(self).spec_tailroom()
                },
            },
    {
        if len == 0 {
            return Err(BufferError::NotResized);
        }
        if offset > self.data_len {
            return Err(BufferError::NotResized);
        }
        let tr = self.buf.len() - self.data_off - self.data_len;
        if len >= tr {
            return Err(BufferError::NotResized);
        }
        // shift [offset, data_len) down to [offset + len, data_len + len),
        // copying from the top so no source byte is overwritten first
        let to_copy = self.data_len - offset;
        let base = self.data_off + offset;
        let mut i: usize = to_copy;
        while i > 0
            invariant
                old(self).wf(),
                0 < len,
                offset <= old(self).data_len,
                len < old(self).spec_tailroom(),
                to_copy == old(self).data_len - offset,
                base == old(self).data_off + offset,
                i <= to_copy,
                self.data_off == old(self).data_off,
                self.data_len == old(self).data_len,
                self.buf@.len() == old(self).buf@.len(),
                forall|j: int| 0 <= j < base + len + i ==> #[trigger] self.buf@[j] == old(
                    self,
                ).buf@[j],
                forall|j: int|
                    i <= j < to_copy ==> #[trigger] self.buf@[base + len + j] == old(
                        self,
                    ).buf@[base + j],
            decreases i,
        {
            i = i - 1;
            let b = self.buf[base + i];
            self.buf.set(base + len + i, b);
        }
        self.data_len = self.data_len + len;
        proof {
            assert forall|k: int| 0 <= k < offset implies self@[k] == old(self)@[k] by {
                assert(self.buf@[self.data_off + k] == old(self).buf@[self.data_off + k]);
            }
            assert forall|k: int| offset <= k < old(self)@.len() implies self@[k + len] == old(
                self,
            )@[k] by {
                assert(self.buf@[base + len + (k - offset)] == old(self).buf@[base + (k
                    - offset)]);
            }
        }
        Ok(())
    }

    /// Shrinks the live region at `offset` by `len` bytes. Bytes after
    /// the dropped range are shifted up to close the gap.
    ///
    /// Refused, leaving the buffer unchanged, when `len` is zero or the
    /// dropped range reaches past the live region.
    pub fn shrink(&mut self, offset: usize, len: usize) -> (r: Result<(), BufferError>)
        requires
            old(self).wf(),
        ensures
            final(self).wf(),
            match r {
                Ok(()) => {
                    &&& 0 < len
                    &&& offset + len <= old(self)@.len()
                    &&& shrink_effect(old(self)@, final(self)@, offset as int, len as int)
                    &&& final(self).spec_tailroom() == old(self).spec_tailroom() + len
                },
                Err(e) => {
                    &&& e == BufferError::NotResized
                    &&& !(0 < len && offset + len <= old(self)@.len())
                    &&& final(self)@ == old(self)@
                    &&& final(self).spec_tailroom() == old(self).spec_tailroom()
                },
            },
    {
        if len == 0 {
            return Err(BufferError::NotResized);
        }
        if offset > self.data_len || len > self.data_len - offset {
            return Err(BufferError::NotResized);
        }
        // shift [offset + len, data_len) up to [offset, data_len - len)
        let to_copy = self.data_len - offset - len;
        let base = self.data_off + offset;
        let mut i: usize = 0;
        while i < to_copy
            invariant
                old(self).wf(),
                0 < len,
                offset + len <= old(self).data_len,
                to_copy == old(self).data_len - offset - len,
                base == old(self).data_off + offset,
                i <= to_copy,
                self.data_off == old(self).data_off,
                self.data_len == old(self).data_len,
                self.buf@.len() == old(self).buf@.len(),
                forall|j: int| 0 <= j < base ==> #[trigger] self.buf@[j] == old(self).buf@[j],
                forall|j: int|
                    base + i <= j < self.buf@.len() ==> #[trigger] self.buf@[j] == old(
                        self,
                    ).buf@[j],
                forall|j: int|
                    0 <= j < i ==> #[trigger] self.buf@[base + j] == old(self).buf@[base + len
                        + j],
            decreases to_copy - i,
        {
            let b = self.buf[base + len + i];
            self.buf.set(base + i, b);
            i = i + 1;
        }
        self.data_len = self.data_len - len;
        proof {
            assert forall|k: int| 0 <= k < offset implies self@[k] == old(self)@[k] by {
                assert(self.buf@[self.data_off + k] == old(self).buf@[self.data_off + k]);
            }
            assert forall|k: int|
                offset + len <= k < old(self)@.len() implies self@[k - len] == old(self)@[k] by {
                assert(self.buf@[base + (k - offset - len)] == old(self).buf@[base + len + (k
                    - offset - len)]);
            }
        }
        Ok(())
    }

    /// Resizes the live region at `offset`: a positive `len` extends, a
    /// negative one shrinks.
    pub fn resize(&mut self, offset: usize, len: isize) -> (r: Result<(), BufferError>)
        requires
            old(self).wf(),
        ensures
            final(self).wf(),
            match r {
                Ok(()) => {
                    if len >= 0 {
                        &&& 0 < len
                        &&& offset <= old(self)@.len()
                        &&& (len as int) < old(self).spec_tailroom()
                        &&& extend_effect(old(self)@, final(self)@, offset as int, len as int)
                        &&& final(self).spec_tailroom() == old(self).spec_tailroom() - len
                    } else {
                        &&& offset - len <= old(self)@.len()
                        &&& shrink_effect(old(self)@, final(self)@, offset as int, -(len as int))
                        &&& final(self).spec_tailroom() == old(self).spec_tailroom() - len
                    }
                },
                Err(e) => {
                    &&& e == BufferError::NotResized
                    &&& !(0 < len && offset <= old(self)@.len() && (len as int) < old(
                        self,
                    ).spec_tailroom())
                    &&& !(len < 0 && offset - len <= old(self)@.len())
                    &&& final(self)@ == old(self)@
                    &&& final(self).spec_tailroom() == old(self).spec_tailroom()
                },
            },
    {
        if len < 0 {
            if len < -(DEFAULT_BUF_LEN as isize) {
                // magnitude beyond any possible live region
                return Err(BufferError::NotResized);
            }
            self.shrink(offset, (-len) as usize)
        } else {
            self.extend(offset, len as usize)
        }
    }

    /// Resizes the live region to exactly `len` bytes, extending at the
    /// tail or shrinking away the bytes from `len` on.
    pub fn resize_to(&mut self, len: usize) -> (r: Result<(), BufferError>)
        requires
            old(self).wf(),
        ensures
            final(self).wf(),
            match r {
                Ok(()) => {
                    &&& (len == old(self)@.len() || (len as int) < old(self)@.len() + old(
                        self,
                    ).spec_tailroom())
                    &&& final(self)@.len() == len
                    &&& forall|i: int|
                        0 <= i < old(self)@.len() && i < len ==> final(self)@[i] == old(self)@[i]
                },
                Err(e) => {
                    &&& e == BufferError::NotResized
                    &&& len > old(self)@.len()
                    &&& len >= old(self)@.len() + old(self).spec_tailroom()
                    &&& final(self)@ == old(self)@
                },
            },
    {
        if len > self.data_len {
            let cur = self.data_len;
            self.extend(cur, len - cur)
        } else if len < self.data_len {
            let cur = self.data_len;
            self.shrink(len, cur - len)
        } else {
            Ok(())
        }
    }

    /// Truncates the live region to `to_len` bytes, dropping the tail
    /// without moving anything.
    ///
    /// Refused when `to_len` is not strictly below the live length.
    pub fn truncate(&mut self, to_len: usize) -> (r: Result<(), BufferError>)
        requires
            old(self).wf(),
        ensures
            final(self).wf(),
            match r {
                Ok(()) => {
                    &&& to_len < old(self)@.len()
                    &&& final(self)@ == old(self)@.take(to_len as int)
                },
                Err(e) => {
                    &&& e == BufferError::NotResized
                    &&& to_len >= old(self)@.len()
                    &&& final(self)@ == old(self)@
                },
            },
    {
        if to_len >= self.data_len {
            return Err(BufferError::NotResized);
        }
        self.data_len = to_len;
        proof {
            assert(self@ =~= old(self)@.take(to_len as int));
        }
        Ok(())
    }

    /// Copies out the `size` live bytes that a fixed-size record occupies
    /// at `offset`.
    ///
    /// Refused with `BadOffset` when the offset lies at or past the end
    /// of the live region, and with `OutOfBuffer` when fewer than `size`
    /// bytes follow it.
    pub fn read_data(&self, offset: usize, size: usize) -> (r: Result<Vec<u8>, BufferError>)
        requires
            self.wf(),
        ensures
            match r {
                Ok(v) => {
                    &&& offset < self@.len()
                    &&& offset + size <= self@.len()
                    &&& v@ == self@.subrange(offset as int, offset + size)
                },
                Err(e) => {
                    &&& !(offset < self@.len() && offset + size <= self@.len())
                    &&& e == (if offset >= self@.len() {
                        BufferError::BadOffset(offset, self@.len() as usize)
                    } else {
                        BufferError::OutOfBuffer(size, (self@.len() - offset) as usize)
                    })
                },
            },
    {
        if offset >= self.data_len {
            return Err(BufferError::BadOffset(offset, self.data_len));
        }
        if size > self.data_len - offset {
            return Err(BufferError::OutOfBuffer(size, self.data_len - offset));
        }
        let mut v: Vec<u8> = Vec::new();
        let mut i: usize = 0;
        while i < size
            invariant
                self.wf(),
                offset < self@.len(),
                offset + size <= self@.len(),
                i <= size,
                v@.len() == i,
                forall|j: int| 0 <= j < i ==> v@[j] == self@[offset + j],
            decreases size - i,
        {
            v.push(self.byte_at(offset + i));
            i = i + 1;
        }
        proof {
            assert(v@ =~= self@.subrange(offset as int, offset + size));
        }
        Ok(v)
    }

    /// Copies out `count` single-byte items starting at `offset`.
    pub fn read_data_slice(&self, offset: usize, count: usize) -> (r: Result<Vec<u8>, BufferError>)
        requires
            self.wf(),
        ensures
            match r {
                Ok(v) => {
                    &&& offset < self@.len()
                    &&& offset + count <= self@.len()
                    &&& v@ == self@.subrange(offset as int, offset + count)
                },
                Err(e) => {
                    &&& !(offset < self@.len() && offset + count <= self@.len())
                    &&& e == (if offset >= self@.len() {
                        BufferError::BadOffset(offset, self@.len() as usize)
                    } else {
                        BufferError::OutOfBuffer(count, (self@.len() - offset) as usize)
                    })
                },
            },
    {
        self.read_data(offset, count)
    }

    /// Writes a fixed-size record's bytes over the live region at
    /// `offset`. The region must already cover the write: extend first.
    ///
    /// Refused with `OutOfBuffer` when the record reaches past the live
    /// region.
    pub fn write_data(&mut self, offset: usize, item: &[u8]) -> (r: Result<(), BufferError>)
        requires
            old(self).wf(),
        ensures
            final(self).wf(),
            final(self).spec_tailroom() == old(self).spec_tailroom(),
            match r {
                Ok(()) => {
                    &&& offset + item@.len() <= old(self)@.len()
                    &&& final(self)@.len() == old(self)@.len()
                    &&& forall|i: int|
                        0 <= i < item@.len() ==> final(self)@[offset + i] == item@[i]
                    &&& forall|i: int|
                        0 <= i < old(self)@.len() && !(offset <= i < offset + item@.len())
                            ==> final(self)@[i] == old(self)@[i]
                },
                Err(e) => {
                    &&& offset + item@.len() > old(self)@.len()
                    &&& e == BufferError::OutOfBuffer(
                        item@.len() as usize,
                        if offset <= old(self)@.len() {
                            (old(self)@.len() - offset) as usize
                        } else {
                            0
                        },
                    )
                    &&& final(self)@ == old(self)@
                },
            },
    {
        let n = item.len();
        if offset > self.data_len {
            return Err(BufferError::OutOfBuffer(n, 0));
        }
        if n > self.data_len - offset {
            return Err(BufferError::OutOfBuffer(n, self.data_len - offset));
        }
        let mut i: usize = 0;
        while i < n
            invariant
                self.wf(),
                n == item@.len(),
                offset + n <= self@.len(),
                i <= n,
                self@.len() == old(self)@.len(),
                self.spec_tailroom() == old(self).spec_tailroom(),
                forall|j: int| 0 <= j < i ==> self@[offset + j] == item@[j],
                forall|j: int|
                    0 <= j < old(self)@.len() && !(offset <= j < offset + i) ==> self@[j] == old(
                        self,
                    )@[j],
            decreases n - i,
        {
            self.set_byte(offset + i, item[i]);
            i = i + 1;
        }
        Ok(())
    }

    /// Writes a run of single-byte items over the live region at
    /// `offset`. The region must already cover the write: extend first.
    pub fn write_data_slice(&mut self, offset: usize, slice: &[u8]) -> (r: Result<
        (),
        BufferError,
    >)
        requires
            old(self).wf(),
        ensures
            final(self).wf(),
            final(self).spec_tailroom() == old(self).spec_tailroom(),
            match r {
                Ok(()) => {
                    &&& offset + slice@.len() <= old(self)@.len()
                    &&& final(self)@.len() == old(self)@.len()
                    &&& forall|i: int|
                        0 <= i < slice@.len() ==> final(self)@[offset + i] == slice@[i]
                    &&& forall|i: int|
                        0 <= i < old(self)@.len() && !(offset <= i < offset + slice@.len())
                            ==> final(self)@[i] == old(self)@[i]
                },
                Err(e) => {
                    &&& offset + slice@.len() > old(self)@.len()
                    &&& e == BufferError::OutOfBuffer(
                        slice@.len() as usize,
                        if offset <= old(self)@.len() {
                            (old(self)@.len() - offset) as usize
                        } else {
                            0
                        },
                    )
                    &&& final(self)@ == old(self)@
                },
            },
    {
        self.write_data(offset, slice)
    }

    /// A fresh buffer whose live bytes are a copy of `data`.
    ///
    /// Refused when `data` is empty or does not fit the default
    /// tailroom.
    pub fn from_bytes(data: &[u8]) -> (r: Result<Mbuf, BufferError>)
        ensures
            match r {
                Ok(m) => {
                    &&& 0 < data@.len() < DEFAULT_TAILROOM
                    &&& m.wf()
                    &&& m@ == data@
                    &&& m.spec_tailroom() == DEFAULT_TAILROOM - data@.len()
                },
                Err(e) => {
                    &&& e == BufferError::NotResized
                    &&& !(0 < data@.len() < DEFAULT_TAILROOM)
                },
            },
    {
        let mut mbuf = Mbuf::new();
        mbuf.extend(0, data.len())?;
        let res = mbuf.write_data_slice(0, data);
        proof {
            assert(res is Ok);
            assert(mbuf@ =~= data@);
        }
        Ok(mbuf)
    }

    /// A read-only observer of the same packet. The driver-backed buffer
    /// this models would alias the allocation under a tag whose drop
    /// does not release it to the pool; the model hands out its own copy
    /// of the region, so dropping or mutating the observer leaves the
    /// original untouched either way.
    pub fn peek(&self) -> (r: Mbuf)
        requires
            self.wf(),
        ensures
            r.wf(),
            r@ == self@,
            r.spec_tailroom() == self.spec_tailroom(),
    {
        let n = self.buf.len();
        let mut buf: Vec<u8> = Vec::new();
        let mut i: usize = 0;
        while i < n
            invariant
                n == self.buf@.len(),
                i <= n,
                buf@.len() == i,
                forall|j: int| 0 <= j < i ==> buf@[j] == self.buf@[j],
            decreases n - i,
        {
            buf.push(self.buf[i]);
            i = i + 1;
        }
        let r = Mbuf { buf, data_off: self.data_off, data_len: self.data_len };
        proof {
            assert(r@ =~= self@);
        }
        r
    }

    /// Copies out `n` live bytes at `offset`; the caller shows the range
    /// is in bounds.
    pub(crate) fn read_bytes(&self, offset: usize, n: usize) -> (r: Vec<u8>)
        requires
            self.wf(),
            offset + n <= self@.len(),
        ensures
            r@ == self@.subrange(offset as int, offset + n),
    {
        let mut v: Vec<u8> = Vec::new();
        let mut i: usize = 0;
        while i < n
            invariant
                self.wf(),
                offset + n <= self@.len(),
                i <= n,
                v@.len() == i,
                forall|j: int| 0 <= j < i ==> v@[j] == self@[offset + j],
            decreases n - i,
        {
            v.push(self.byte_at(offset + i));
            i = i + 1;
        }
        proof {
            assert(v@ =~= self@.subrange(offset as int, offset + n));
        }
        v
    }

    /// Overwrites live bytes at `offset` with `item`; the caller shows
    /// the range is in bounds.
    pub(crate) fn write_bytes(&mut self, offset: usize, item: &[u8])
        requires
            old(self).wf(),
            offset + item@.len() <= old(self)@.len(),
        ensures
            final(self).wf(),
            final(self).spec_tailroom() == old(self).spec_tailroom(),
            final(self)@.len() == old(self)@.len(),
            forall|i: int| 0 <= i < item@.len() ==> final(self)@[offset + i] == item@[i],
            forall|i: int|
                0 <= i < old(self)@.len() && !(offset <= i < offset + item@.len())
                    ==> final(self)@[i] == old(self)@[i],
    {
        let r = self.write_data(offset, item);
        proof {
            assert(r is Ok);
        }
    }

    /// Allocates `len` fresh buffers.
    pub fn alloc_bulk(len: usize) -> (r: Vec<Mbuf>)
        ensures
            r@.len() == len,
            forall|i: int|
                0 <= i < len ==> (#[trigger] r@[i]).wf() && r@[i]@.len() == 0
                    && r@[i].spec_tailroom() == DEFAULT_TAILROOM,
    {
        let mut v: Vec<Mbuf> = Vec::new();
        let mut i: usize = 0;
        while i < len
            invariant
                i <= len,
                v@.len() == i,
                forall|j: int|
                    0 <= j < i ==> (#[trigger] v@[j]).wf() && v@[j]@.len() == 0
                        && v@[j].spec_tailroom() == DEFAULT_TAILROOM,
            decreases len - i,
        {
            v.push(Mbuf::new());
            i = i + 1;
        }
        v
    }
}

/// A vector of `n` zero bytes, the default contents of a freshly pushed
/// header.
pub(crate) fn zero_vec(n: usize) -> (r: Vec<u8>)
    ensures
        r@.len() == n,
        forall|i: int| 0 <= i < n ==> r@[i] == 0,
{
    let mut v: Vec<u8> = Vec::new();
    let mut i: usize = 0;
    while i < n
        invariant
            i <= n,
            v@.len() == i,
            forall|j: int| 0 <= j < i ==> v@[j] == 0,
        decreases n - i,
    {
        v.push(0u8);
        i = i + 1;
    }
    v
}

/// Extending and then shrinking with the same offset and length restores
/// the live bytes exactly, whatever the opened bytes held in between.
pub proof fn lemma_extend_then_shrink_inverse(
    v0: Seq<u8>,
    v1: Seq<u8>,
    v2: Seq<u8>,
    offset: int,
    len: int,
)
    requires
        0 <= offset <= v0.len(),
        0 < len,
        extend_effect(v0, v1, offset, len),
        shrink_effect(v1, v2, offset, len),
    ensures
        v2 == v0,
{
    assert forall|i: int| 0 <= i < v0.len() implies v2[i] == v0[i] by {
        if i < offset {
            assert(v2[i] == v1[i]);
            assert(v1[i] == v0[i]);
        } else {
            assert(v1[i + len] == v0[i]);
            assert(v2[(i + len) - len] == v1[i + len]);
        }
    }
    assert(v2 =~= v0);
}

} // verus!
