//! The disposition a per-packet callback hands back to the runtime, so
//! it knows what to do with the buffer(s): transmit, transmit one and
//! free another, free, or give up with an error.

use crate::mbuf::{BufferError, Mbuf};
use vstd::prelude::*;

verus! {

/// What the runtime should do with the buffer(s) after a callback.
pub enum Postmark {
    /// Transmit the buffer.
    Emit(Mbuf),
    /// Transmit the first buffer and free the second.
    EmitAndDrop(Mbuf, Mbuf),
    /// Free the buffer.
    Drop(Mbuf),
    /// Report the error to the runtime, which logs it and drops the
    /// packet.
    Abort(BufferError),
}

impl Postmark {
    /// Whether the disposition asks the runtime to transmit a buffer.
    pub fn emits(&self) -> (r: bool)
        ensures
            r == (self is Emit || self is EmitAndDrop),
    {
        match self {
            Postmark::Emit(_) => true,
            Postmark::EmitAndDrop(_, _) => true,
            Postmark::Drop(_) => false,
            Postmark::Abort(_) => false,
        }
    }
}

} // verus!
