//! Shared immutable byte buffers.

use vstd::prelude::*;

use std::rc::Rc;

verus! {

/// A reference-counted, immutable byte buffer: cloning shares the bytes
/// instead of copying them.
pub type Buffer = Rc<Vec<u8>>;

/// Relies on `Rc::clone`: the clone is a handle to the same allocation, so
/// it equals the original and no bytes are copied.
#[verifier::external_body]
pub(crate) fn share(buf: &Buffer) -> (r: Buffer)
    ensures
        r == *buf,
{
    Rc::clone(buf)
}

} // verus!
