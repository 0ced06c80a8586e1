//! The per-chunk step of body materialization: a streamed body is drained by
//! appending each chunk, in stream order, to one growable buffer.

use vstd::prelude::*;

verus! {

/// Append one body chunk to the materialization buffer, keeping every byte
/// already read and the order of the stream.
pub fn extend_body_buffer(buf: &mut Vec<u8>, chunk: &[u8])
    ensures
        final(buf)@ == old(buf)@ + chunk@,
{
    buf.extend_from_slice(chunk);
}

} // verus!
