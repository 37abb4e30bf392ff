use vstd::prelude::*;
use vstd::slice::slice_subrange;

use crate::error::ProtobufZeroError;

verus! {

/// The first `count` bytes of `buf`, without consuming them.
pub fn peek_bytes<'a>(buf: &'a [u8], count: usize) -> (r: Result<&'a [u8], ProtobufZeroError>)
    ensures
        count <= buf@.len() ==> (r matches Ok(p) && p@ == buf@.take(count as int)),
        count > buf@.len() ==> r == Err::<&'a [u8], ProtobufZeroError>(ProtobufZeroError::ShortBuffer),
{
    if count > buf.len() {
        Err(ProtobufZeroError::ShortBuffer)
    } else {
        Ok(slice_subrange(buf, 0, count))
    }
}

/// Drops the first `count` bytes of the cursor.
pub fn advance<'a>(buf: &mut &'a [u8], count: usize)
    requires
        count <= old(buf)@.len(),
    ensures
        final(buf)@ == old(buf)@.skip(count as int),
{
    let rest = *buf;
    *buf = slice_subrange(rest, count, rest.len());
}

} // verus!
