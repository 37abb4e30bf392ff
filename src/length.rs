use vstd::prelude::*;
use vstd::slice::slice_subrange;

use crate::cursor::advance;
use crate::error::ProtobufZeroError;
use crate::varint::{decode_var_int, lemma_varint_len_in_bounds, varint_len, varint_u64};

verus! {

/// The sizes of the length prefix and of the payload of the length-delimited
/// value at the front of `s`, where the prefix is complete and the payload is
/// all there.
pub open spec fn length_delimited(s: Seq<u8>) -> Option<(nat, nat)> {
    match varint_len(s) {
        Some(n) => {
            let len = varint_u64(s, n) as nat;
            if len <= s.len() - n {
                Some((n, len))
            } else {
                None
            }
        },
        None => None,
    }
}

/// Decodes a varint length and returns that many bytes after it, a view into
/// the input.
pub fn decode_var_length<'a>(buf: &mut &'a [u8]) -> (r: Result<&'a [u8], ProtobufZeroError>)
    ensures
        match length_delimited(old(buf)@) {
            Some((n, len)) => (r matches Ok(d) && d@ == old(buf)@.subrange(n as int, (n + len) as int))
                && final(buf)@ == old(buf)@.skip((n + len) as int),
            None => r == Err::<&'a [u8], ProtobufZeroError>(ProtobufZeroError::ShortBuffer)
                && final(buf)@ == old(buf)@,
        },
{
    let ghost s = (*buf)@;
    let mut probe: &'a [u8] = *buf;
    let len: u64 = match decode_var_int::<u64>(&mut probe) {
        Ok(len) => len,
        Err(e) => return Err(e),
    };
    let ghost n = varint_len(s)->Some_0;
    proof {
        lemma_varint_len_in_bounds(s);
    }
    assert(varint_len(s) is Some && probe@ == s.skip(n as int) && len == varint_u64(s, n));
    if len > probe.len() as u64 {
        return Err(ProtobufZeroError::ShortBuffer);
    }
    let count: usize = len as usize;
    let data: &'a [u8] = slice_subrange(probe, 0, count);
    advance(&mut probe, count);
    proof {
        assert(data@ =~= s.subrange(n as int, n + count));
        assert(probe@ =~= s.skip(n + count));
    }
    *buf = probe;
    Ok(data)
}

} // verus!
