use vstd::prelude::*;

use crate::error::ProtobufZeroError;
use crate::varint::{decode_var_int, varint_len, varint_u64};

verus! {

/// The signed number that a zig-zag code stands for: even codes are the
/// non-negative numbers, odd codes the negative ones.
pub open spec fn zigzag_value(u: u64) -> int {
    if u % 2 == 0 {
        (u / 2) as int
    } else {
        -((u as int + 1) / 2)
    }
}

/// The zig-zag code of a signed number: twice a non-negative number, or one
/// less than twice the magnitude of a negative one.
pub open spec fn zigzag_encode(i: i64) -> u64 {
    if i >= 0 {
        (2 * i) as u64
    } else {
        (-2 * i - 1) as u64
    }
}

/// Every signed 64-bit number has a zig-zag code, which maps back to it.
pub proof fn lemma_zigzag_round_trip(i: i64)
    ensures
        zigzag_value(zigzag_encode(i)) == i as int,
{
}

/// Maps a zig-zag code back to its signed number.
pub fn zigzag_decode(u: u64) -> (r: i64)
    ensures
        r as int == zigzag_value(u),
{
    let half: u64 = u >> 1;
    let low: u64 = u & 1;
    assert(half == u / 2 && low == u % 2) by (bit_vector)
        requires
            half == u >> 1,
            low == u & 1,
    ;
    if low == 0 {
        half as i64
    } else {
        -(half as i64) - 1
    }
}

/// Decodes a varint and maps it from its zig-zag code to a signed number.
pub fn decode_var_signed_i64<'a>(buf: &mut &'a [u8]) -> (r: Result<i64, ProtobufZeroError>)
    ensures
        match varint_len(old(buf)@) {
            Some(n) => (r matches Ok(x) && x as int == zigzag_value(varint_u64(old(buf)@, n)))
                && final(buf)@ == old(buf)@.skip(n as int),
            None => r == Err::<i64, ProtobufZeroError>(ProtobufZeroError::ShortBuffer)
                && final(buf)@ == old(buf)@,
        },
{
    match decode_var_int::<u64>(buf) {
        Ok(u) => Ok(zigzag_decode(u)),
        Err(e) => Err(e),
    }
}

} // verus!
