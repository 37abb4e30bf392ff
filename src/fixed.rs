use vstd::arithmetic::power2::{lemma2_to64, lemma2_to64_rest, lemma_pow2_adds, pow2};
use vstd::prelude::*;

use crate::cursor::{advance, peek_bytes};
use crate::error::ProtobufZeroError;

verus! {

/// The number that the bytes of `s` spell in base 256, least significant
/// byte first.
pub open spec fn le_value(s: Seq<u8>) -> nat
    decreases s.len(),
{
    if s.len() == 0 {
        0
    } else {
        s[0] as nat + 256 * le_value(s.drop_first())
    }
}

/// `n` bytes spell a number below 2^(8n).
proof fn lemma_le_value_bound(s: Seq<u8>)
    ensures
        le_value(s) < pow2(8 * s.len()),
    decreases s.len(),
{
    lemma2_to64();
    if s.len() > 0 {
        lemma_le_value_bound(s.drop_first());
        lemma_pow2_adds(8, 8 * (s.len() - 1) as nat);
        let p = pow2(8 * (s.len() - 1) as nat);
        let v = le_value(s.drop_first());
        let b = s[0] as nat;
        assert(b + 256 * v < 256 * p) by (nonlinear_arith)
            requires
                b < 256,
                v < p,
        ;
        assert(8 + 8 * (s.len() - 1) == 8 * s.len());
    }
}

/// The little-endian number held by at most eight bytes.
fn le_bytes_value(bytes: &[u8]) -> (r: u64)
    requires
        bytes@.len() <= 8,
    ensures
        r as nat == le_value(bytes@),
{
    let ghost s = bytes@;
    let mut acc: u64 = 0;
    let mut i: usize = bytes.len();
    while i > 0
        invariant
            s == bytes@,
            i <= s.len() <= 8,
            acc as nat == le_value(s.skip(i as int)),
        decreases i,
    {
        i = i - 1;
        proof {
            assert(s.skip(i as int).drop_first() =~= s.skip(i + 1));
            lemma_le_value_bound(s.skip(i as int));
            lemma2_to64();
            lemma2_to64_rest();
            if 8 * (s.len() - i) < 64 {
                vstd::arithmetic::power2::lemma_pow2_strictly_increases(8 * (s.len() - i) as nat, 64);
            }
        }
        acc = bytes[i] as u64 + 256 * acc;
    }
    assert(s.skip(0) =~= s);
    acc
}

/// A type that four bytes can be read as, bit for bit.
pub trait Fixed32Target: Sized {
    spec fn from_bits_spec(bits: u32) -> Self;

    fn from_bits(bits: u32) -> (r: Self)
        ensures
            r == Self::from_bits_spec(bits),
    ;
}

/// A type that eight bytes can be read as, bit for bit.
pub trait Fixed64Target: Sized {
    spec fn from_bits_spec(bits: u64) -> Self;

    fn from_bits(bits: u64) -> (r: Self)
        ensures
            r == Self::from_bits_spec(bits),
    ;
}

impl Fixed32Target for u32 {
    open spec fn from_bits_spec(bits: u32) -> u32 {
        bits
    }

    fn from_bits(bits: u32) -> (r: u32) {
        bits
    }
}

impl Fixed32Target for i32 {
    open spec fn from_bits_spec(bits: u32) -> i32 {
        bits as i32
    }

    fn from_bits(bits: u32) -> (r: i32) {
        bits as i32
    }
}

impl Fixed64Target for u64 {
    open spec fn from_bits_spec(bits: u64) -> u64 {
        bits
    }

    fn from_bits(bits: u64) -> (r: u64) {
        bits
    }
}

impl Fixed64Target for i64 {
    open spec fn from_bits_spec(bits: u64) -> i64 {
        bits as i64
    }

    fn from_bits(bits: u64) -> (r: i64) {
        bits as i64
    }
}

/// Decodes four little-endian bytes as a `T`.
pub fn decode_fixed_32<'a, T: Fixed32Target>(buf: &mut &'a [u8]) -> (r: Result<T, ProtobufZeroError>)
    ensures
        old(buf)@.len() >= 4 ==> r == Ok::<T, ProtobufZeroError>(
            T::from_bits_spec(le_value(old(buf)@.take(4)) as u32),
        ) && final(buf)@ == old(buf)@.skip(4),
        old(buf)@.len() < 4 ==> r == Err::<T, ProtobufZeroError>(ProtobufZeroError::ShortBuffer)
            && final(buf)@ == old(buf)@,
{
    let bytes: &'a [u8] = match peek_bytes(*buf, 4) {
        Ok(p) => p,
        Err(e) => return Err(e),
    };
    let v: u64 = le_bytes_value(bytes);
    proof {
        lemma_le_value_bound(bytes@);
        lemma2_to64();
    }
    advance(buf, 4);
    Ok(T::from_bits(v as u32))
}

/// Decodes eight little-endian bytes as a `T`.
pub fn decode_fixed_64<'a, T: Fixed64Target>(buf: &mut &'a [u8]) -> (r: Result<T, ProtobufZeroError>)
    ensures
        old(buf)@.len() >= 8 ==> r == Ok::<T, ProtobufZeroError>(
            T::from_bits_spec(le_value(old(buf)@.take(8)) as u64),
        ) && final(buf)@ == old(buf)@.skip(8),
        old(buf)@.len() < 8 ==> r == Err::<T, ProtobufZeroError>(ProtobufZeroError::ShortBuffer)
            && final(buf)@ == old(buf)@,
{
    let bytes: &'a [u8] = match peek_bytes(*buf, 8) {
        Ok(p) => p,
        Err(e) => return Err(e),
    };
    let v: u64 = le_bytes_value(bytes);
    advance(buf, 8);
    Ok(T::from_bits(v))
}

} // verus!
