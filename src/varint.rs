use vstd::arithmetic::div_mod::{lemma_mod_multiples_vanish, lemma_small_mod};
use vstd::arithmetic::power2::{
    lemma2_to64, lemma2_to64_rest, lemma_pow2_adds, lemma_pow2_strictly_increases, pow2,
};
use vstd::bits::lemma_u64_shl_is_mul;
use vstd::prelude::*;

use crate::cursor::advance;
use crate::error::ProtobufZeroError;

verus! {

/// 2^64, the modulus of a 64-bit accumulator.
pub open spec fn two_to_64() -> nat {
    0x1_0000_0000_0000_0000
}

/// Whether `b` ends a varint (its continuation bit is clear).
pub open spec fn is_last_byte(b: u8) -> bool {
    b < 0x80
}

/// The number of bytes of the varint at the front of `s`: up to and including
/// the first byte whose continuation bit is clear, or `None` where no such
/// byte is present.
pub open spec fn varint_len(s: Seq<u8>) -> Option<nat>
    decreases s.len(),
{
    if s.len() == 0 {
        None
    } else if is_last_byte(s[0]) {
        Some(1)
    } else {
        match varint_len(s.drop_first()) {
            Some(n) => Some(n + 1),
            None => None,
        }
    }
}

/// The number that the low seven bits of each byte of `s` spell in base 128,
/// least significant group first.
pub open spec fn varint_value(s: Seq<u8>) -> nat
    decreases s.len(),
{
    if s.len() == 0 {
        0
    } else {
        (s[0] % 128) as nat + 128 * varint_value(s.drop_first())
    }
}

/// The value of the first `n` bytes of `s` read as a varint, truncated to 64
/// bits.
pub open spec fn varint_u64(s: Seq<u8>, n: nat) -> u64 {
    (varint_value(s.take(n as int)) % two_to_64()) as u64
}

/// The shortest varint that spells `v`.
pub open spec fn varint_encode(v: nat) -> Seq<u8>
    decreases v,
{
    if v < 128 {
        seq![v as u8]
    } else {
        seq![(v % 128 + 128) as u8] + varint_encode(v / 128)
    }
}

/// An unsigned integer type that a varint can be decoded into: the decoded
/// 64-bit value keeps as many low bits as the type has.
pub trait VarIntTarget: Sized {
    spec fn truncate_spec(v: u64) -> Self;

    fn truncate(v: u64) -> (r: Self)
        ensures
            r == Self::truncate_spec(v),
    ;
}

impl VarIntTarget for u8 {
    open spec fn truncate_spec(v: u64) -> u8 {
        (v % 0x100) as u8
    }

    fn truncate(v: u64) -> (r: u8) {
        assert(v as u8 == (v % 0x100) as u8) by (bit_vector);
        v as u8
    }
}

impl VarIntTarget for u16 {
    open spec fn truncate_spec(v: u64) -> u16 {
        (v % 0x1_0000) as u16
    }

    fn truncate(v: u64) -> (r: u16) {
        assert(v as u16 == (v % 0x1_0000) as u16) by (bit_vector);
        v as u16
    }
}

impl VarIntTarget for u32 {
    open spec fn truncate_spec(v: u64) -> u32 {
        (v % 0x1_0000_0000) as u32
    }

    fn truncate(v: u64) -> (r: u32) {
        assert(v as u32 == (v % 0x1_0000_0000) as u32) by (bit_vector);
        v as u32
    }
}

impl VarIntTarget for u64 {
    open spec fn truncate_spec(v: u64) -> u64 {
        v
    }

    fn truncate(v: u64) -> (r: u64) {
        v
    }
}

/// A varint found at the front of `s` lies within `s`.
pub proof fn lemma_varint_len_in_bounds(s: Seq<u8>)
    ensures
        varint_len(s) matches Some(n) ==> 1 <= n <= s.len(),
    decreases s.len(),
{
    if s.len() > 0 {
        lemma_varint_len_in_bounds(s.drop_first());
    }
}

/// The encoding of `v`, with any bytes after it, is read back as a varint of
/// exactly its own length, whose value is `v`.
proof fn lemma_varint_encode_decodes(v: nat, rest: Seq<u8>)
    ensures
        varint_len(varint_encode(v) + rest) == Some(varint_encode(v).len()),
        varint_value(varint_encode(v)) == v,
    decreases v,
{
    let e = varint_encode(v);
    if v < 128 {
        assert((e + rest)[0] == v as u8);
        assert(e.drop_first() =~= Seq::<u8>::empty());
        assert(varint_value(Seq::<u8>::empty()) == 0);
    } else {
        let tail = varint_encode(v / 128);
        lemma_varint_encode_decodes(v / 128, rest);
        assert((e + rest)[0] == (v % 128 + 128) as u8);
        assert((e + rest).drop_first() =~= tail + rest);
        assert(e.drop_first() =~= tail);
        assert(e[0] == (v % 128 + 128) as u8);
        assert(((v % 128 + 128) as u8) % 128 == v % 128);
        assert(v == v % 128 + 128 * (v / 128));
    }
}

/// Encoding any 64-bit value as a varint and decoding it gives the value back,
/// whatever follows, and consumes exactly the encoding.
pub proof fn lemma_varint_round_trip(v: u64, rest: Seq<u8>)
    ensures
        varint_len(varint_encode(v as nat) + rest) == Some(varint_encode(v as nat).len()),
        varint_u64(varint_encode(v as nat) + rest, varint_encode(v as nat).len()) == v,
{
    let e = varint_encode(v as nat);
    lemma_varint_encode_decodes(v as nat, rest);
    assert((e + rest).take(e.len() as int) =~= e);
    lemma_small_mod(v as nat, two_to_64());
}

/// Appending a byte adds its seven bits at the next position.
proof fn lemma_varint_value_push(s: Seq<u8>, b: u8)
    ensures
        varint_value(s.push(b)) == varint_value(s) + (b % 128) as nat * pow2(7 * s.len()),
    decreases s.len(),
{
    if s.len() == 0 {
        assert(s.push(b).drop_first() =~= Seq::<u8>::empty());
        assert(varint_value(Seq::<u8>::empty()) == 0);
        assert(varint_value(s) == 0);
        assert(pow2(0) == 1) by {
            lemma2_to64();
        }
    } else {
        assert(s.push(b).drop_first() =~= s.drop_first().push(b));
        assert(s.push(b)[0] == s[0]);
        lemma_varint_value_push(s.drop_first(), b);
        lemma_pow2_adds(7, 7 * (s.len() - 1) as nat);
        assert(7 + 7 * (s.len() - 1) == 7 * s.len());
        assert(pow2(7) == 128) by {
            lemma2_to64();
        }
        let p = pow2(7 * (s.len() - 1) as nat);
        let c = (b % 128) as nat;
        assert(128 * (varint_value(s.drop_first()) + c * p) == 128 * varint_value(s.drop_first())
            + c * (128 * p)) by (nonlinear_arith);
    }
}

/// A varint of `n` bytes is less than 2^(7n).
proof fn lemma_varint_value_bound(s: Seq<u8>)
    ensures
        varint_value(s) < pow2(7 * s.len()),
    decreases s.len(),
{
    if s.len() == 0 {
        lemma2_to64();
    } else {
        lemma_varint_value_bound(s.drop_first());
        lemma_pow2_adds(7, 7 * (s.len() - 1) as nat);
        lemma2_to64();
        let p = pow2(7 * (s.len() - 1) as nat);
        let v = varint_value(s.drop_first());
        let c = (s[0] % 128) as nat;
        assert(c + 128 * v < 128 * p) by (nonlinear_arith)
            requires
                c < 128,
                v < p,
        ;
    }
}

/// Where every byte before `i` continues and byte `i` ends, the varint has
/// `i + 1` bytes; where every byte continues, there is none.
proof fn lemma_varint_len_scan(s: Seq<u8>, i: nat)
    requires
        i <= s.len(),
        forall|j: int| 0 <= j < i ==> !is_last_byte(#[trigger] s[j]),
    ensures
        i < s.len() && is_last_byte(s[i as int]) ==> varint_len(s) == Some(i + 1),
        i == s.len() ==> varint_len(s) == None::<nat>,
    decreases i,
{
    if i > 0 {
        assert forall|j: int| 0 <= j < i - 1 implies !is_last_byte(#[trigger] s.drop_first()[j]) by {
            assert(s.drop_first()[j] == s[j + 1]);
        }
        lemma_varint_len_scan(s.drop_first(), (i - 1) as nat);
        assert(!is_last_byte(s[0]));
        if i < s.len() {
            assert(s.drop_first()[i - 1] == s[i as int]);
        }
    }
}

/// Or-ing the next seven bits into the 64-bit accumulator adds them at their
/// position, modulo 2^64; from the tenth group on nothing is left to add.
proof fn lemma_accumulate(value: u64, v: nat, chunk: u64, i: nat, shift: u32)
    requires
        value as nat == v % two_to_64(),
        v < pow2(7 * i),
        chunk < 128,
        shift == if i <= 10 { 7 * i } else { 70 },
    ensures
        (if shift < 64 { value | (chunk << shift) } else { value }) as nat == (v + chunk as nat * pow2(7 * i))
            % two_to_64(),
{
    lemma2_to64();
    lemma2_to64_rest();
    let p = pow2(7 * i);
    if shift < 64 {
        lemma_pow2_strictly_increases(7 * i, 64);
        assert(v < two_to_64());
        assert(value as nat == v) by {
            lemma_small_mod(v, two_to_64());
        }
        if shift <= 56 {
            if 7 * i < 56 {
                lemma_pow2_strictly_increases(7 * i, 56);
            }
            lemma_u64_shl_is_mul(1, shift as u64);
            assert(chunk * p < 0x8000_0000_0000_0000) by (nonlinear_arith)
                requires
                    chunk < 128,
                    p <= 0x100_0000_0000_0000,
            ;
            lemma_u64_shl_is_mul(chunk, shift as u64);
            let sh = shift as u64;
            assert(value | (chunk << sh) == value + (chunk << sh)) by (bit_vector)
                requires
                    value < (1u64 << sh),
                    sh <= 56,
                    chunk < 128,
            ;
            lemma_small_mod((v + chunk * p) as nat, two_to_64());
        } else {
            assert(shift == 63);
            assert(value | (chunk << 63u32) == value + (chunk % 2) * 0x8000_0000_0000_0000) by (bit_vector)
                requires
                    value < 0x8000_0000_0000_0000,
                    chunk < 128,
            ;
            assert(v + chunk * p == two_to_64() * (chunk / 2) + (v + (chunk % 2) * p)) by (nonlinear_arith)
                requires
                    p == 0x8000_0000_0000_0000,
            ;
            lemma_mod_multiples_vanish((chunk / 2) as int, v + (chunk % 2) * p, two_to_64() as int);
            lemma_small_mod((v + (chunk % 2) * p) as nat, two_to_64());
        }
    } else {
        lemma_pow2_adds(64, (7 * i - 64) as nat);
        let q = pow2((7 * i - 64) as nat);
        assert(v + chunk * p == two_to_64() * (chunk * q) + v) by (nonlinear_arith)
            requires
                p == two_to_64() * q,
        ;
        lemma_mod_multiples_vanish((chunk * q) as int, v as int, two_to_64() as int);
    }
}

/// Decodes a base-128 varint into `T`, reading up to the first byte whose
/// continuation bit is clear. Bits beyond 64 are discarded, and so are those
/// beyond the width of `T`. A well-formed 64-bit varint has at most ten
/// bytes; a longer one is not an error but is read to its last byte, all of
/// whose bits past the tenth byte are discarded.
pub fn decode_var_int<'a, T: VarIntTarget>(buf: &mut &'a [u8]) -> (r: Result<T, ProtobufZeroError>)
    ensures
        match varint_len(old(buf)@) {
            Some(n) => r == Ok::<T, ProtobufZeroError>(T::truncate_spec(varint_u64(old(buf)@, n)))
                && final(buf)@ == old(buf)@.skip(n as int),
            None => r == Err::<T, ProtobufZeroError>(ProtobufZeroError::ShortBuffer)
                && final(buf)@ == old(buf)@,
        },
{
    let bytes: &'a [u8] = *buf;
    let ghost s = bytes@;
    let mut value: u64 = 0;
    let mut shift: u32 = 0;
    let mut i: usize = 0;
    assert(s.take(0) =~= Seq::<u8>::empty());
    assert(varint_value(s.take(0)) == 0);
    while i < bytes.len()
        invariant
            s == bytes@,
            s == old(buf)@,
            *buf == bytes,
            i <= s.len(),
            forall|j: int| 0 <= j < i ==> !is_last_byte(#[trigger] s[j]),
            shift == if i <= 10 { 7 * i } else { 70 },
            value as nat == varint_value(s.take(i as int)) % two_to_64(),
        decreases s.len() - i,
    {
        let b = bytes[i];
        proof {
            assert(s.take(i + 1) =~= s.take(i as int).push(b));
            lemma_varint_value_push(s.take(i as int), b);
            lemma_varint_value_bound(s.take(i as int));
        }
        if shift < 64 {
            let chunk: u64 = (b & 0x7f) as u64;
            proof {
                assert(chunk == (b % 128) as u64) by (bit_vector)
                    requires
                        chunk == (b & 0x7f) as u64,
                ;
                lemma_accumulate(value, varint_value(s.take(i as int)), chunk, i as nat, shift);
            }
            value = value | (chunk << shift);
            shift = shift + 7;
        } else {
            proof {
                lemma_accumulate(value, varint_value(s.take(i as int)), (b % 128) as u64, i as nat, shift);
            }
        }
        i = i + 1;
        if b < 0x80 {
            proof {
                lemma_varint_len_scan(s, (i - 1) as nat);
            }
            advance(buf, i);
            return Ok(T::truncate(value));
        }
    }
    proof {
        lemma_varint_len_scan(s, i as nat);
    }
    Err(ProtobufZeroError::ShortBuffer)
}

} // verus!
