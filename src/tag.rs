use vstd::prelude::*;

use crate::error::{ProtobufZeroError, WireType, WireTypeError};
use crate::varint::{decode_var_int, varint_len, varint_u64, varint_value, VarIntTarget};

verus! {

/// The wire type that a three-bit code names, if any.
pub open spec fn wire_type_of(code: nat) -> Option<WireType> {
    if code == 0 {
        Some(WireType::VarInt)
    } else if code == 1 {
        Some(WireType::Fixed64)
    } else if code == 2 {
        Some(WireType::LengthDelimited)
    } else if code == 3 {
        Some(WireType::StartGroup)
    } else if code == 4 {
        Some(WireType::EndGroup)
    } else if code == 5 {
        Some(WireType::Fixed32)
    } else {
        None
    }
}

/// The 32-bit value of the tag varint of `n` bytes at the front of `s`.
pub open spec fn tag_value(s: Seq<u8>, n: nat) -> u32 {
    <u32 as VarIntTarget>::truncate_spec(varint_u64(s, n))
}

/// A tag of one byte (its continuation bit clear) is that byte, whatever
/// follows; it names a wire type exactly where its three low bits are at
/// most 5.
pub proof fn lemma_single_byte_tag(b: u8, rest: Seq<u8>)
    requires
        b < 0x80,
    ensures
        varint_len(seq![b] + rest) == Some(1nat),
        tag_value(seq![b] + rest, 1) == b as u32,
        wire_type_of((b % 8) as nat) is Some <==> b % 8 <= 5,
{
    let s = seq![b] + rest;
    assert(s[0] == b);
    assert(s.take(1) =~= seq![b]);
    assert(seq![b].drop_first() =~= Seq::<u8>::empty());
    assert(varint_value(Seq::<u8>::empty()) == 0);
    assert(varint_value(seq![b]) == b as nat);
}

impl WireType {
    /// The wire type with the given code, or the code back as an error.
    pub fn from_code(code: u8) -> (r: Result<WireType, WireTypeError>)
        ensures
            match wire_type_of(code as nat) {
                Some(w) => r == Ok::<WireType, WireTypeError>(w),
                None => r == Err::<WireType, WireTypeError>(WireTypeError::Unknown(code)),
            },
    {
        match code {
            0 => Ok(WireType::VarInt),
            1 => Ok(WireType::Fixed64),
            2 => Ok(WireType::LengthDelimited),
            3 => Ok(WireType::StartGroup),
            4 => Ok(WireType::EndGroup),
            5 => Ok(WireType::Fixed32),
            _ => Err(WireTypeError::Unknown(code)),
        }
    }
}

/// Decodes a field tag: its wire type from the three low bits of a varint,
/// its field number from the bits above them. Where the wire type is unknown
/// the cursor is not moved.
pub fn decode_tag<'a>(buf: &mut &'a [u8]) -> (r: Result<(WireType, u32), ProtobufZeroError>)
    ensures
        match varint_len(old(buf)@) {
            Some(n) => {
                let v = tag_value(old(buf)@, n);
                match wire_type_of((v % 8) as nat) {
                    Some(w) => r == Ok::<(WireType, u32), ProtobufZeroError>((w, v / 8))
                        && final(buf)@ == old(buf)@.skip(n as int),
                    None => r == Err::<(WireType, u32), ProtobufZeroError>(
                        ProtobufZeroError::InvalidWireType(WireTypeError::Unknown((v % 8) as u8)),
                    ) && final(buf)@ == old(buf)@,
                }
            },
            None => r == Err::<(WireType, u32), ProtobufZeroError>(ProtobufZeroError::ShortBuffer)
                && final(buf)@ == old(buf)@,
        },
{
    let mut probe: &'a [u8] = *buf;
    let v: u32 = match decode_var_int::<u32>(&mut probe) {
        Ok(v) => v,
        Err(e) => return Err(e),
    };
    let code: u8 = (v & 7) as u8;
    let field: u32 = v >> 3;
    assert(code == v % 8 && field == v / 8) by (bit_vector)
        requires
            code == (v & 7) as u8,
            field == v >> 3,
    ;
    match WireType::from_code(code) {
        Ok(w) => {
            *buf = probe;
            Ok((w, field))
        },
        Err(e) => Err(ProtobufZeroError::InvalidWireType(e)),
    }
}

} // verus!
