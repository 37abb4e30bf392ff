use vstd::prelude::*;

verus! {

/// The six wire types of a field tag.
#[derive(Debug, Clone, Copy, PartialEq, Eq, Structural)]
pub enum WireType {
    VarInt,
    Fixed64,
    LengthDelimited,
    StartGroup,
    EndGroup,
    Fixed32,
}

/// Why the wire-type bits of a tag could not be read.
#[derive(Debug, Clone, Copy, PartialEq, Eq, Structural)]
pub enum WireTypeError {
    /// The three low bits held this code, which names no wire type.
    Unknown(u8),
}

/// The errors of every decoder in this crate.
#[derive(Debug, Clone, Copy, PartialEq, Eq, Structural)]
pub enum ProtobufZeroError {
    /// The input ended before the value did.
    ShortBuffer,
    /// A tag carried a wire type that is not known.
    InvalidWireType(WireTypeError),
}

} // verus!
