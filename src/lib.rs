//! A small, allocation-free decoder for the Protocol Buffers wire format.
//!
//! Every decoder takes the remaining input as `&mut &[u8]`. On success the
//! slice is moved past exactly the bytes of the decoded value; on failure it
//! is left as it was.

pub mod cursor;
pub mod error;
pub mod expect;
pub mod fixed;
pub mod length;
pub mod tag;
pub mod varint;
pub mod zigzag;

pub use cursor::{advance, peek_bytes};
pub use expect::{run_test, same_bytes, DecodedValue};
pub use error::{ProtobufZeroError, WireType, WireTypeError};
pub use fixed::{decode_fixed_32, decode_fixed_64, Fixed32Target, Fixed64Target};
pub use length::decode_var_length;
pub use tag::decode_tag;
pub use varint::{decode_var_int, VarIntTarget};
pub use zigzag::{decode_var_signed_i64, zigzag_decode};
