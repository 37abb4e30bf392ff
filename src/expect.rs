use vstd::prelude::*;
use vstd::slice::slice_subrange;

use crate::error::{ProtobufZeroError, WireType};

verus! {

/// Whether two byte slices hold the same bytes.
pub fn same_bytes(a: &[u8], b: &[u8]) -> (r: bool)
    ensures
        r == (a@ == b@),
{
    if a.len() != b.len() {
        return false;
    }
    let mut i: usize = 0;
    while i < a.len()
        invariant
            a@.len() == b@.len(),
            i <= a@.len(),
            forall|j: int| 0 <= j < i ==> a@[j] == b@[j],
        decreases a@.len() - i,
    {
        if a[i] != b[i] {
            return false;
        }
        i = i + 1;
    }
    assert(a@ =~= b@);
    true
}

/// A decoded value that can be compared with an expected one.
pub trait DecodedValue: Sized {
    /// Whether `self` and `other` are the same value.
    spec fn same_value(&self, other: &Self) -> bool;

    fn is_same(&self, other: &Self) -> (r: bool)
        ensures
            r == self.same_value(other),
    ;
}

impl DecodedValue for u8 {
    open spec fn same_value(&self, other: &u8) -> bool {
        *self == *other
    }

    fn is_same(&self, other: &u8) -> (r: bool) {
        *self == *other
    }
}

impl DecodedValue for u16 {
    open spec fn same_value(&self, other: &u16) -> bool {
        *self == *other
    }

    fn is_same(&self, other: &u16) -> (r: bool) {
        *self == *other
    }
}

impl DecodedValue for u32 {
    open spec fn same_value(&self, other: &u32) -> bool {
        *self == *other
    }

    fn is_same(&self, other: &u32) -> (r: bool) {
        *self == *other
    }
}

impl DecodedValue for u64 {
    open spec fn same_value(&self, other: &u64) -> bool {
        *self == *other
    }

    fn is_same(&self, other: &u64) -> (r: bool) {
        *self == *other
    }
}

impl DecodedValue for i32 {
    open spec fn same_value(&self, other: &i32) -> bool {
        *self == *other
    }

    fn is_same(&self, other: &i32) -> (r: bool) {
        *self == *other
    }
}

impl DecodedValue for i64 {
    open spec fn same_value(&self, other: &i64) -> bool {
        *self == *other
    }

    fn is_same(&self, other: &i64) -> (r: bool) {
        *self == *other
    }
}

impl DecodedValue for (WireType, u32) {
    open spec fn same_value(&self, other: &(WireType, u32)) -> bool {
        self.0 == other.0 && self.1 == other.1
    }

    fn is_same(&self, other: &(WireType, u32)) -> (r: bool) {
        self.0 == other.0 && self.1 == other.1
    }
}

impl<'a> DecodedValue for &'a [u8] {
    open spec fn same_value(&self, other: &&'a [u8]) -> bool {
        (*self)@ == (*other)@
    }

    fn is_same(&self, other: &&'a [u8]) -> (r: bool) {
        same_bytes(*self, *other)
    }
}

impl<X: DecodedValue> DecodedValue for Result<X, ProtobufZeroError> {
    open spec fn same_value(&self, other: &Result<X, ProtobufZeroError>) -> bool {
        match (self, other) {
            (Ok(a), Ok(b)) => a.same_value(b),
            (Err(a), Err(b)) => a == b,
            _ => false,
        }
    }

    fn is_same(&self, other: &Result<X, ProtobufZeroError>) -> (r: bool) {
        match (self, other) {
            (Ok(a), Ok(b)) => a.is_same(b),
            (Err(a), Err(b)) => *a == *b,
            _ => false,
        }
    }
}

/// Runs `function` on a cursor over `buffer`, and tells whether it returned
/// `expected` and left the cursor on the bytes from `offset` on.
pub fn run_test<'a, T: DecodedValue, F: FnOnce(&mut &'a [u8]) -> T>(
    buffer: &'a [u8],
    offset: usize,
    expected: T,
    function: F,
) -> (r: bool)
    requires
        forall|c: &mut &'a [u8]| #[trigger] function.requires((c,)),
    ensures
        offset > buffer@.len() ==> !r,
        offset <= buffer@.len() ==> {
            &&& (forall|c: &mut &'a [u8], out: T|
                #[trigger] function.ensures((c,), out) && *c == buffer ==> out.same_value(&expected)
                    && (*final(c))@ == buffer@.skip(offset as int)) ==> r
            &&& (forall|c: &mut &'a [u8], out: T|
                #[trigger] function.ensures((c,), out) && *c == buffer ==> !(out.same_value(
                    &expected,
                ) && (*final(c))@ == buffer@.skip(offset as int))) ==> !r
        },
{
    if offset > buffer.len() {
        return false;
    }
    let backup: &'a [u8] = slice_subrange(buffer, offset, buffer.len());
    let mut slice: &'a [u8] = buffer;
    let result = function(&mut slice);
    assert(backup@ =~= buffer@.skip(offset as int));
    result.is_same(&expected) && same_bytes(slice, backup)
}

} // verus!
