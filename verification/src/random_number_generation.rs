//! Random-number generation choices of the surrounding program: which
//! source to draw from, what shape of output to produce, and the numeric
//! bounds of each selectable integer type.

use vstd::prelude::*;
use crate::enums::RustTypeSelect;

verus! {

/// The selectable random sources.
#[derive(Debug, PartialEq, Eq, Structural, Clone, Copy)]
pub enum RngType {
    Os,
    Std,
    ChaCha20,
}

/// The shapes of random output the program hands back.
#[derive(Debug, PartialEq, Clone)]
pub enum RngOutput<T> {
    Single(T),
    HexString(String),
    Vector(Vec<T>),
}

/// The inclusive bounds of each selectable integer type, as wide
/// integers; the 128-bit unsigned type exceeds them and reports a zero
/// range, and the floating type has none.
pub open spec fn spec_bounds_for_type(t: RustTypeSelect) -> Option<(i128, i128)> {
    match t {
        RustTypeSelect::U8 => Some((0i128, 255i128)),
        RustTypeSelect::I8 => Some((-128i128, 127i128)),
        RustTypeSelect::U16 => Some((0i128, 65535i128)),
        RustTypeSelect::I16 => Some((-32768i128, 32767i128)),
        RustTypeSelect::U32 => Some((0i128, 4294967295i128)),
        RustTypeSelect::I32 => Some((-2147483648i128, 2147483647i128)),
        RustTypeSelect::U64 => Some((0i128, 18446744073709551615i128)),
        RustTypeSelect::I64 => Some((-9223372036854775808i128, 9223372036854775807i128)),
        RustTypeSelect::U128 => Some((0i128, 0i128)),
        RustTypeSelect::I128 => Some((i128::MIN, i128::MAX)),
        RustTypeSelect::F32 => None,
    }
}

/// The bounds the bounded generation menu offers for a selected type.
pub fn get_bounds_for_type(rust_type: &RustTypeSelect) -> (r: Option<(i128, i128)>)
    ensures
        r == spec_bounds_for_type(*rust_type),
{
    match rust_type {
        RustTypeSelect::U8 => Some((0i128, 255i128)),
        RustTypeSelect::I8 => Some((-128i128, 127i128)),
        RustTypeSelect::U16 => Some((0i128, 65535i128)),
        RustTypeSelect::I16 => Some((-32768i128, 32767i128)),
        RustTypeSelect::U32 => Some((0i128, 4294967295i128)),
        RustTypeSelect::I32 => Some((-2147483648i128, 2147483647i128)),
        RustTypeSelect::U64 => Some((0i128, 18446744073709551615i128)),
        RustTypeSelect::I64 => Some((-9223372036854775808i128, 9223372036854775807i128)),
        RustTypeSelect::U128 => Some((0i128, 0i128)),
        RustTypeSelect::I128 => Some((i128::MIN, i128::MAX)),
        RustTypeSelect::F32 => None,
    }
}

} // verus!
