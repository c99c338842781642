//! Casts between integer types that keep the low 32 bits.

use vstd::prelude::*;

verus! {

/// How many values 32 bits can hold.
pub const TWO_POW_32: u64 = 0x1_0000_0000;

/// The signed number that has the same 32 bits as `x`.
pub open spec fn signed(x: u32) -> int {
    if x < 0x8000_0000 {
        x as int
    } else {
        x - TWO_POW_32
    }
}

/// The unsigned number that has the same 32 bits as `x`.
pub open spec fn unsigned(x: i32) -> int {
    if x >= 0 {
        x as int
    } else {
        x + TWO_POW_32
    }
}

pub fn to_signed(x: u32) -> (r: i32)
    ensures
        r == signed(x),
{
    let r: i32 = x as i32;
    assert(x >= 0x8000_0000u32 ==> (x as i32) == x - 0x1_0000_0000) by (bit_vector);
    r
}

pub fn to_unsigned(x: i32) -> (r: u32)
    ensures
        r == unsigned(x),
{
    let r: u32 = x as u32;
    assert(x < 0i32 ==> (x as u32) == x + 0x1_0000_0000) by (bit_vector);
    r
}

/// The low 32 bits of `x`.
pub fn low_bits(x: usize) -> (r: u32)
    ensures
        r == x as int % TWO_POW_32 as int,
{
    let wide: u64 = x as u64;
    assert((wide as u32) == wide % 0x1_0000_0000u64) by (bit_vector);
    x as u32
}

/// The two casts undo each other.
pub proof fn lemma_signed_unsigned(x: u32, y: i32)
    ensures
        unsigned(signed(x) as i32) == x,
        signed(unsigned(y) as u32) == y,
{
}

} // verus!
