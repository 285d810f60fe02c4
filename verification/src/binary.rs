//! Packing of two 32-bit integers into one 64-bit integer.

use vstd::prelude::*;

verus! {

/// The 64-bit value whose high half is `high` and whose low half is `low`.
pub open spec fn spec_combine(high: u32, low: u32) -> int {
    high as int * 0x1_0000_0000 + low as int
}

/// Packs `high` into the upper 32 bits and `low` into the lower 32 bits.
pub fn combine_int_2_long(high: u32, low: u32) -> (res: u64)
    ensures
        res as int == spec_combine(high, low),
{
    let h: u64 = high as u64;
    let l: u64 = low as u64;
    let res: u64 = (h << 32u64) | l;
    assert(res == h * 0x1_0000_0000 + l) by (bit_vector)
        requires
            h < 0x1_0000_0000,
            l < 0x1_0000_0000,
            res == (h << 32u64) | l,
    ;
    res
}

/// Splits a packed value back into its high and low halves.
pub fn separate_long_2_int(value: u64) -> (res: (u32, u32))
    ensures
        spec_combine(res.0, res.1) == value as int,
        res.0 as int == value as int / 0x1_0000_0000,
        res.1 as int == value as int % 0x1_0000_0000,
{
    let high: u64 = value >> 32u64;
    let low: u64 = value & 0xffff_ffffu64;
    assert(high == value / 0x1_0000_0000 && low == value % 0x1_0000_0000 && high < 0x1_0000_0000)
        by (bit_vector)
        requires
            high == value >> 32u64,
            low == value & 0xffff_ffffu64,
    ;
    (high as u32, low as u32)
}

/// Splitting a packed value gives back the two halves that were packed.
pub proof fn lemma_separate_combine(high: u32, low: u32)
    ensures
        spec_combine(high, low) / 0x1_0000_0000 == high as int,
        spec_combine(high, low) % 0x1_0000_0000 == low as int,
        0 <= spec_combine(high, low) <= u64::MAX,
{
    assert(spec_combine(high, low) / 0x1_0000_0000 == high as int) by (nonlinear_arith)
        requires low < 0x1_0000_0000;
    assert(spec_combine(high, low) % 0x1_0000_0000 == low as int) by (nonlinear_arith)
        requires low < 0x1_0000_0000;
}

/// Two packings are equal only when both halves are equal.
pub proof fn lemma_combine_injective(h1: u32, l1: u32, h2: u32, l2: u32)
    requires
        spec_combine(h1, l1) == spec_combine(h2, l2),
    ensures
        h1 == h2,
        l1 == l2,
{
    lemma_separate_combine(h1, l1);
    lemma_separate_combine(h2, l2);
}

} // verus!
