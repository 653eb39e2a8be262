//! Rounding an offset up to the next multiple of an alignment.
//!
//! Variable-length records are padded to a fixed alignment, so every walker
//! in this crate advances by aligned distances.

use vstd::prelude::*;

verus! {

/// The smallest multiple of `align` that is greater than or equal to `value`.
pub open spec fn spec_align_up(value: int, align: int) -> int
    recommends
        align > 0,
{
    ((value + align - 1) / align) * align
}

/// `spec_align_up` rounds up: the result is a multiple of the alignment,
/// at least as large as the value, and less than one alignment above it.
pub proof fn lemma_align_up_bounds(value: int, align: int)
    requires
        align > 0,
        value >= 0,
    ensures
        spec_align_up(value, align) >= value,
        spec_align_up(value, align) % align == 0,
        spec_align_up(value, align) - value < align,
{
    let q = (value + align - 1) / align;
    assert(q * align >= value && q * align - value < align && (q * align) % align == 0)
        by (nonlinear_arith)
        requires
            align > 0,
            value >= 0,
            q == (value + align - 1) / align,
    ;
}

/// Rounding up is non-decreasing in the value being rounded.
pub proof fn lemma_align_up_monotonic(v1: int, v2: int, align: int)
    requires
        align > 0,
        v1 <= v2,
    ensures
        spec_align_up(v1, align) <= spec_align_up(v2, align),
{
    assert(((v1 + align - 1) / align) * align <= ((v2 + align - 1) / align) * align)
        by (nonlinear_arith)
        requires
            align > 0,
            v1 <= v2,
    ;
}

/// Rounding up an already-rounded value changes nothing.
pub proof fn lemma_align_up_idempotent(value: int, align: int)
    requires
        align > 0,
        value >= 0,
    ensures
        spec_align_up(spec_align_up(value, align), align) == spec_align_up(value, align),
{
    let r = spec_align_up(value, align);
    lemma_align_up_bounds(value, align);
    assert(((r + align - 1) / align) * align == r) by (nonlinear_arith)
        requires
            align > 0,
            r >= 0,
            r % align == 0,
    ;
}

/// The closest value at or above `value` which is a multiple of `align`.
///
/// A zero alignment is a programming error, not bad input, and is excluded
/// outright; the upper bound only keeps the rounded result inside `usize`.
pub fn align_up(value: usize, align: usize) -> (r: usize)
    requires
        align != 0,
        value + align - 1 <= usize::MAX,
    ensures
        r == spec_align_up(value as int, align as int),
        r >= value,
        r % align == 0,
        r - value < align,
{
    proof {
        lemma_align_up_bounds(value as int, align as int);
    }
    let q = value / align;
    if value % align == 0 {
        proof {
            assert(q * align == value && (value + align - 1) / (align as int) == q) by (nonlinear_arith)
                requires
                    align > 0,
                    q == value as int / align as int,
                    value as int % align as int == 0,
            ;
        }
        value
    } else {
        proof {
            assert((value + align - 1) / (align as int) == q + 1) by (nonlinear_arith)
                requires
                    align > 0,
                    q == value as int / align as int,
                    value as int % align as int != 0,
            ;
        }
        (q + 1) * align
    }
}

} // verus!
