//! Alignment arithmetic: rounding a byte quantity up to a multiple of a
//! given alignment. Used to derive the transfer-unit size from the sector
//! size and to snap worker start offsets to the page granularity.

use vstd::prelude::*;

verus! {

/// The smallest multiple of `multiple` that is at least `base`.
pub open spec fn spec_align_up(multiple: u64, base: u64) -> int
    recommends
        multiple >= 1,
{
    if base % multiple == 0 {
        base as int
    } else {
        base as int + multiple as int - (base % multiple) as int
    }
}

/// `spec_align_up` lands on a multiple of `multiple`, no further than one
/// whole `multiple` above `base`, and exactly on `base` when `base` is
/// already aligned.
pub proof fn lemma_align_up_props(multiple: u64, base: u64)
    requires
        multiple >= 1,
    ensures
        spec_align_up(multiple, base) % (multiple as int) == 0,
        base <= spec_align_up(multiple, base) < base + multiple,
        base % multiple == 0 ==> spec_align_up(multiple, base) == base,
{
    let m = multiple as int;
    let b = base as int;
    let r = b % m;
    assert(0 <= r < m) by (nonlinear_arith)
        requires m >= 1, r == b % m, b >= 0;
    if r == 0 {
        assert(b % m == 0);
    } else {
        assert((b + m - r) % m == 0) by (nonlinear_arith)
            requires m >= 1, r == b % m, b >= 0;
    }
}

/// `spec_align_up(multiple, base)` is the least aligned value at or above
/// `base`: any multiple of `multiple` that is at least `base` is at least
/// `spec_align_up(multiple, base)`.
pub proof fn lemma_align_up_least(multiple: u64, base: u64, v: int)
    requires
        multiple >= 1,
        v % (multiple as int) == 0,
        base <= v,
    ensures
        spec_align_up(multiple, base) <= v,
{
    let m = multiple as int;
    let b = base as int;
    let r = b % m;
    assert(0 <= r < m) by (nonlinear_arith)
        requires m >= 1, r == b % m, b >= 0;
    if r != 0 {
        if v < b + m - r {
            // v and b - r are both multiples of m, and their difference
            // lies strictly between 0 and m: impossible.
            assert(false) by (nonlinear_arith)
                requires
                    m >= 1,
                    r == b % m,
                    b >= 0,
                    0 < r < m,
                    v % m == 0,
                    b <= v < b + m - r;
        }
    }
}

/// Rounding up is monotone in the quantity being rounded.
pub proof fn lemma_align_up_monotone(multiple: u64, lo: u64, hi: u64)
    requires
        multiple >= 1,
        lo <= hi,
    ensures
        spec_align_up(multiple, lo) <= spec_align_up(multiple, hi),
{
    lemma_align_up_props(multiple, lo);
    lemma_align_up_props(multiple, hi);
    lemma_align_up_least(multiple, lo, spec_align_up(multiple, hi));
}

/// Rounds `base` up to the nearest multiple of `multiple`: returns `base`
/// itself when it is already a multiple, otherwise the smallest larger
/// multiple. The result is always a multiple of `multiple` and lies in
/// `[base, base + multiple)`.
pub fn align_up(multiple: u64, base: u64) -> (r: u64)
    requires
        multiple >= 1,
        spec_align_up(multiple, base) <= u64::MAX,
    ensures
        r == spec_align_up(multiple, base),
        r % multiple == 0,
        base <= r < base + multiple,
        base % multiple == 0 ==> r == base,
{
    proof {
        lemma_align_up_props(multiple, base);
    }
    let remainder = base % multiple;
    if remainder == 0 {
        base
    } else {
        proof {
            assert(remainder <= base) by (nonlinear_arith)
                requires remainder == base as int % multiple as int, base >= 0, multiple >= 1;
        }
        base - remainder + multiple
    }
}

} // verus!
