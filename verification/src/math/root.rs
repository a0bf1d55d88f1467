//! Integer square roots, rounded down.
use vstd::prelude::*;

verus! {

/// `r` is the square root of `x`, rounded down.
pub open spec fn is_root(x: int, r: int) -> bool {
    0 <= r && r * r <= x < (r + 1) * (r + 1)
}

/// The square root of a natural number `x`, rounded down.
pub open spec fn root(x: int) -> int {
    choose|r: int| is_root(x, r)
}

/// A number has at most one rounded-down square root.
pub proof fn lemma_root_unique(x: int, a: int, b: int)
    requires
        is_root(x, a),
        is_root(x, b),
    ensures
        a == b,
{
    if a < b {
        assert((a + 1) * (a + 1) <= b * b) by (nonlinear_arith)
            requires
                0 <= a,
                a + 1 <= b,
        ;
    } else if b < a {
        assert((b + 1) * (b + 1) <= a * a) by (nonlinear_arith)
            requires
                0 <= b,
                b + 1 <= a,
        ;
    }
}

/// Whatever satisfies `is_root` is the root.
pub proof fn lemma_root_is(x: int, r: int)
    requires
        is_root(x, r),
    ensures
        root(x) == r,
{
    lemma_root_unique(x, r, root(x));
}

/// The root of a square is its base.
pub proof fn lemma_root_of_square(r: int)
    requires
        0 <= r,
    ensures
        root(r * r) == r,
{
    assert(r * r < (r + 1) * (r + 1)) by (nonlinear_arith)
        requires
            0 <= r,
    ;
    lemma_root_is(r * r, r);
}

/// The root is zero exactly for zero.
pub proof fn lemma_root_zero(x: int)
    requires
        0 <= x,
    ensures
        root(x) == 0 <==> x == 0,
{
    if x == 0 {
        assert(is_root(0, 0));
        lemma_root_is(0, 0);
    } else {
        if is_root(x, 0) {
            assert(false);
        }
        assert(x <= x * x) by (nonlinear_arith)
            requires
                1 <= x,
        ;
        lemma_root_exists(x, x);
    }
}

/// Every natural number has a root; `bound` is any number whose square
/// is not below `x`.
pub proof fn lemma_root_exists(x: int, bound: int)
    requires
        0 <= x,
        0 <= bound,
        x <= bound * bound,
    ensures
        is_root(x, root(x)),
        root(x) <= bound,
    decreases bound,
{
    if bound == 0 {
        assert(bound * bound == 0) by (nonlinear_arith)
            requires
                bound == 0,
        ;
        assert(is_root(x, 0));
        lemma_root_is(x, 0);
    } else if (bound - 1) * (bound - 1) >= x {
        lemma_root_exists(x, bound - 1);
    } else if bound * bound == x {
        assert(bound * bound < (bound + 1) * (bound + 1)) by (nonlinear_arith)
            requires
                0 <= bound,
        ;
        assert(is_root(x, bound));
        lemma_root_is(x, bound);
    } else {
        assert(is_root(x, bound - 1));
        lemma_root_is(x, bound - 1);
    }
}

/// The square root of `x`, rounded down.
pub fn floor_sqrt(x: u64) -> (r: u32)
    ensures
        is_root(x as int, r as int),
        r as int == root(x as int),
{
    let mut low: u64 = 0;
    let mut high: u64 = 0x1_0000_0000;
    assert(0x1_0000_0000int * 0x1_0000_0000int == 0x1_0000_0000_0000_0000int);
    while high - low > 1
        invariant
            low < high <= 0x1_0000_0000,
            low * low <= x < high * high,
        decreases high - low,
    {
        let middle: u64 = low + (high - low) / 2;
        assert(middle * middle <= 0xffff_ffff * 0xffff_ffff) by (nonlinear_arith)
            requires
                0 <= middle <= 0xffff_ffff,
        ;
        if middle * middle <= x {
            low = middle;
        } else {
            high = middle;
        }
    }
    proof {
        lemma_root_is(x as int, low as int);
    }
    low as u32
}

} // verus!
