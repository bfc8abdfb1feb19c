//! Integer square root, used to preserve a ball's speed when the paddle
//! redirects it.

use vstd::prelude::*;

verus! {

/// `r` is the integer square root of `n`: the greatest integer whose square
/// does not exceed `n`.
pub open spec fn is_isqrt(n: int, r: int) -> bool {
    &&& 0 <= r
    &&& r * r <= n
    &&& n < (r + 1) * (r + 1)
}

/// The integer square root as a function, defined by counting up.
pub open spec fn sqrt_floor(n: nat) -> nat
    decreases n,
{
    if n == 0 {
        0
    } else {
        let s = sqrt_floor((n - 1) as nat);
        if (s + 1) * (s + 1) <= n {
            s + 1
        } else {
            s
        }
    }
}

/// [`sqrt_floor`] satisfies the square root characterization.
pub proof fn lemma_sqrt_floor_is_isqrt(n: nat)
    ensures
        is_isqrt(n as int, sqrt_floor(n) as int),
    decreases n,
{
    if n == 0 {
    } else {
        lemma_sqrt_floor_is_isqrt((n - 1) as nat);
        let s = sqrt_floor((n - 1) as nat);
        if (s + 1) * (s + 1) <= n {
            assert((s + 1 + 1) * (s + 1 + 1) > (s + 1) * (s + 1)) by (nonlinear_arith)
                requires
                    0 <= s,
            ;
        }
    }
}

/// The square root characterization picks out exactly one integer.
pub proof fn lemma_isqrt_unique(n: int, r: int)
    requires
        0 <= n,
        is_isqrt(n, r),
    ensures
        r == sqrt_floor(n as nat) as int,
{
    lemma_sqrt_floor_is_isqrt(n as nat);
    let s = sqrt_floor(n as nat) as int;
    if r < s {
        assert((r + 1) * (r + 1) <= s * s) by (nonlinear_arith)
            requires
                0 <= r + 1 <= s,
        ;
    } else if r > s {
        assert((s + 1) * (s + 1) <= r * r) by (nonlinear_arith)
            requires
                0 <= s + 1 <= r,
        ;
    }
}

/// No component of a vector is longer than the vector itself.
pub proof fn lemma_sqrt_floor_component(x: int, y: int)
    ensures
        (if x < 0 { -x } else { x }) <= sqrt_floor((x * x + y * y) as nat) as int,
{
    assert(0 <= x * x && 0 <= y * y) by (nonlinear_arith);
    let n = (x * x + y * y) as nat;
    lemma_sqrt_floor_is_isqrt(n);
    let s = sqrt_floor(n) as int;
    let ax = if x < 0 { -x } else { x };
    if ax > s {
        assert((s + 1) * (s + 1) <= ax * ax) by (nonlinear_arith)
            requires
                0 <= s + 1 <= ax,
        ;
        assert((-x) * (-x) == x * x) by (nonlinear_arith);
    }
}

/// The integer square root, by binary search.
pub fn isqrt(n: u64) -> (r: u64)
    ensures
        r as nat == sqrt_floor(n as nat),
        is_isqrt(n as int, r as int),
{
    let mut lo: u64 = 0;
    let mut hi: u64 = 4_294_967_296;
    assert(hi * hi > n) by (nonlinear_arith)
        requires
            hi == 4_294_967_296 && n <= 0xffff_ffff_ffff_ffffu64,
    ;
    while lo + 1 < hi
        invariant
            0 <= lo < hi <= 4_294_967_296,
            lo * lo <= n,
            n < hi * hi,
        decreases hi - lo,
    {
        let mid = lo + (hi - lo) / 2;
        proof {
            assert(mid * mid <= (4_294_967_296int - 1) * (4_294_967_296int - 1)) by (nonlinear_arith)
                requires
                    0 <= mid <= 4_294_967_296int - 1,
            ;
        }
        if mid * mid <= n {
            lo = mid;
        } else {
            hi = mid;
        }
    }
    proof {
        lemma_isqrt_unique(n as int, lo as int);
    }
    lo
}

} // verus!
