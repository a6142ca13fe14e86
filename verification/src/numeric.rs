//! Fixed-point arithmetic helpers: integer square root and truncating
//! signed division, with their mathematical definitions.
use vstd::prelude::*;

verus! {

/// Floor of the square root of `n`, defined by counting up from zero.
pub open spec fn sqrt_floor(n: nat) -> nat
    decreases n,
{
    if n == 0 {
        0
    } else {
        let r = sqrt_floor((n - 1) as nat);
        if (r + 1) * (r + 1) <= n {
            r + 1
        } else {
            r
        }
    }
}

/// `sqrt_floor(n)` is the unique `r` with `r^2 <= n < (r+1)^2`.
pub proof fn lemma_sqrt_floor_bounds(n: nat)
    ensures
        sqrt_floor(n) * sqrt_floor(n) <= n,
        n < (sqrt_floor(n) + 1) * (sqrt_floor(n) + 1),
    decreases n,
{
    if n == 0 {
        let s = sqrt_floor(n);
        assert(s == 0);
        assert(n < (s + 1) * (s + 1)) by (nonlinear_arith)
            requires
                s == 0nat,
                n == 0nat,
        ;
    } else {
        lemma_sqrt_floor_bounds((n - 1) as nat);
        let r = sqrt_floor((n - 1) as nat);
        assert(r * r <= n - 1 && n - 1 < (r + 1) * (r + 1));
        if (r + 1) * (r + 1) <= n {
            assert(sqrt_floor(n) == r + 1);
            assert(n <= (r + 1) * (r + 1));
            assert((r + 1 + 1) * (r + 1 + 1) > n) by (nonlinear_arith)
                requires
                    n <= (r + 1) * (r + 1),
            ;
            assert(sqrt_floor(n) * sqrt_floor(n) <= n);
            assert(n < (sqrt_floor(n) + 1) * (sqrt_floor(n) + 1));
        } else {
            assert(sqrt_floor(n) == r);
            assert(sqrt_floor(n) * sqrt_floor(n) <= n);
            assert(n < (sqrt_floor(n) + 1) * (sqrt_floor(n) + 1));
        }
    }
}

/// Any `r` with `r^2 <= n < (r+1)^2` equals `sqrt_floor(n)`.
pub proof fn lemma_sqrt_floor_unique(n: nat, r: nat)
    requires
        r * r <= n,
        n < (r + 1) * (r + 1),
    ensures
        r == sqrt_floor(n),
{
    let s = sqrt_floor(n);
    lemma_sqrt_floor_bounds(n);
    if r < s {
        assert((r + 1) * (r + 1) <= s * s) by (nonlinear_arith)
            requires
                r + 1 <= s,
        ;
    }
    if s < r {
        assert((s + 1) * (s + 1) <= r * r) by (nonlinear_arith)
            requires
                s + 1 <= r,
        ;
    }
}

/// Integer square root, rounded down.
pub fn isqrt(n: u64) -> (r: u64)
    ensures
        r == sqrt_floor(n as nat),
{
    let mut lo: u64 = 0;
    let mut hi: u64 = 4_294_967_296;
    while hi - lo > 1
        invariant
            lo < hi <= 4_294_967_296,
            (lo as int) * (lo as int) <= n as int,
            (n as int) < (hi as int) * (hi as int),
        decreases hi - lo,
    {
        let mid: u64 = lo + (hi - lo) / 2;
        proof {
            assert((mid as int) * (mid as int) <= 0x1_0000_0000_0000_0000) by (nonlinear_arith)
                requires
                    0 <= mid <= 0x1_0000_0000,
            ;
        }
        if (mid as u128) * (mid as u128) <= n as u128 {
            lo = mid;
        } else {
            hi = mid;
        }
    }
    proof {
        lemma_sqrt_floor_unique(n as nat, lo as nat);
    }
    lo
}

/// Signed division rounded toward zero, the semantics every fixed-point
/// ratio in this crate uses.
pub open spec fn div_trunc(num: int, den: int) -> int
    recommends
        den > 0,
{
    if num >= 0 {
        num / den
    } else {
        -((-num) / den)
    }
}

/// A non-negative numerator bounded by `k * den` divides to at most `k`.
pub proof fn lemma_div_le_factor(m: int, k: int, den: int)
    requires
        den > 0,
        0 <= m,
        m <= k * den,
    ensures
        0 <= m / den <= k,
{
    vstd::arithmetic::div_mod::lemma_fundamental_div_mod(m, den);
    let q = m / den;
    assert(0 <= q && q <= k) by (nonlinear_arith)
        requires
            den > 0,
            0 <= m,
            m <= k * den,
            m == den * q + m % den,
            0 <= m % den < den,
    ;
}

/// A numerator within `k * den` of zero truncates to within `k` of zero.
pub proof fn lemma_div_trunc_le(num: int, k: int, den: int)
    requires
        den > 0,
        0 <= k,
        -(k * den) <= num <= k * den,
    ensures
        -k <= div_trunc(num, den) <= k,
{
    if num >= 0 {
        lemma_div_le_factor(num, k, den);
    } else {
        lemma_div_le_factor(-num, k, den);
    }
}

/// Truncating division on `i64`.
pub fn div_trunc_i64(num: i64, den: i64) -> (r: i64)
    requires
        den > 0,
        num > i64::MIN,
    ensures
        r == div_trunc(num as int, den as int),
        num >= 0 ==> 0 <= r <= num,
        num < 0 ==> num <= r <= 0,
{
    if num >= 0 {
        let q: u64 = (num as u64) / (den as u64);
        q as i64
    } else {
        let m: u64 = (-num) as u64;
        let q: u64 = m / (den as u64);
        -(q as i64)
    }
}

/// Truncating division on `i128`.
pub fn div_trunc_i128(num: i128, den: i128) -> (r: i128)
    requires
        den > 0,
        num > i128::MIN,
    ensures
        r == div_trunc(num as int, den as int),
        num >= 0 ==> 0 <= r <= num,
        num < 0 ==> num <= r <= 0,
{
    if num >= 0 {
        let q: u128 = (num as u128) / (den as u128);
        q as i128
    } else {
        let m: u128 = (-num) as u128;
        let q: u128 = m / (den as u128);
        -(q as i128)
    }
}

} // verus!
