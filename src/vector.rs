use vstd::arithmetic::div_mod::{
    lemma_div_is_ordered, lemma_div_pos_is_pos, lemma_fundamental_div_mod, lemma_mod_pos_bound,
};
use vstd::prelude::*;

verus! {

/// Largest coordinate magnitude, in milliunits, that positions and grid
/// extents may take.
pub const MAX_EXTENT: i64 = 1_000_000_000_000;

/// A 2D vector with integer components (milliunits, or milliunits per second).
#[derive(Clone, Copy, Debug, PartialEq, Eq, Structural)]
pub struct Vector2 {
    pub x: i64,
    pub y: i64,
}

impl Vector2 {
    pub fn new(x: i64, y: i64) -> (r: Vector2)
        ensures
            r.x == x,
            r.y == y,
    {
        Vector2 { x, y }
    }

    pub open spec fn length_sq(self) -> int {
        self.x * self.x + self.y * self.y
    }
}

/// `c * num / den`, rounded toward zero.
pub open spec fn scale_trunc(c: int, num: int, den: int) -> int {
    if c >= 0 {
        (c * num) / den
    } else {
        -(((-c) * num) / den)
    }
}

/// Whether `r` is the smallest natural number whose square reaches `n`.
pub open spec fn is_ceil_sqrt(n: int, r: int) -> bool {
    0 <= r && n <= r * r && (r == 0 || (r - 1) * (r - 1) < n)
}

/// The smallest natural number whose square is at least `n`.
pub open spec fn ceil_sqrt(n: int) -> int {
    choose|r: int| is_ceil_sqrt(n, r)
}

pub proof fn lemma_square_monotone(a: int, b: int)
    requires
        0 <= a <= b,
    ensures
        a * a <= b * b,
{
    assert(a * a <= a * b) by (nonlinear_arith)
        requires
            0 <= a <= b,
    ;
    assert(a * b <= b * b) by (nonlinear_arith)
        requires
            0 <= a <= b,
    ;
}

pub open spec fn abs(x: int) -> int {
    if x >= 0 {
        x
    } else {
        -x
    }
}

/// A square bounded by `m * m` bounds the number by `m`.
pub proof fn lemma_abs_from_square(x: int, m: int)
    requires
        0 <= m,
        x * x <= m * m,
    ensures
        -m <= x <= m,
{
    if x > m {
        assert(x * x > m * m) by (nonlinear_arith)
            requires
                x > m >= 0,
        ;
    } else if x < -m {
        assert(x * x > m * m) by (nonlinear_arith)
            requires
                -x > m >= 0,
        ;
    }
}

/// Each natural number has a ceiling square root.
pub proof fn lemma_ceil_sqrt_exists(n: int)
    requires
        0 <= n,
    ensures
        is_ceil_sqrt(n, ceil_sqrt(n)),
    decreases n,
{
    if n == 0 {
        assert(is_ceil_sqrt(0, 0));
    } else {
        lemma_ceil_sqrt_exists(n - 1);
        let r = ceil_sqrt(n - 1);
        if r * r >= n {
            assert(is_ceil_sqrt(n, r));
        } else {
            assert((r + 1) * (r + 1) >= n) by (nonlinear_arith)
                requires
                    r >= 0,
                    r * r >= n - 1,
            ;
            assert(is_ceil_sqrt(n, r + 1));
        }
    }
}

/// The magnitude of a truncated scaling is bounded by scaling the bounds.
pub proof fn lemma_scale_trunc_bound(c: int, num: int, den: int, cb: int, nb: int)
    requires
        abs(c) <= cb,
        0 <= num <= nb,
        den > 0,
    ensures
        abs(scale_trunc(c, num, den)) <= cb * nb / den,
{
    let a = abs(c);
    assert(0 <= a * num <= cb * nb) by (nonlinear_arith)
        requires
            0 <= a <= cb,
            0 <= num <= nb,
    ;
    lemma_div_is_ordered(a * num, cb * nb, den);
    lemma_div_pos_is_pos(a * num, den);
}

/// Squaring a truncated scaling: `s * s * (den * den) <= c * c * (num * num)`.
pub proof fn lemma_scale_trunc_square(c: int, num: int, den: int)
    requires
        num >= 0,
        den > 0,
    ensures
        scale_trunc(c, num, den) * scale_trunc(c, num, den) * (den * den) <= c * c * (num * num),
{
    let a = abs(c);
    let p = a * num;
    assert(p >= 0) by (nonlinear_arith)
        requires
            a >= 0,
            num >= 0,
            p == a * num,
    ;
    let q = p / den;
    lemma_fundamental_div_mod(p, den);
    lemma_mod_pos_bound(p, den);
    lemma_div_pos_is_pos(p, den);
    assert(0 <= q * den <= p) by (nonlinear_arith)
        requires
            p == den * q + p % den,
            p % den >= 0,
            q >= 0,
            den > 0,
    ;
    lemma_square_monotone(q * den, p);
    assert((q * den) * (q * den) == q * q * (den * den)) by (nonlinear_arith);
    assert(p * p == c * c * (num * num)) by (nonlinear_arith)
        requires
            p == a * num,
            a == c || a == -c,
    ;
    let s = scale_trunc(c, num, den);
    assert(s * s == q * q) by (nonlinear_arith)
        requires
            s == q || s == -q,
    ;
}

/// There is only one ceiling square root.
pub proof fn lemma_ceil_sqrt_unique(n: int, r: int)
    requires
        is_ceil_sqrt(n, r),
    ensures
        ceil_sqrt(n) == r,
{
    let s = ceil_sqrt(n);
    assert(is_ceil_sqrt(n, s));
    if s < r {
        lemma_square_monotone(s, r - 1);
    } else if r < s {
        lemma_square_monotone(r, s - 1);
    }
}

/// `c * num / den` rounded toward zero, for magnitudes that keep the product
/// inside 63 bits.
pub fn mul_div_trunc(c: i64, num: u64, den: u64) -> (r: i64)
    requires
        den > 0,
        -1_000_000_000_000 <= c <= 1_000_000_000_000,
        num <= 1_000_000,
    ensures
        r == scale_trunc(c as int, num as int, den as int),
{
    let mag: u64 = if c >= 0 { c as u64 } else { (-c) as u64 };
    assert(mag * num <= 1_000_000_000_000 * 1_000_000) by (nonlinear_arith)
        requires
            mag <= 1_000_000_000_000,
            num <= 1_000_000,
    ;
    let q: u64 = (mag * num) / den;
    assert(q <= mag * num) by (nonlinear_arith)
        requires
            den > 0,
            mag * num >= 0,
            q as int == (mag * num) as int / den as int,
    ;
    if c >= 0 {
        q as i64
    } else {
        -(q as i64)
    }
}

/// The smallest `r` with `n <= r * r`, found by bisection.
pub fn ceil_sqrt_u64(n: u64) -> (r: u64)
    requires
        n <= 1_000_000_000_000_000_000,
    ensures
        is_ceil_sqrt(n as int, r as int),
        r as int == ceil_sqrt(n as int),
        r <= 1_000_000_000,
{
    if n == 0 {
        proof {
            lemma_ceil_sqrt_unique(0, 0);
        }
        return 0;
    }
    // The answer stays in (lo, hi]: lo * lo < n <= hi * hi.
    let mut lo: u64 = 0;
    let mut hi: u64 = 1_000_000_000;
    assert(n <= hi * hi);
    while hi - lo > 1
        invariant
            0 < n <= 1_000_000_000_000_000_000,
            lo < hi <= 1_000_000_000,
            lo * lo < n,
            n <= hi * hi,
        decreases hi - lo,
    {
        let mid: u64 = lo + (hi - lo) / 2;
        assert(mid * mid <= 1_000_000_000 * 1_000_000_000) by (nonlinear_arith)
            requires
                mid <= 1_000_000_000,
        ;
        if mid * mid < n {
            lo = mid;
        } else {
            hi = mid;
        }
    }
    assert(hi - 1 == lo);
    proof {
        lemma_ceil_sqrt_unique(n as int, hi as int);
    }
    hi
}

} // verus!
