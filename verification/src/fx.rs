//! The fixed-point scalar: an `i64` holding a real value scaled by 2^16.
//! Multiplication and division truncate toward zero; the square root is the
//! floor square root of the widened product. Each operation's contract gives
//! the exact integer result, so everything built on top can be specified
//! over plain `int` models.
use vstd::prelude::*;

verus! {

/// Raw representation of 1.0: the scale factor 2^16.
pub const FX_ONE: i64 = 65536;

/// Magnitude cap on numerators handed to `div` (2^46), so that the widened
/// numerator `a * 65536` stays within `i64` range.
pub const FX_DIV_NUM_MAX: i64 = 0x4000_0000_0000;

/// A fixed-point number; the mathematical value is `self.0 / 65536`.
#[derive(Clone, Copy, Debug, PartialEq, Eq, Structural)]
pub struct Fx(pub i64);

/// Magnitude of an integer.
pub open spec fn sabs(x: int) -> int {
    if x >= 0 {
        x
    } else {
        -x
    }
}

/// Division truncating toward zero, the rounding used by `mul` and `div`.
pub open spec fn tdiv(p: int, q: int) -> int {
    if (p >= 0) == (q >= 0) {
        sabs(p) / sabs(q)
    } else {
        -(sabs(p) / sabs(q))
    }
}

/// Raw result of fixed-point multiplication.
pub open spec fn fmul(a: int, b: int) -> int {
    tdiv(a * b, 65536)
}

/// Raw result of fixed-point division.
pub open spec fn fdiv(a: int, b: int) -> int {
    tdiv(a * 65536, b)
}

/// Restriction of `x` to `[lo, hi]`.
pub open spec fn fclamp(x: int, lo: int, hi: int) -> int {
    if x < lo {
        lo
    } else if x > hi {
        hi
    } else {
        x
    }
}

pub open spec fn is_sqrt_floor(x: int, r: int) -> bool {
    r >= 0 && r * r <= x && x < (r + 1) * (r + 1)
}

/// The floor square root of a nonnegative integer.
pub open spec fn sqrt_floor(x: int) -> int {
    choose|r: int| is_sqrt_floor(x, r)
}

/// Raw result of the fixed-point square root.
pub open spec fn fsqrt(a: int) -> int {
    sqrt_floor(a * 65536)
}

pub proof fn lemma_sqrt_floor_unique(x: int, r: int)
    requires
        is_sqrt_floor(x, r),
    ensures
        sqrt_floor(x) == r,
{
    assert(exists|c: int| is_sqrt_floor(x, c)) by {
        assert(is_sqrt_floor(x, r));
    }
    let c = sqrt_floor(x);
    assert(is_sqrt_floor(x, c));
    assert(c == r) by (nonlinear_arith)
        requires
            is_sqrt_floor(x, c),
            is_sqrt_floor(x, r);
}

/// Every nonnegative integer has a floor square root, so `sqrt_floor`
/// denotes one.
pub proof fn lemma_sqrt_exists(x: int)
    requires
        x >= 0,
    ensures
        is_sqrt_floor(x, sqrt_floor(x)),
    decreases x,
{
    if x == 0 {
        assert(is_sqrt_floor(0, 0));
    } else {
        lemma_sqrt_exists(x - 1);
        let r = sqrt_floor(x - 1);
        if x < (r + 1) * (r + 1) {
            assert(is_sqrt_floor(x, r));
        } else {
            assert(is_sqrt_floor(x, r + 1)) by (nonlinear_arith)
                requires
                    r >= 0,
                    r * r <= x - 1,
                    x - 1 < (r + 1) * (r + 1),
                    x >= (r + 1) * (r + 1);
        }
    }
}

/// Truncating division never grows the magnitude of the numerator.
pub proof fn lemma_tdiv_mag(p: int, q: int)
    requires
        q != 0,
    ensures
        sabs(tdiv(p, q)) <= sabs(p),
        sabs(q) * sabs(tdiv(p, q)) <= sabs(p),
        p >= 0 && q > 0 ==> tdiv(p, q) == p / q,
{
    let m = sabs(p) / sabs(q);
    assert(0 <= m && sabs(q) * m <= sabs(p) && m <= sabs(p)) by (nonlinear_arith)
        requires
            sabs(p) >= 0,
            sabs(q) >= 1,
            m == sabs(p) / sabs(q);
}

/// Magnitude bound for a fixed-point product, from bounds on its factors.
pub proof fn lemma_fmul_mag(a: int, b: int, ma: int, mb: int)
    requires
        sabs(a) <= ma,
        sabs(b) <= mb,
    ensures
        sabs(fmul(a, b)) <= ma * mb / 65536,
        sabs(fmul(a, b)) * 65536 <= ma * mb,
{
    assert(sabs(a * b) == sabs(a) * sabs(b) && sabs(a) * sabs(b) <= ma * mb) by (nonlinear_arith)
        requires
            sabs(a) <= ma,
            sabs(b) <= mb,
            sabs(a) >= 0,
            sabs(b) >= 0;
    vstd::arithmetic::div_mod::lemma_div_is_ordered(sabs(a * b), ma * mb, 65536);
    assert(sabs(fmul(a, b)) == sabs(a * b) / 65536);
    assert(sabs(a * b) / 65536 * 65536 <= sabs(a * b)) by {
        lemma_tdiv_mag(sabs(a * b), 65536);
    }
    assert(sabs(fmul(a, b)) * 65536 <= ma * mb) by (nonlinear_arith)
        requires
            sabs(fmul(a, b)) <= ma * mb / 65536,
            ma * mb / 65536 * 65536 <= ma * mb,
            sabs(fmul(a, b)) >= 0;
}

/// Multiplying by one is exact in fixed point, in either sign.
pub proof fn lemma_fmul_one(a: int)
    ensures
        fmul(a, 65536) == a,
        fmul(a, -65536) == -a,
{
    vstd::arithmetic::div_mod::lemma_div_multiples_vanish(sabs(a), 65536);
    assert(sabs(a * 65536) == 65536 * sabs(a));
    assert(sabs(a * -65536) == 65536 * sabs(a));
}

/// Magnitude bound for a fixed-point quotient, from a bound on the
/// numerator and a lower bound on the denominator.
pub proof fn lemma_fdiv_mag(a: int, b: int, ma: int, dmin: int)
    requires
        sabs(a) <= ma,
        sabs(b) >= dmin,
        dmin >= 1,
    ensures
        sabs(fdiv(a, b)) <= ma * 65536 / dmin,
{
    assert(sabs(a * 65536) == sabs(a) * 65536);
    assert(sabs(fdiv(a, b)) == sabs(a * 65536) / sabs(b));
    vstd::arithmetic::div_mod::lemma_div_is_ordered(sabs(a) * 65536, ma * 65536, sabs(b));
    vstd::arithmetic::div_mod::lemma_div_is_ordered_by_denominator(ma * 65536, dmin, sabs(b));
}

/// A fixed-point square is nonnegative, and at least one raw unit once the
/// factor's magnitude reaches 256.
pub proof fn lemma_fmul_sq(a: int)
    ensures
        fmul(a, a) >= 0,
        sabs(a) >= 256 ==> fmul(a, a) >= 1,
{
    assert(a * a >= 0) by (nonlinear_arith);
    assert(fmul(a, a) == a * a / 65536);
    vstd::arithmetic::div_mod::lemma_div_is_ordered(0, a * a, 65536);
    if sabs(a) >= 256 {
        assert(a * a >= 65536) by (nonlinear_arith)
            requires
                sabs(a) >= 256;
        vstd::arithmetic::div_mod::lemma_div_is_ordered(65536, a * a, 65536);
    }
}

impl Fx {
    /// The zero scalar.
    pub fn new() -> (r: Fx)
        ensures
            r.0 == 0,
    {
        Fx(0)
    }

    /// The scalar 1.0.
    pub fn one() -> (r: Fx)
        ensures
            r.0 == FX_ONE,
    {
        Fx(FX_ONE)
    }

    /// The whole number `i`.
    pub fn from_int(i: i64) -> (r: Fx)
        requires
            -0x4000_0000_0000 <= i <= 0x4000_0000_0000,
        ensures
            r.0 == i * 65536,
    {
        Fx(i * 65536)
    }

    /// The ratio `n / d`, rounded toward zero.
    pub fn from_ratio(n: i64, d: i64) -> (r: Fx)
        requires
            d != 0,
            -FX_DIV_NUM_MAX <= n <= FX_DIV_NUM_MAX,
        ensures
            r.0 == fdiv(n as int, d as int),
    {
        Fx(n).div(Fx(d))
    }

    pub fn add(self, rhs: Fx) -> (r: Fx)
        requires
            i64::MIN <= self.0 + rhs.0 <= i64::MAX,
        ensures
            r.0 == self.0 + rhs.0,
    {
        Fx(self.0 + rhs.0)
    }

    pub fn sub(self, rhs: Fx) -> (r: Fx)
        requires
            i64::MIN <= self.0 - rhs.0 <= i64::MAX,
        ensures
            r.0 == self.0 - rhs.0,
    {
        Fx(self.0 - rhs.0)
    }

    /// Negation.
    pub fn neg(self) -> (r: Fx)
        requires
            self.0 != i64::MIN,
        ensures
            r.0 == -self.0,
    {
        Fx(-self.0)
    }

    pub fn mul(self, rhs: Fx) -> (r: Fx)
        requires
            -0x7fff_ffff_ffff_ffff <= fmul(self.0 as int, rhs.0 as int) <= 0x7fff_ffff_ffff_ffff,
        ensures
            r.0 == fmul(self.0 as int, rhs.0 as int),
    {
        proof {
            let a = self.0 as int;
            let b = rhs.0 as int;
            assert(-0x4000_0000_0000_0000_0000_0000_0000_0000 <= a * b
                && a * b <= 0x4000_0000_0000_0000_0000_0000_0000_0000) by (nonlinear_arith)
                requires
                    -0x8000_0000_0000_0000 <= a <= 0x8000_0000_0000_0000,
                    -0x8000_0000_0000_0000 <= b <= 0x8000_0000_0000_0000;
        }
        let p: i128 = (self.0 as i128) * (rhs.0 as i128);
        let neg: bool = p < 0;
        let m: u128 = if neg {
            (-p) as u128
        } else {
            p as u128
        };
        let q: u128 = m / 65536;
        proof {
            lemma_tdiv_mag(self.0 as int * rhs.0 as int, 65536);
        }
        let raw: i64 = if neg {
            -(q as i64)
        } else {
            q as i64
        };
        Fx(raw)
    }

    pub fn div(self, rhs: Fx) -> (r: Fx)
        requires
            rhs.0 != 0,
            -FX_DIV_NUM_MAX <= self.0 <= FX_DIV_NUM_MAX,
        ensures
            r.0 == fdiv(self.0 as int, rhs.0 as int),
            sabs(r.0 as int) <= sabs(self.0 as int) * 65536,
    {
        let p: i128 = (self.0 as i128) * 65536;
        let neg: bool = (p < 0) != (rhs.0 < 0);
        let pm: u128 = if p < 0 {
            (-p) as u128
        } else {
            p as u128
        };
        let dm: u128 = if rhs.0 < 0 {
            (-(rhs.0 as i128)) as u128
        } else {
            rhs.0 as u128
        };
        let q: u128 = pm / dm;
        proof {
            lemma_tdiv_mag(self.0 as int * 65536, rhs.0 as int);
        }
        let raw: i64 = if neg {
            -(q as i64)
        } else {
            q as i64
        };
        Fx(raw)
    }

    /// Division by a plain positive integer, truncating toward zero.
    pub fn div_int(self, d: i64) -> (r: Fx)
        requires
            d > 0,
            self.0 > i64::MIN,
        ensures
            r.0 == tdiv(self.0 as int, d as int),
    {
        let neg = self.0 < 0;
        let m: u64 = if neg {
            (-self.0) as u64
        } else {
            self.0 as u64
        };
        let q: u64 = m / (d as u64);
        proof {
            lemma_tdiv_mag(self.0 as int, d as int);
        }
        if neg {
            Fx(-(q as i64))
        } else {
            Fx(q as i64)
        }
    }

    /// Exact minimum; integer scalars have no NaN, so the NaN-tolerant
    /// minimum of the design degenerates to the plain one.
    pub fn min(self, rhs: Fx) -> (r: Fx)
        ensures
            r.0 == if self.0 <= rhs.0 {
                self.0
            } else {
                rhs.0
            },
    {
        if self.0 <= rhs.0 {
            self
        } else {
            rhs
        }
    }

    /// Exact maximum.
    pub fn max(self, rhs: Fx) -> (r: Fx)
        ensures
            r.0 == if self.0 >= rhs.0 {
                self.0
            } else {
                rhs.0
            },
    {
        if self.0 >= rhs.0 {
            self
        } else {
            rhs
        }
    }

    /// Floor square root in the fixed-point scale.
    pub fn sqrt(self) -> (r: Fx)
        requires
            self.0 >= 0,
        ensures
            r.0 == fsqrt(self.0 as int),
            r.0 >= 0,
            r.0 * r.0 <= self.0 * 65536 < (r.0 + 1) * (r.0 + 1),
    {
        let n: u128 = (self.0 as u128) * 65536;
        let r: u128 = isqrt128(n);
        proof {
            lemma_sqrt_floor_unique(self.0 as int * 65536, r as int);
            assert(r * r <= n < 0x4000_0000_0000_0000_0000_0000_0000_0000);
            let ri = r as int;
            assert(ri <= 0x7fff_ffff_ffff_ffff) by (nonlinear_arith)
                requires
                    ri >= 0,
                    ri * ri < 0x4000_0000_0000_0000_0000_0000_0000_0000;
        }
        Fx(r as i64)
    }
}

/// Floor division of a possibly negative value by a positive one; agrees
/// with the Euclidean `/` of specifications.
pub fn ediv(a: i64, q: i64) -> (r: i64)
    requires
        q > 0,
        -0x4000_0000_0000_0000 <= a <= 0x4000_0000_0000_0000,
    ensures
        r == a as int / q as int,
{
    if a >= 0 {
        let d: u64 = (a as u64) / (q as u64);
        proof {
            lemma_tdiv_mag(a as int, q as int);
        }
        d as i64
    } else {
        let m: u64 = (-a) as u64;
        let d: u64 = m / (q as u64);
        let rem: u64 = m % (q as u64);
        proof {
            vstd::arithmetic::div_mod::lemma_fundamental_div_mod(m as int, q as int);
            vstd::arithmetic::div_mod::lemma_fundamental_div_mod(a as int, q as int);
            lemma_tdiv_mag(m as int, q as int);
            let dd = m as int / q as int;
            let rr = m as int % q as int;
            if rem == 0 {
                assert(a as int == q as int * (-dd) + 0) by (nonlinear_arith)
                    requires
                        m as int == q as int * dd + rr,
                        rr == 0,
                        a as int == -(m as int);
                vstd::arithmetic::div_mod::lemma_div_multiples_vanish(-dd, q as int);
            } else {
                assert(a as int == q as int * (-dd - 1) + (q - rr)) by (nonlinear_arith)
                    requires
                        m as int == q as int * dd + rr,
                        a as int == -(m as int);
                assert(0 <= q - rr < q);
                vstd::arithmetic::div_mod::lemma_fundamental_div_mod_converse(
                    a as int,
                    q as int,
                    -dd - 1,
                    q as int - rr,
                );
            }
        }
        if rem == 0 {
            -(d as i64)
        } else {
            -(d as i64) - 1
        }
    }
}

/// Whether an integer is odd, under the Euclidean remainder of
/// specifications.
pub fn is_odd(x: i64) -> (r: bool)
    requires
        x != i64::MIN,
    ensures
        r == (x as int % 2 == 1),
{
    let m: u64 = if x >= 0 {
        x as u64
    } else {
        (-x) as u64
    };
    let odd: bool = m % 2 == 1;
    proof {
        if x < 0 {
            let xi = x as int;
            vstd::arithmetic::div_mod::lemma_fundamental_div_mod(m as int, 2);
            if m as int % 2 == 1 {
                assert(xi == 2 * (-(m as int / 2) - 1) + 1) by (nonlinear_arith)
                    requires
                        m as int == 2 * (m as int / 2) + m as int % 2,
                        m as int % 2 == 1,
                        xi == -(m as int);
                vstd::arithmetic::div_mod::lemma_fundamental_div_mod_converse(
                    xi,
                    2,
                    -(m as int / 2) - 1,
                    1,
                );
            } else {
                assert(xi == 2 * (-(m as int / 2)) + 0) by (nonlinear_arith)
                    requires
                        m as int == 2 * (m as int / 2) + m as int % 2,
                        m as int % 2 == 0,
                        xi == -(m as int);
                vstd::arithmetic::div_mod::lemma_fundamental_div_mod_converse(
                    xi,
                    2,
                    -(m as int / 2),
                    0,
                );
            }
        }
    }
    odd
}

/// Floor square root by bisection over the widened argument.
pub fn isqrt128(n: u128) -> (r: u128)
    requires
        n < 0x4000_0000_0000_0000_0000_0000_0000_0000,
    ensures
        is_sqrt_floor(n as int, r as int),
{
    let mut lo: u128 = 0;
    let mut hi: u128 = if n < 0x8000_0000_0000_0000 {
        n + 1
    } else {
        0x8000_0000_0000_0000
    };
    proof {
        assert(n < hi * hi) by (nonlinear_arith)
            requires
                hi >= 1,
                n < 0x4000_0000_0000_0000_0000_0000_0000_0000,
                n < 0x8000_0000_0000_0000 ==> hi == n + 1,
                n >= 0x8000_0000_0000_0000 ==> hi == 0x8000_0000_0000_0000u128;
    }
    while lo + 1 < hi
        invariant
            lo < hi,
            hi <= 0x8000_0000_0000_0000,
            lo * lo <= n,
            n < hi * hi,
        decreases hi - lo,
    {
        let mid: u128 = lo + (hi - lo) / 2;
        proof {
            assert(mid * mid < 0x4000_0000_0000_0000_0000_0000_0000_0001) by (nonlinear_arith)
                requires
                    mid <= 0x8000_0000_0000_0000u128;
        }
        if mid * mid <= n {
            lo = mid;
        } else {
            hi = mid;
        }
    }
    lo
}

} // verus!
