use vstd::prelude::*;
use crate::{MAX_COORD, MAX_DEN};
use crate::eval::Frac;

verus! {

/// Why the quadratic solver returned no roots.
#[derive(Clone, Copy, PartialEq, Eq, Structural, Debug)]
pub enum SolveError {
    /// The discriminant is negative: the axis has no interior extremum.
    NoRealRoot,
    /// The leading coefficient is zero (degenerate, collinear-like
    /// configuration); guarded explicitly instead of dividing by zero.
    DegenerateAxis,
}

/// A candidate root `num / den` of the per-axis derivative, `den > 0`.
#[derive(Clone, Copy, PartialEq, Eq, Structural, Debug)]
pub struct Root {
    pub num: i64,
    pub den: i64,
}

/// Leading coefficient of the quadratic that is the derivative's zero set.
pub open spec fn quad_a(x0: int, x1: int, x2: int, x3: int) -> int {
    -3 * x0 + 9 * x1 - 9 * x2 + 3 * x3
}

/// Middle coefficient.
pub open spec fn quad_b(x0: int, x1: int, x2: int, x3: int) -> int {
    6 * x0 - 12 * x1 + 6 * x2
}

/// Constant coefficient.
pub open spec fn quad_c(x0: int, x1: int, x2: int, x3: int) -> int {
    -3 * x0 + 3 * x1
}

/// Discriminant of the quadratic.
pub open spec fn quad_disc(x0: int, x1: int, x2: int, x3: int) -> int {
    quad_b(x0, x1, x2, x3) * quad_b(x0, x1, x2, x3)
        - 4 * (quad_a(x0, x1, x2, x3) * quad_c(x0, x1, x2, x3))
}

/// `s` is the integer square root (rounded down) of `x`.
pub open spec fn is_isqrt(x: int, s: int) -> bool {
    &&& 0 <= s
    &&& s * s <= x
    &&& x < (s + 1) * (s + 1)
}

/// Integer square root by bisection.
fn isqrt(x: u128) -> (r: u128)
    ensures
        is_isqrt(x as int, r as int),
        r < 0x1_0000_0000_0000_0000u128,
{
    let mut lo: u128 = 0;
    let mut hi: u128 = 0x1_0000_0000_0000_0000;
    while hi - lo > 1
        invariant
            lo < hi <= 0x1_0000_0000_0000_0000u128,
            lo * lo <= x,
            (x as int) < (hi as int) * (hi as int),
        decreases hi - lo,
    {
        let mid = lo + (hi - lo) / 2;
        proof {
            assert(mid * mid <= 340_282_366_920_938_463_426_481_119_284_349_108_225u128)
                by (nonlinear_arith)
                requires mid <= 18_446_744_073_709_551_615u128;
        }
        if mid * mid <= x {
            lo = mid;
        } else {
            hi = mid;
        }
    }
    lo
}

/// Solve `a t^2 + b t + c = 0` where the coefficients arise from setting the
/// first derivative of the cubic with control values `xs` to zero. A root is
/// returned as an exact rational with numerator `-b +/- floor(sqrt(disc))`
/// over `2 |a|`; both roots come back together. A negative discriminant and a
/// zero leading coefficient are reported as explicit errors, never as
/// non-finite values.
pub fn solve_quadratic(xs: [i64; 4]) -> (r: Result<(Root, Root), SolveError>)
    requires
        forall|i: int| 0 <= i < 4 ==> -MAX_COORD <= #[trigger] xs[i] <= MAX_COORD,
    ensures
        ({
            let a = quad_a(xs[0] as int, xs[1] as int, xs[2] as int, xs[3] as int);
            let b = quad_b(xs[0] as int, xs[1] as int, xs[2] as int, xs[3] as int);
            let disc = quad_disc(xs[0] as int, xs[1] as int, xs[2] as int, xs[3] as int);
            match r {
                Err(SolveError::DegenerateAxis) => a == 0,
                Err(SolveError::NoRealRoot) => a != 0 && disc < 0,
                Ok((r1, r2)) => {
                    &&& a != 0
                    &&& disc >= 0
                    &&& 1 <= r1.den <= MAX_DEN
                    &&& r2.den == r1.den
                    &&& r1.den == if a > 0 { 2 * a } else { -2 * a }
                    &&& exists|sq: int| {
                        &&& #[trigger] (sq * sq) <= disc
                        &&& is_isqrt(disc, sq)
                        &&& r1.num == if a > 0 { -b + sq } else { b - sq }
                        &&& r2.num == if a > 0 { -b - sq } else { b + sq }
                    }
                },
            }
        }),
{
    let x0 = xs[0];
    let x1 = xs[1];
    let x2 = xs[2];
    let x3 = xs[3];
    let a = -3 * x0 + 9 * x1 - 9 * x2 + 3 * x3;
    let b = 6 * x0 - 12 * x1 + 6 * x2;
    let c = -3 * x0 + 3 * x1;
    if a == 0 {
        return Err(SolveError::DegenerateAxis);
    }
    let bb = b as i128;
    proof {
        assert(
            0 <= bb * bb <= 600_000_000_000_000i128
                && -150_000_000_000_000i128 <= (a as i128) * (c as i128)
                    <= 150_000_000_000_000i128
        ) by (nonlinear_arith)
            requires
                -24_000_000 <= bb <= 24_000_000i128,
                -24_000_000i128 <= a as i128 <= 24_000_000i128,
                -6_000_000i128 <= c as i128 <= 6_000_000i128;
    }
    let ac = (a as i128) * (c as i128);
    let delta = bb * bb - 4 * ac;
    if delta < 0 {
        return Err(SolveError::NoRealRoot);
    }
    let s = isqrt(delta as u128);
    proof {
        assert(s < 40_000_000u128) by (nonlinear_arith)
            requires
                (s as int) * (s as int) <= delta as int,
                0 <= s,
                delta <= 1_300_000_000_000_000i128;
    }
    let sn = s as i64;
    proof {
        assert((sn as int) * (sn as int) == (s as int) * (s as int));
    }
    if a > 0 {
        Ok((Root { num: -b + sn, den: 2 * a }, Root { num: -b - sn, den: 2 * a }))
    } else {
        Ok((Root { num: b - sn, den: -2 * a }, Root { num: b + sn, den: -2 * a }))
    }
}

impl Root {
    /// Whether the root lies strictly inside the open unit interval: only
    /// such roots are interior extrema candidates.
    pub fn in_open_unit(&self) -> (r: bool)
        ensures
            r <==> 0 < self.num < self.den,
    {
        0 < self.num && self.num < self.den
    }

    /// The root as a curve parameter.
    pub fn to_frac(&self) -> (f: Frac)
        requires
            0 < self.num < self.den,
            self.den <= MAX_DEN,
        ensures
            f.num == self.num,
            f.den == self.den,
            f.wf(),
    {
        Frac { num: self.num as u64, den: self.den as u64 }
    }
}

} // verus!
