use vstd::prelude::*;
use crate::{MAX_COORD, MAX_DEN};
use crate::point::Point;

verus! {

/// A curve parameter: the rational `num / den`, kept in `[0, 1]`.
#[derive(Clone, Copy, PartialEq, Eq, Structural, Debug)]
pub struct Frac {
    pub num: u64,
    pub den: u64,
}

impl Frac {
    pub open spec fn wf(self) -> bool {
        &&& 1 <= self.den <= MAX_DEN
        &&& self.num <= self.den
    }

    /// `den` cubed: the scale of the numerators of an evaluated curve point.
    pub open spec fn den3(self) -> int {
        (self.den * self.den) * self.den
    }

    pub fn new(num: u64, den: u64) -> (f: Frac)
        requires
            1 <= den <= MAX_DEN,
            num <= den,
        ensures
            f.num == num,
            f.den == den,
            f.wf(),
    {
        Frac { num, den }
    }
}

/// Which of the two segment evaluators is in use.
#[derive(Clone, Copy, PartialEq, Eq, Structural, Debug)]
pub enum Mode {
    Recursive,
    Polynomial,
}

/// A position produced by evaluation; each coordinate is a numerator over
/// some power of the parameter's denominator.
#[derive(Clone, Copy, PartialEq, Eq, Structural, Debug)]
pub struct Vec2w {
    pub x: i128,
    pub y: i128,
}

/// A color produced by evaluation, at the same scale as the position.
#[derive(Clone, Copy, PartialEq, Eq, Structural, Debug)]
pub struct Colorw {
    pub r: i128,
    pub g: i128,
    pub b: i128,
    pub a: i128,
}

/// A fully evaluated curve point: numerators over `den^3`.
#[derive(Clone, Copy, PartialEq, Eq, Structural, Debug)]
pub struct EvalPoint {
    pub pos: Vec2w,
    pub color: Colorw,
}

/// Numerator over `d` of the linear interpolation `(1 - t) a + t b` at `t = n / d`.
pub open spec fn lerp_num(a: int, b: int, n: int, d: int) -> int {
    a * (d - n) + b * n
}

/// Numerator over `d^3` of the De Casteljau evaluation of the cubic with
/// control values `x0 ..= x3` at `t = n / d`.
pub open spec fn casteljau_num(x0: int, x1: int, x2: int, x3: int, n: int, d: int) -> int {
    lerp_num(
        lerp_num(lerp_num(x0, x1, n, d), lerp_num(x1, x2, n, d), n, d),
        lerp_num(lerp_num(x1, x2, n, d), lerp_num(x2, x3, n, d), n, d),
        n,
        d,
    )
}

/// Numerator over `d^3` of the Bernstein-form evaluation of the same cubic:
/// the weights are the cubic Bernstein basis values at `n / d`, scaled by `d^3`.
pub open spec fn bernstein_num(x0: int, x1: int, x2: int, x3: int, n: int, d: int) -> int {
    let s = d - n;
    x0 * ((s * s) * s) + x1 * ((s * s) * (3 * n)) + x2 * ((n * n) * (3 * s)) + x3 * ((n * n) * n)
}

/// Numerator over `d^2` of the first derivative of the cubic at `t = n / d`.
pub open spec fn velocity_num(x0: int, x1: int, x2: int, x3: int, n: int, d: int) -> int {
    x0 * (-3 * (n * n) + 6 * (n * d) - 3 * (d * d))
        + x1 * (9 * (n * n) - 12 * (n * d) + 3 * (d * d))
        + x2 * (-9 * (n * n) + 6 * (n * d))
        + x3 * (3 * (n * n))
}

/// Numerator over `d` of the second derivative of the cubic at `t = n / d`.
pub open spec fn acceleration_num(x0: int, x1: int, x2: int, x3: int, n: int, d: int) -> int {
    x0 * (-6 * n + 6 * d) + x1 * (18 * n - 12 * d) + x2 * (-18 * n + 6 * d) + x3 * (6 * n)
}

/// The color an evaluation returns, as a numerator over `d^3`: the recursive
/// evaluator blends all four control colors, the polynomial evaluator blends
/// only the two anchor colors.
pub open spec fn color_num(mode: Mode, c0: int, c1: int, c2: int, c3: int, n: int, d: int) -> int {
    match mode {
        Mode::Recursive => casteljau_num(c0, c1, c2, c3, n, d),
        Mode::Polynomial => lerp_num(c0, c3, n, d) * (d * d),
    }
}

proof fn lemma_level2(x0: int, x1: int, x2: int, n: int, s: int)
    ensures
        (x0 * s + x1 * n) * s + (x1 * s + x2 * n) * n
            == x0 * (s * s) + (2 * x1) * (n * s) + x2 * (n * n),
{
    broadcast use vstd::arithmetic::mul::group_mul_properties;

}

proof fn lemma_level3a(a: int, b: int, c: int, n: int, s: int)
    ensures
        (a * (s * s) + (2 * b) * (n * s) + c * (n * n)) * s
            == a * ((s * s) * s) + (2 * b) * ((s * s) * n) + c * ((n * n) * s),
{
    broadcast use vstd::arithmetic::mul::group_mul_properties;

    assert((n * s) * s == (s * s) * n);
}

proof fn lemma_level3b(b: int, c: int, e: int, n: int, s: int)
    ensures
        (b * (s * s) + (2 * c) * (n * s) + e * (n * n)) * n
            == b * ((s * s) * n) + (2 * c) * ((n * n) * s) + e * ((n * n) * n),
{
    broadcast use vstd::arithmetic::mul::group_mul_properties;

    assert((n * s) * n == (n * n) * s);
}

proof fn lemma_cubic_identity(x0: int, x1: int, x2: int, x3: int, n: int, s: int)
    ensures
        ((x0 * s + x1 * n) * s + (x1 * s + x2 * n) * n) * s
            + ((x1 * s + x2 * n) * s + (x2 * s + x3 * n) * n) * n
            == x0 * ((s * s) * s) + x1 * ((s * s) * (3 * n)) + x2 * ((n * n) * (3 * s))
                + x3 * ((n * n) * n),
{
    broadcast use vstd::arithmetic::mul::group_mul_properties;

    lemma_level2(x0, x1, x2, n, s);
    lemma_level2(x1, x2, x3, n, s);
    lemma_level3a(x0, x1, x2, n, s);
    lemma_level3b(x1, x2, x3, n, s);
    assert((2 * x1) * ((s * s) * n) + x1 * ((s * s) * n) == x1 * ((s * s) * (3 * n)));
    assert(x2 * ((n * n) * s) + (2 * x2) * ((n * n) * s) == x2 * ((n * n) * (3 * s)));
}

/// The recursive and the polynomial evaluator compute the same numerator for
/// every channel and every parameter: over exact arithmetic the two
/// algorithms agree not just within a tolerance but exactly.
pub proof fn lemma_casteljau_is_bernstein(x0: int, x1: int, x2: int, x3: int, n: int, d: int)
    ensures
        casteljau_num(x0, x1, x2, x3, n, d) == bernstein_num(x0, x1, x2, x3, n, d),
{
    lemma_cubic_identity(x0, x1, x2, x3, n, d - n);
}

proof fn lemma_lerp_range(a: int, b: int, n: int, s: int, lo: int, hi: int)
    by (nonlinear_arith)
    requires
        0 <= n,
        0 <= s,
        lo <= a <= hi,
        lo <= b <= hi,
    ensures
        lo * (n + s) <= a * s + b * n <= hi * (n + s),
{
}

/// Every channel of an evaluated curve point lies in the convex hull of the
/// four control values: if each control value is in `[lo, hi]`, the
/// evaluation at any `t = n / d` in `[0, 1]` is in `[lo * d^3, hi * d^3]`.
pub proof fn lemma_bernstein_in_hull(
    x0: int, x1: int, x2: int, x3: int, n: int, d: int, lo: int, hi: int,
)
    requires
        0 <= n <= d,
        lo <= x0 <= hi,
        lo <= x1 <= hi,
        lo <= x2 <= hi,
        lo <= x3 <= hi,
    ensures
        lo * ((d * d) * d) <= bernstein_num(x0, x1, x2, x3, n, d) <= hi * ((d * d) * d),
{
    let s = d - n;
    let l01 = x0 * s + x1 * n;
    let l12 = x1 * s + x2 * n;
    let l23 = x2 * s + x3 * n;
    lemma_lerp_range(x0, x1, n, s, lo, hi);
    lemma_lerp_range(x1, x2, n, s, lo, hi);
    lemma_lerp_range(x2, x3, n, s, lo, hi);
    let m0 = l01 * s + l12 * n;
    let m1 = l12 * s + l23 * n;
    lemma_lerp_range(l01, l12, n, s, lo * d, hi * d);
    lemma_lerp_range(l12, l23, n, s, lo * d, hi * d);
    assert((lo * d) * (n + s) == lo * (d * d) && (hi * d) * (n + s) == hi * (d * d))
        by (nonlinear_arith)
        requires d == n + s;
    lemma_lerp_range(m0, m1, n, s, lo * (d * d), hi * (d * d));
    assert((lo * (d * d)) * (n + s) == lo * ((d * d) * d)
        && (hi * (d * d)) * (n + s) == hi * ((d * d) * d))
        by (nonlinear_arith)
        requires d == n + s;
    assert(casteljau_num(x0, x1, x2, x3, n, d) == m0 * s + m1 * n);
    lemma_casteljau_is_bernstein(x0, x1, x2, x3, n, d);
}

/// At `t = 0` both evaluators return the first control value, and at `t = 1`
/// both return the last one, scaled by `d^3`.
pub proof fn lemma_eval_at_endpoints(x0: int, x1: int, x2: int, x3: int, d: int)
    ensures
        casteljau_num(x0, x1, x2, x3, 0, d) == x0 * ((d * d) * d),
        bernstein_num(x0, x1, x2, x3, 0, d) == x0 * ((d * d) * d),
        casteljau_num(x0, x1, x2, x3, d, d) == x3 * ((d * d) * d),
        bernstein_num(x0, x1, x2, x3, d, d) == x3 * ((d * d) * d),
{
    assert(((x0 * d) * d) * d == x0 * ((d * d) * d)) by (nonlinear_arith);
    assert(((x3 * d) * d) * d == x3 * ((d * d) * d)) by (nonlinear_arith);
    lemma_casteljau_is_bernstein(x0, x1, x2, x3, 0, d);
    lemma_casteljau_is_bernstein(x0, x1, x2, x3, d, d);
}

/// One interpolation step on channel numerators: `r = a * s + b * n`, where
/// `n + s` is the parameter denominator. Values bounded by `bound` stay
/// bounded by `bound * (n + s)`.
pub(crate) fn lerp_step(a: i128, b: i128, n: i128, s: i128, bound: i128) -> (r: i128)
    requires
        0 <= n,
        0 <= s,
        n + s <= MAX_DEN,
        1 <= bound <= 10_000_000_000_000_000_000_000i128,
        -bound <= a <= bound,
        -bound <= b <= bound,
    ensures
        r == a * s + b * n,
        -(bound * (n + s)) <= r,
        r <= bound * (n + s),
{
    proof {
        assert(
            -(bound * (n + s)) <= a * s + b * n && a * s + b * n <= bound * (n + s)
                && -1_000_000_000_000_000_000_000_000_000_000i128 <= a * s
                    <= 1_000_000_000_000_000_000_000_000_000_000i128
                && -1_000_000_000_000_000_000_000_000_000_000i128 <= b * n
                    <= 1_000_000_000_000_000_000_000_000_000_000i128
        ) by (nonlinear_arith)
            requires
                0 <= n,
                0 <= s,
                n + s <= 100_000_000int,
                1 <= bound <= 10_000_000_000_000_000_000_000i128,
                -bound <= a <= bound,
                -bound <= b <= bound;
    }
    a * s + b * n
}

/// Product of two parameter-sized factors (each at most `MAX_DEN`).
pub(crate) fn mul_small(a: i128, b: i128) -> (r: i128)
    requires
        0 <= a <= 100_000_000i128,
        0 <= b <= 100_000_000i128,
    ensures
        r == a * b,
        0 <= r <= 10_000_000_000_000_000i128,
{
    proof {
        assert(0 <= a * b <= 10_000_000_000_000_000i128) by (nonlinear_arith)
            requires 0 <= a <= 100_000_000i128, 0 <= b <= 100_000_000i128;
    }
    a * b
}

/// Product of a two-factor weight and one more parameter-sized factor.
pub(crate) fn mul_wide(a: i128, b: i128) -> (r: i128)
    requires
        0 <= a <= 10_000_000_000_000_000i128,
        0 <= b <= 300_000_000i128,
    ensures
        r == a * b,
        0 <= r <= 3_000_000_000_000_000_000_000_000i128,
{
    proof {
        assert(0 <= a * b <= 3_000_000_000_000_000_000_000_000i128) by (nonlinear_arith)
            requires 0 <= a <= 10_000_000_000_000_000i128, 0 <= b <= 300_000_000i128;
    }
    a * b
}

/// Product of a control-point channel and a weight bounded by `cb`.
fn mul_coord(x: i128, c: i128, cb: i128) -> (r: i128)
    requires
        -1_000_000 <= x <= 1_000_000,
        0 <= cb <= 3_000_000_000_000_000_000_000_000i128,
        -cb <= c <= cb,
    ensures
        r == x * c,
        -(1_000_000 * cb) <= r,
        r <= 1_000_000 * cb,
{
    proof {
        assert(-(1_000_000i128 * cb) <= x * c && x * c <= 1_000_000i128 * cb)
            by (nonlinear_arith)
            requires
                -1_000_000i128 <= x <= 1_000_000i128,
                0 <= cb <= 3_000_000_000_000_000_000_000_000i128,
                -cb <= c <= cb;
    }
    x * c
}

fn casteljau_channel(x0: i64, x1: i64, x2: i64, x3: i64, t: &Frac) -> (r: i128)
    requires
        t.wf(),
        -MAX_COORD <= x0 <= MAX_COORD,
        -MAX_COORD <= x1 <= MAX_COORD,
        -MAX_COORD <= x2 <= MAX_COORD,
        -MAX_COORD <= x3 <= MAX_COORD,
    ensures
        r == casteljau_num(x0 as int, x1 as int, x2 as int, x3 as int, t.num as int, t.den as int),
{
    let n = t.num as i128;
    let s = (t.den - t.num) as i128;
    let d = t.den as i128;
    let b1: i128 = 1_000_000 * d;
    proof {
        assert(n + s == d);
        assert(b1 * d <= 10_000_000_000_000_000_000_000i128 && 1 <= b1 * d)
            by (nonlinear_arith)
            requires 1 <= d <= 100_000_000i128, b1 == 1_000_000i128 * d;
    }
    let b2: i128 = b1 * d;
    let l01 = lerp_step(x0 as i128, x1 as i128, n, s, 1_000_000);
    let l12 = lerp_step(x1 as i128, x2 as i128, n, s, 1_000_000);
    let l23 = lerp_step(x2 as i128, x3 as i128, n, s, 1_000_000);
    let m0 = lerp_step(l01, l12, n, s, b1);
    let m1 = lerp_step(l12, l23, n, s, b1);
    lerp_step(m0, m1, n, s, b2)
}

fn bernstein_channel(x0: i64, x1: i64, x2: i64, x3: i64, t: &Frac) -> (r: i128)
    requires
        t.wf(),
        -MAX_COORD <= x0 <= MAX_COORD,
        -MAX_COORD <= x1 <= MAX_COORD,
        -MAX_COORD <= x2 <= MAX_COORD,
        -MAX_COORD <= x3 <= MAX_COORD,
    ensures
        r == bernstein_num(x0 as int, x1 as int, x2 as int, x3 as int, t.num as int, t.den as int),
{
    let n = t.num as i128;
    let s = (t.den - t.num) as i128;
    let ss = mul_small(s, s);
    let nn = mul_small(n, n);
    let w0 = mul_wide(ss, s);
    let w1 = mul_wide(ss, 3 * n);
    let w2 = mul_wide(nn, 3 * s);
    let w3 = mul_wide(nn, n);
    let cap: i128 = 3_000_000_000_000_000_000_000_000;
    mul_coord(x0 as i128, w0, cap) + mul_coord(x1 as i128, w1, cap)
        + mul_coord(x2 as i128, w2, cap) + mul_coord(x3 as i128, w3, cap)
}

/// Evaluate a segment with De Casteljau's algorithm: three interpolation
/// levels collapse the four control points to one, and the color is blended
/// through the same recursion as the position.
pub fn decasteljau(points: &[Point], t: &Frac) -> (r: EvalPoint)
    requires
        points@.len() == 4,
        forall|i: int| 0 <= i < 4 ==> points@[i].bounded(),
        t.wf(),
    ensures
        r.pos.x == casteljau_num(
            points@[0].pos.x as int, points@[1].pos.x as int,
            points@[2].pos.x as int, points@[3].pos.x as int,
            t.num as int, t.den as int,
        ),
        r.pos.y == casteljau_num(
            points@[0].pos.y as int, points@[1].pos.y as int,
            points@[2].pos.y as int, points@[3].pos.y as int,
            t.num as int, t.den as int,
        ),
        r.color.r == casteljau_num(
            points@[0].color.r as int, points@[1].color.r as int,
            points@[2].color.r as int, points@[3].color.r as int,
            t.num as int, t.den as int,
        ),
        r.color.g == casteljau_num(
            points@[0].color.g as int, points@[1].color.g as int,
            points@[2].color.g as int, points@[3].color.g as int,
            t.num as int, t.den as int,
        ),
        r.color.b == casteljau_num(
            points@[0].color.b as int, points@[1].color.b as int,
            points@[2].color.b as int, points@[3].color.b as int,
            t.num as int, t.den as int,
        ),
        r.color.a == casteljau_num(
            points@[0].color.a as int, points@[1].color.a as int,
            points@[2].color.a as int, points@[3].color.a as int,
            t.num as int, t.den as int,
        ),
{
    let a = points[0];
    let b = points[1];
    let c = points[2];
    let d = points[3];
    EvalPoint {
        pos: Vec2w {
            x: casteljau_channel(a.pos.x, b.pos.x, c.pos.x, d.pos.x, t),
            y: casteljau_channel(a.pos.y, b.pos.y, c.pos.y, d.pos.y, t),
        },
        color: Colorw {
            r: casteljau_channel(a.color.r, b.color.r, c.color.r, d.color.r, t),
            g: casteljau_channel(a.color.g, b.color.g, c.color.g, d.color.g, t),
            b: casteljau_channel(a.color.b, b.color.b, c.color.b, d.color.b, t),
            a: casteljau_channel(a.color.a, b.color.a, c.color.a, d.color.a, t),
        },
    }
}

/// Evaluate the position of a segment in Bernstein polynomial form: the
/// direct weighted sum of the four control positions.
pub fn cubic_bezier(t: &Frac, points: &[Point]) -> (r: Vec2w)
    requires
        points@.len() == 4,
        forall|i: int| 0 <= i < 4 ==> points@[i].bounded(),
        t.wf(),
    ensures
        r.x == bernstein_num(
            points@[0].pos.x as int, points@[1].pos.x as int,
            points@[2].pos.x as int, points@[3].pos.x as int,
            t.num as int, t.den as int,
        ),
        r.y == bernstein_num(
            points@[0].pos.y as int, points@[1].pos.y as int,
            points@[2].pos.y as int, points@[3].pos.y as int,
            t.num as int, t.den as int,
        ),
{
    Vec2w {
        x: bernstein_channel(points[0].pos.x, points[1].pos.x, points[2].pos.x, points[3].pos.x, t),
        y: bernstein_channel(points[0].pos.y, points[1].pos.y, points[2].pos.y, points[3].pos.y, t),
    }
}

/// Evaluate one segment at `t` in the given mode. Both modes return the
/// Bernstein-form position (the recursive one provably computes the same
/// value); the color differs: the recursive mode blends all four control
/// colors, the polynomial mode interpolates the two anchor colors only.
pub fn evaluate(points: &[Point], t: &Frac, mode: Mode) -> (r: EvalPoint)
    requires
        points@.len() == 4,
        forall|i: int| 0 <= i < 4 ==> points@[i].bounded(),
        t.wf(),
    ensures
        r.pos.x == bernstein_num(
            points@[0].pos.x as int, points@[1].pos.x as int,
            points@[2].pos.x as int, points@[3].pos.x as int,
            t.num as int, t.den as int,
        ),
        r.pos.y == bernstein_num(
            points@[0].pos.y as int, points@[1].pos.y as int,
            points@[2].pos.y as int, points@[3].pos.y as int,
            t.num as int, t.den as int,
        ),
        r.color.r == color_num(
            mode,
            points@[0].color.r as int, points@[1].color.r as int,
            points@[2].color.r as int, points@[3].color.r as int,
            t.num as int, t.den as int,
        ),
        r.color.g == color_num(
            mode,
            points@[0].color.g as int, points@[1].color.g as int,
            points@[2].color.g as int, points@[3].color.g as int,
            t.num as int, t.den as int,
        ),
        r.color.b == color_num(
            mode,
            points@[0].color.b as int, points@[1].color.b as int,
            points@[2].color.b as int, points@[3].color.b as int,
            t.num as int, t.den as int,
        ),
        r.color.a == color_num(
            mode,
            points@[0].color.a as int, points@[1].color.a as int,
            points@[2].color.a as int, points@[3].color.a as int,
            t.num as int, t.den as int,
        ),
{
    match mode {
        Mode::Recursive => {
            let r = decasteljau(points, t);
            proof {
                lemma_casteljau_is_bernstein(
                    points@[0].pos.x as int, points@[1].pos.x as int,
                    points@[2].pos.x as int, points@[3].pos.x as int,
                    t.num as int, t.den as int,
                );
                lemma_casteljau_is_bernstein(
                    points@[0].pos.y as int, points@[1].pos.y as int,
                    points@[2].pos.y as int, points@[3].pos.y as int,
                    t.num as int, t.den as int,
                );
            }
            r
        },
        Mode::Polynomial => {
            let pos = cubic_bezier(t, points);
            let start = points[0];
            let end = points[3];
            EvalPoint {
                pos,
                color: Colorw {
                    r: anchor_color_channel(start.color.r, end.color.r, t),
                    g: anchor_color_channel(start.color.g, end.color.g, t),
                    b: anchor_color_channel(start.color.b, end.color.b, t),
                    a: anchor_color_channel(start.color.a, end.color.a, t),
                },
            }
        },
    }
}

/// The polynomial mode's color: a single interpolation between the two
/// anchor colors, scaled by `d^2` so that it shares the `d^3` scale of the
/// evaluated position.
fn anchor_color_channel(c0: i64, c3: i64, t: &Frac) -> (r: i128)
    requires
        t.wf(),
        -MAX_COORD <= c0 <= MAX_COORD,
        -MAX_COORD <= c3 <= MAX_COORD,
    ensures
        r == lerp_num(c0 as int, c3 as int, t.num as int, t.den as int)
            * ((t.den as int) * (t.den as int)),
{
    let n = t.num as i128;
    let s = (t.den - t.num) as i128;
    let d = t.den as i128;
    let l = lerp_step(c0 as i128, c3 as i128, n, s, 1_000_000);
    proof {
        assert(n + s == d);
        assert(
            -10_000_000_000_000_000_000_000i128 <= l * d <= 10_000_000_000_000_000_000_000i128
                && -1_000_000_000_000_000_000_000_000_000_000i128 <= (l * d) * d
                    <= 1_000_000_000_000_000_000_000_000_000_000i128
                && (l * d) * d == l * (d * d)
        ) by (nonlinear_arith)
            requires
                -100_000_000_000_000i128 <= l <= 100_000_000_000_000i128,
                1 <= d <= 100_000_000i128;
    }
    (l * d) * d
}

/// First derivative of the Bernstein cubic at `t`, as numerators over `d^2`.
pub fn velocity(points: &[Point], t: &Frac) -> (v: Vec2w)
    requires
        points@.len() == 4,
        forall|i: int| 0 <= i < 4 ==> points@[i].bounded(),
        t.wf(),
    ensures
        v.x == velocity_num(
            points@[0].pos.x as int, points@[1].pos.x as int,
            points@[2].pos.x as int, points@[3].pos.x as int,
            t.num as int, t.den as int,
        ),
        v.y == velocity_num(
            points@[0].pos.y as int, points@[1].pos.y as int,
            points@[2].pos.y as int, points@[3].pos.y as int,
            t.num as int, t.den as int,
        ),
{
    Vec2w {
        x: velocity_channel(points[0].pos.x, points[1].pos.x, points[2].pos.x, points[3].pos.x, t),
        y: velocity_channel(points[0].pos.y, points[1].pos.y, points[2].pos.y, points[3].pos.y, t),
    }
}

fn velocity_channel(x0: i64, x1: i64, x2: i64, x3: i64, t: &Frac) -> (r: i128)
    requires
        t.wf(),
        -MAX_COORD <= x0 <= MAX_COORD,
        -MAX_COORD <= x1 <= MAX_COORD,
        -MAX_COORD <= x2 <= MAX_COORD,
        -MAX_COORD <= x3 <= MAX_COORD,
    ensures
        r == velocity_num(x0 as int, x1 as int, x2 as int, x3 as int, t.num as int, t.den as int),
{
    let n = t.num as i128;
    let d = t.den as i128;
    let nn = mul_small(n, n);
    let nd = mul_small(n, d);
    let dd = mul_small(d, d);
    velocity_combine(x0, x1, x2, x3, nn, nd, dd)
}

fn velocity_combine(
    x0: i64, x1: i64, x2: i64, x3: i64, nn: i128, nd: i128, dd: i128,
) -> (r: i128)
    requires
        -MAX_COORD <= x0 <= MAX_COORD,
        -MAX_COORD <= x1 <= MAX_COORD,
        -MAX_COORD <= x2 <= MAX_COORD,
        -MAX_COORD <= x3 <= MAX_COORD,
        0 <= nn <= 10_000_000_000_000_000i128,
        0 <= nd <= 10_000_000_000_000_000i128,
        0 <= dd <= 10_000_000_000_000_000i128,
    ensures
        r == (x0 as int) * (-3 * nn + 6 * nd - 3 * dd) + (x1 as int) * (9 * nn - 12 * nd + 3 * dd)
            + (x2 as int) * (-9 * nn + 6 * nd) + (x3 as int) * (3 * nn),
{
    let c0 = -3 * nn + 6 * nd - 3 * dd;
    let c1 = 9 * nn - 12 * nd + 3 * dd;
    let c2 = -9 * nn + 6 * nd;
    let c3 = 3 * nn;
    let cap: i128 = 300_000_000_000_000_000;
    mul_coord(x0 as i128, c0, cap) + mul_coord(x1 as i128, c1, cap)
        + mul_coord(x2 as i128, c2, cap) + mul_coord(x3 as i128, c3, cap)
}

/// Second derivative of the Bernstein cubic at `t`, as numerators over `d`.
pub fn acceleration(points: &[Point], t: &Frac) -> (a: Vec2w)
    requires
        points@.len() == 4,
        forall|i: int| 0 <= i < 4 ==> points@[i].bounded(),
        t.wf(),
    ensures
        a.x == acceleration_num(
            points@[0].pos.x as int, points@[1].pos.x as int,
            points@[2].pos.x as int, points@[3].pos.x as int,
            t.num as int, t.den as int,
        ),
        a.y == acceleration_num(
            points@[0].pos.y as int, points@[1].pos.y as int,
            points@[2].pos.y as int, points@[3].pos.y as int,
            t.num as int, t.den as int,
        ),
{
    Vec2w {
        x: acceleration_channel(
            points[0].pos.x, points[1].pos.x, points[2].pos.x, points[3].pos.x, t,
        ),
        y: acceleration_channel(
            points[0].pos.y, points[1].pos.y, points[2].pos.y, points[3].pos.y, t,
        ),
    }
}

fn acceleration_channel(x0: i64, x1: i64, x2: i64, x3: i64, t: &Frac) -> (r: i128)
    requires
        t.wf(),
        -MAX_COORD <= x0 <= MAX_COORD,
        -MAX_COORD <= x1 <= MAX_COORD,
        -MAX_COORD <= x2 <= MAX_COORD,
        -MAX_COORD <= x3 <= MAX_COORD,
    ensures
        r == acceleration_num(
            x0 as int, x1 as int, x2 as int, x3 as int, t.num as int, t.den as int,
        ),
{
    acceleration_combine(x0, x1, x2, x3, t.num as i128, t.den as i128)
}

fn acceleration_combine(x0: i64, x1: i64, x2: i64, x3: i64, n: i128, d: i128) -> (r: i128)
    requires
        -MAX_COORD <= x0 <= MAX_COORD,
        -MAX_COORD <= x1 <= MAX_COORD,
        -MAX_COORD <= x2 <= MAX_COORD,
        -MAX_COORD <= x3 <= MAX_COORD,
        0 <= n <= 100_000_000i128,
        0 <= d <= 100_000_000i128,
    ensures
        r == (x0 as int) * (-6 * n + 6 * d) + (x1 as int) * (18 * n - 12 * d)
            + (x2 as int) * (-18 * n + 6 * d) + (x3 as int) * (6 * n),
{
    let c0 = -6 * n + 6 * d;
    let c1 = 18 * n - 12 * d;
    let c2 = -18 * n + 6 * d;
    let c3 = 6 * n;
    let cap: i128 = 2_000_000_000;
    mul_coord(x0 as i128, c0, cap) + mul_coord(x1 as i128, c1, cap)
        + mul_coord(x2 as i128, c2, cap) + mul_coord(x3 as i128, c3, cap)
}

} // verus!
