use vstd::prelude::*;
use vstd::slice::slice_subrange;
use vstd::arithmetic::div_mod::{lemma_fundamental_div_mod, lemma_fundamental_div_mod_converse};
use crate::MAX_COORD;
use crate::point::{Point, Vec2i};
use crate::eval::{
    Frac, Mode, EvalPoint, bernstein_num, color_num, evaluate, lemma_bernstein_in_hull,
    mul_small, mul_wide,
};
use crate::solve::solve_quadratic;

verus! {

/// An axis-aligned bounding box.
#[derive(Clone, Copy, PartialEq, Eq, Structural, Debug)]
pub struct BoundingBox {
    pub point_min: Vec2i,
    pub point_max: Vec2i,
}

pub open spec fn min2(a: int, b: int) -> int {
    if a <= b { a } else { b }
}

pub open spec fn max2(a: int, b: int) -> int {
    if a <= b { b } else { a }
}

/// Number of stride-3 windows of 4 points over `len` control points.
pub open spec fn seg_count_of(len: int) -> int {
    if len < 4 { 0 } else { (len - 4) / 3 + 1 }
}

pub open spec fn window_min_x(c: Seq<Point>, k: int) -> int {
    min2(
        min2(c[3 * k].pos.x as int, c[3 * k + 1].pos.x as int),
        min2(c[3 * k + 2].pos.x as int, c[3 * k + 3].pos.x as int),
    )
}

pub open spec fn window_max_x(c: Seq<Point>, k: int) -> int {
    max2(
        max2(c[3 * k].pos.x as int, c[3 * k + 1].pos.x as int),
        max2(c[3 * k + 2].pos.x as int, c[3 * k + 3].pos.x as int),
    )
}

pub open spec fn window_min_y(c: Seq<Point>, k: int) -> int {
    min2(
        min2(c[3 * k].pos.y as int, c[3 * k + 1].pos.y as int),
        min2(c[3 * k + 2].pos.y as int, c[3 * k + 3].pos.y as int),
    )
}

pub open spec fn window_max_y(c: Seq<Point>, k: int) -> int {
    max2(
        max2(c[3 * k].pos.y as int, c[3 * k + 1].pos.y as int),
        max2(c[3 * k + 2].pos.y as int, c[3 * k + 3].pos.y as int),
    )
}

/// The x numerator (over `200^3`) of sample `j` of the piecewise curve:
/// sample `j` belongs to segment `j / 201` and uses `t = (j % 201) / 200`.
pub open spec fn sample_x(c: Seq<Point>, j: int) -> int {
    let k = j / 201;
    let i = j % 201;
    bernstein_num(
        c[3 * k].pos.x as int, c[3 * k + 1].pos.x as int,
        c[3 * k + 2].pos.x as int, c[3 * k + 3].pos.x as int,
        i, 200,
    )
}

/// The y numerator of sample `j`.
pub open spec fn sample_y(c: Seq<Point>, j: int) -> int {
    let k = j / 201;
    let i = j % 201;
    bernstein_num(
        c[3 * k].pos.y as int, c[3 * k + 1].pos.y as int,
        c[3 * k + 2].pos.y as int, c[3 * k + 3].pos.y as int,
        i, 200,
    )
}

/// The color numerators of sample `j`, which depend on the evaluation mode.
pub open spec fn sample_color_r(c: Seq<Point>, mode: Mode, j: int) -> int {
    let k = j / 201;
    let i = j % 201;
    color_num(
        mode,
        c[3 * k].color.r as int, c[3 * k + 1].color.r as int,
        c[3 * k + 2].color.r as int, c[3 * k + 3].color.r as int,
        i, 200,
    )
}

pub open spec fn sample_color_g(c: Seq<Point>, mode: Mode, j: int) -> int {
    let k = j / 201;
    let i = j % 201;
    color_num(
        mode,
        c[3 * k].color.g as int, c[3 * k + 1].color.g as int,
        c[3 * k + 2].color.g as int, c[3 * k + 3].color.g as int,
        i, 200,
    )
}

pub open spec fn sample_color_b(c: Seq<Point>, mode: Mode, j: int) -> int {
    let k = j / 201;
    let i = j % 201;
    color_num(
        mode,
        c[3 * k].color.b as int, c[3 * k + 1].color.b as int,
        c[3 * k + 2].color.b as int, c[3 * k + 3].color.b as int,
        i, 200,
    )
}

pub open spec fn sample_color_a(c: Seq<Point>, mode: Mode, j: int) -> int {
    let k = j / 201;
    let i = j % 201;
    color_num(
        mode,
        c[3 * k].color.a as int, c[3 * k + 1].color.a as int,
        c[3 * k + 2].color.a as int, c[3 * k + 3].color.a as int,
        i, 200,
    )
}

/// Sample `j` of the cache equals the exact evaluation of its segment.
pub open spec fn sample_ok(c: Seq<Point>, mode: Mode, rendered: Seq<EvalPoint>, j: int) -> bool {
    &&& rendered[j].pos.x == sample_x(c, j)
    &&& rendered[j].pos.y == sample_y(c, j)
    &&& rendered[j].color.r == sample_color_r(c, mode, j)
    &&& rendered[j].color.g == sample_color_g(c, mode, j)
    &&& rendered[j].color.b == sample_color_b(c, mode, j)
    &&& rendered[j].color.a == sample_color_a(c, mode, j)
}

/// Boxes `2k` and `2k + 1` of the cache are the coarse box of window `k` and
/// a tight box contained in it that still contains both anchors.
pub open spec fn boxes_ok(c: Seq<Point>, boxes: Seq<BoundingBox>, k: int) -> bool {
    let co = boxes[2 * k];
    let ti = boxes[2 * k + 1];
    &&& co.point_min.x == window_min_x(c, k)
    &&& co.point_max.x == window_max_x(c, k)
    &&& co.point_min.y == window_min_y(c, k)
    &&& co.point_max.y == window_max_y(c, k)
    &&& window_min_x(c, k) <= ti.point_min.x
        <= min2(c[3 * k].pos.x as int, c[3 * k + 3].pos.x as int)
    &&& max2(c[3 * k].pos.x as int, c[3 * k + 3].pos.x as int) <= ti.point_max.x
        <= window_max_x(c, k)
    &&& window_min_y(c, k) <= ti.point_min.y
        <= min2(c[3 * k].pos.y as int, c[3 * k + 3].pos.y as int)
    &&& max2(c[3 * k].pos.y as int, c[3 * k + 3].pos.y as int) <= ti.point_max.y
        <= window_max_y(c, k)
}

proof fn lemma_div_lower(mlo: int, x: int, q: int, d: int)
    by (nonlinear_arith)
    requires
        1 <= d,
        mlo * d <= x,
        x < d * (q + 1),
    ensures
        mlo <= q,
{
}

proof fn lemma_div_upper(mhi: int, x: int, q: int, d: int)
    by (nonlinear_arith)
    requires
        1 <= d,
        x <= mhi * d,
        d * q <= x,
    ensures
        q <= mhi,
{
}

proof fn lemma_ceil_upper(mhi: int, x: int, q: int, d: int)
    by (nonlinear_arith)
    requires
        1 <= d,
        x <= mhi * d,
        d * (q - 1) < x,
    ensures
        q <= mhi,
{
}

proof fn lemma_floor_le_ceil(f: int, c: int, x: int, d: int)
    by (nonlinear_arith)
    requires
        1 <= d,
        d * f <= x,
        x <= d * c,
    ensures
        f <= c,
{
}

/// Flooring division of `n` by a positive `d`, stated multiplicatively.
fn floor_div(n: i128, d: i128) -> (q: i128)
    requires
        1 <= d <= 10_000_000_000_000_000_000_000_000i128,
        -10_000_000_000_000_000_000_000_000_000_000i128 <= n
            <= 10_000_000_000_000_000_000_000_000_000_000i128,
    ensures
        d * q <= n < d * (q + 1),
        -20_000_000_000_000_000_000_000_000_000_000i128 <= q
            <= 10_000_000_000_000_000_000_000_000_000_000i128,
{
    if n >= 0 {
        let un = n as u128;
        let ud = d as u128;
        let uq = un / ud;
        proof {
            lemma_fundamental_div_mod(un as int, ud as int);
            assert(0 <= uq <= un) by (nonlinear_arith)
                requires
                    un as int == ud as int * (uq as int) + (un as int % (ud as int)),
                    0 <= un as int % (ud as int),
                    1 <= ud,
                    uq as int == un as int / ud as int,
                    0 <= un;
            assert(d * (uq as int) <= n && n < d * ((uq as int) + 1)) by (nonlinear_arith)
                requires
                    un as int == ud as int * (uq as int) + (un as int % (ud as int)),
                    0 <= un as int % (ud as int) < ud as int,
                    d == ud as int,
                    n == un as int,
                    1 <= d;
        }
        uq as i128
    } else {
        let m = (-n) as u128;
        let ud = d as u128;
        let p = (m + ud - 1) / ud;
        proof {
            lemma_fundamental_div_mod((m + ud - 1) as int, ud as int);
            assert(0 <= p <= m + ud) by (nonlinear_arith)
                requires
                    (m + ud - 1) as int == ud as int * (p as int)
                        + ((m + ud - 1) as int % (ud as int)),
                    0 <= (m + ud - 1) as int % (ud as int),
                    1 <= ud,
                    0 <= m + ud - 1;
            assert(d * (-(p as int)) <= n && n < d * (-(p as int) + 1)) by (nonlinear_arith)
                requires
                    (m + ud - 1) as int == ud as int * (p as int)
                        + ((m + ud - 1) as int % (ud as int)),
                    0 <= (m + ud - 1) as int % (ud as int) < ud as int,
                    d == ud as int,
                    n == -(m as int),
                    1 <= d;
        }
        -(p as i128)
    }
}

/// Ceiling division of `n` by a positive `d`, stated multiplicatively.
fn ceil_div(n: i128, d: i128) -> (q: i128)
    requires
        1 <= d <= 10_000_000_000_000_000_000_000_000i128,
        -10_000_000_000_000_000_000_000_000_000_000i128 <= n
            <= 10_000_000_000_000_000_000_000_000_000_000i128,
    ensures
        d * (q - 1) < n <= d * q,
{
    let f = floor_div(-n, d);
    proof {
        assert(d * (-f) == -(d * f) && d * (-f - 1) == -(d * (f + 1))) by (nonlinear_arith);
    }
    -f
}

/// The piecewise cubic curve: an ordered control-point sequence plus derived
/// caches (sampled points and per-segment bounding boxes) guarded by a dirty
/// flag.
pub struct Curve {
    pub control: Vec<Point>,
    pub rendered: Vec<EvalPoint>,
    pub boxes: Vec<BoundingBox>,
    pub modified: bool,
    pub mode: Mode,
}

impl Curve {
    /// Every control point is in range, the sequence is not absurdly long
    /// (a machine limit, so that index arithmetic cannot overflow), and a
    /// clean curve has valid caches.
    pub open spec fn wf(self) -> bool {
        &&& forall|i: int| 0 <= i < self.control@.len() ==> (#[trigger] self.control@[i]).bounded()
        &&& self.control@.len() <= 1_000_000
        &&& !self.modified ==> self.caches_ok()
    }

    /// The derived caches describe exactly the current control points and mode.
    pub open spec fn caches_ok(self) -> bool {
        let segs = seg_count_of(self.control@.len() as int);
        &&& self.rendered@.len() == 201 * segs
        &&& self.boxes@.len() == 2 * segs
        &&& forall|j: int| 0 <= j < self.rendered@.len()
            ==> #[trigger] sample_ok(self.control@, self.mode, self.rendered@, j)
        &&& forall|k: int| 0 <= k < segs ==> #[trigger] boxes_ok(self.control@, self.boxes@, k)
    }

    /// A fresh curve: no control points, stale (empty) caches, polynomial mode.
    pub fn new() -> (c: Curve)
        ensures
            c.wf(),
            c.control@.len() == 0,
            c.modified,
            c.mode == Mode::Polynomial,
    {
        Curve {
            control: Vec::new(),
            rendered: Vec::new(),
            boxes: Vec::new(),
            modified: true,
            mode: Mode::Polynomial,
        }
    }

    /// Append a control point; marks the curve dirty.
    pub fn add_point(&mut self, p: Point)
        requires
            old(self).wf(),
            p.bounded(),
            old(self).control@.len() < 1_000_000,
        ensures
            final(self).wf(),
            final(self).control@ == old(self).control@.push(p),
            final(self).modified,
            final(self).mode == old(self).mode,
    {
        self.control.push(p);
        self.modified = true;
    }

    /// Remove the control point at `i`; marks the curve dirty.
    pub fn remove_point(&mut self, i: usize)
        requires
            old(self).wf(),
            i < old(self).control@.len(),
        ensures
            final(self).wf(),
            final(self).control@ == old(self).control@.remove(i as int),
            final(self).modified,
            final(self).mode == old(self).mode,
    {
        self.control.remove(i);
        self.modified = true;
    }

    /// Move the control point at `i` to a new position; marks the curve dirty.
    pub fn move_point(&mut self, i: usize, pos: Vec2i)
        requires
            old(self).wf(),
            i < old(self).control@.len(),
            -MAX_COORD <= pos.x <= MAX_COORD,
            -MAX_COORD <= pos.y <= MAX_COORD,
        ensures
            final(self).wf(),
            final(self).control@ == old(self).control@.update(
                i as int,
                Point { pos, color: old(self).control@[i as int].color },
            ),
            final(self).modified,
            final(self).mode == old(self).mode,
    {
        let color = self.control[i].color;
        self.control.set(i, Point { pos, color });
        self.modified = true;
    }

    /// Switch between the recursive and the polynomial evaluator; the caches
    /// become stale because the two modes blend colors differently.
    pub fn toggle_mode(&mut self)
        requires
            old(self).wf(),
        ensures
            final(self).wf(),
            final(self).control@ == old(self).control@,
            final(self).modified,
            final(self).mode == (if old(self).mode == Mode::Recursive {
                Mode::Polynomial
            } else {
                Mode::Recursive
            }),
    {
        self.mode = if self.mode == Mode::Recursive { Mode::Polynomial } else { Mode::Recursive };
        self.modified = true;
    }

    /// Rebuild both caches in full: every stride-3 window of four control
    /// points is sampled at the 201 fixed parameters, and its coarse and
    /// tight bounding boxes are appended. With fewer than four control
    /// points this is a no-op that leaves the caches empty. Clears the
    /// dirty flag.
    pub fn render(&mut self)
        requires
            old(self).wf(),
        ensures
            final(self).wf(),
            final(self).control@ == old(self).control@,
            final(self).mode == old(self).mode,
            !final(self).modified,
            final(self).caches_ok(),
    {
        self.rendered = Vec::new();
        self.boxes = Vec::new();
        let n = self.control.len();
        if n >= 4 {
            let nsegs = (n - 4) / 3 + 1;
            let mut k: usize = 0;
            while k < nsegs
                invariant
                    old(self).wf(),
                    self.control@ == old(self).control@,
                    self.mode == old(self).mode,
                    n == self.control@.len(),
                    n >= 4,
                    nsegs == seg_count_of(n as int),
                    k <= nsegs,
                    self.rendered@.len() == 201 * k,
                    self.boxes@.len() == 2 * k,
                    forall|j: int| 0 <= j < self.rendered@.len()
                        ==> #[trigger] sample_ok(self.control@, self.mode, self.rendered@, j),
                    forall|kk: int| 0 <= kk < k
                        ==> #[trigger] boxes_ok(self.control@, self.boxes@, kk),
                decreases nsegs - k,
            {
                proof {
                    assert(3 * (nsegs - 1) <= n - 4) by {
                        lemma_fundamental_div_mod((n - 4) as int, 3);
                    };
                }
                let seg = slice_subrange(self.control.as_slice(), 3 * k, 3 * k + 4);
                proof {
                    assert(forall|q: int| 0 <= q < 4
                        ==> #[trigger] seg@[q] == self.control@[3 * k + q]);
                }
                let mut i: u64 = 0;
                while i < 201
                    invariant
                        old(self).wf(),
                        self.control@ == old(self).control@,
                        self.mode == old(self).mode,
                        n == self.control@.len(),
                        n >= 4,
                        nsegs == seg_count_of(n as int),
                        k < nsegs,
                        3 * k + 4 <= n,
                        seg@.len() == 4,
                        forall|q: int| 0 <= q < 4
                            ==> #[trigger] seg@[q] == self.control@[3 * k + q],
                        i <= 201,
                        self.rendered@.len() == 201 * k + i,
                        self.boxes@.len() == 2 * k,
                        forall|j: int| 0 <= j < self.rendered@.len()
                            ==> #[trigger] sample_ok(self.control@, self.mode, self.rendered@, j),
                        forall|kk: int| 0 <= kk < k
                            ==> #[trigger] boxes_ok(self.control@, self.boxes@, kk),
                    decreases 201 - i,
                {
                    let t = Frac::new(i, 200);
                    let e = evaluate(seg, &t, self.mode);
                    let ghost prev = self.rendered@;
                    self.rendered.push(e);
                    proof {
                        lemma_fundamental_div_mod_converse(
                            201 * (k as int) + (i as int), 201, k as int, i as int,
                        );
                        let c = self.control@;
                        let md = self.mode;
                        let now = self.rendered@;
                        assert forall|j: int| 0 <= j < now.len()
                            implies #[trigger] sample_ok(c, md, now, j) by {
                            if j < prev.len() {
                                assert(sample_ok(c, md, prev, j));
                                assert(now[j] == prev[j]);
                            } else {
                                assert(j == 201 * (k as int) + (i as int));
                                assert(now[j] == e);
                            }
                        }
                    }
                    i = i + 1;
                }
                let co = Self::bounding_box(seg);
                let ti = Self::tight_bounding_box(seg);
                let ghost prevb = self.boxes@;
                self.boxes.push(co);
                self.boxes.push(ti);
                proof {
                    let c = self.control@;
                    let now = self.boxes@;
                    assert forall|kk: int| 0 <= kk < (k as int) + 1
                        implies #[trigger] boxes_ok(c, now, kk) by {
                        if kk < k as int {
                            assert(boxes_ok(c, prevb, kk));
                            assert(now[2 * kk] == prevb[2 * kk]);
                            assert(now[2 * kk + 1] == prevb[2 * kk + 1]);
                        } else {
                            assert(now[2 * kk] == co);
                            assert(now[2 * kk + 1] == ti);
                        }
                    }
                }
                k = k + 1;
            }
        }
        self.modified = false;
    }

    /// Handle a draw request: while dirty, rebuild the caches first; a clean
    /// curve is read as it stands. Afterwards the caches always describe the
    /// current control points and mode.
    pub fn draw(&mut self)
        requires
            old(self).wf(),
        ensures
            final(self).wf(),
            final(self).control@ == old(self).control@,
            final(self).mode == old(self).mode,
            !final(self).modified,
            final(self).caches_ok(),
    {
        if self.modified {
            self.render();
        }
    }

    /// Coarse bounding box: the min/max reduction over a point set.
    pub fn bounding_box(points: &[Point]) -> (r: BoundingBox)
        requires
            points@.len() >= 1,
        ensures
            forall|j: int| 0 <= j < points@.len()
                ==> r.point_min.x <= (#[trigger] points@[j]).pos.x <= r.point_max.x
                    && r.point_min.y <= points@[j].pos.y <= r.point_max.y,
            exists|j: int| 0 <= j < points@.len() && r.point_min.x == (#[trigger] points@[j]).pos.x,
            exists|j: int| 0 <= j < points@.len() && r.point_max.x == (#[trigger] points@[j]).pos.x,
            exists|j: int| 0 <= j < points@.len() && r.point_min.y == (#[trigger] points@[j]).pos.y,
            exists|j: int| 0 <= j < points@.len() && r.point_max.y == (#[trigger] points@[j]).pos.y,
    {
        let first = points[0];
        let mut min_x = first.pos.x;
        let mut max_x = first.pos.x;
        let mut min_y = first.pos.y;
        let mut max_y = first.pos.y;
        let mut i: usize = 1;
        while i < points.len()
            invariant
                1 <= i <= points@.len(),
                forall|j: int| 0 <= j < i
                    ==> min_x <= (#[trigger] points@[j]).pos.x <= max_x
                        && min_y <= points@[j].pos.y <= max_y,
                exists|j: int| 0 <= j < i && min_x == (#[trigger] points@[j]).pos.x,
                exists|j: int| 0 <= j < i && max_x == (#[trigger] points@[j]).pos.x,
                exists|j: int| 0 <= j < i && min_y == (#[trigger] points@[j]).pos.y,
                exists|j: int| 0 <= j < i && max_y == (#[trigger] points@[j]).pos.y,
            decreases points@.len() - i,
        {
            let p = points[i];
            if p.pos.x < min_x {
                min_x = p.pos.x;
            }
            if p.pos.x > max_x {
                max_x = p.pos.x;
            }
            if p.pos.y < min_y {
                min_y = p.pos.y;
            }
            if p.pos.y > max_y {
                max_y = p.pos.y;
            }
            i = i + 1;
        }
        BoundingBox {
            point_min: Vec2i { x: min_x, y: min_y },
            point_max: Vec2i { x: max_x, y: max_y },
        }
    }

    /// Tight bounding box of one segment: seeded with the two anchors, then
    /// expanded per axis by the curve position at each interior extremum
    /// candidate found by the quadratic solver. The result always contains
    /// both anchors and is always contained in the coarse box of all four
    /// control points.
    pub fn tight_bounding_box(points: &[Point]) -> (r: BoundingBox)
        requires
            points@.len() == 4,
            forall|i: int| 0 <= i < 4 ==> (#[trigger] points@[i]).bounded(),
        ensures
            ({
                let x0 = points@[0].pos.x as int;
                let x3 = points@[3].pos.x as int;
                let y0 = points@[0].pos.y as int;
                let y3 = points@[3].pos.y as int;
                let xlo = min2(
                    min2(points@[0].pos.x as int, points@[1].pos.x as int),
                    min2(points@[2].pos.x as int, points@[3].pos.x as int),
                );
                let xhi = max2(
                    max2(points@[0].pos.x as int, points@[1].pos.x as int),
                    max2(points@[2].pos.x as int, points@[3].pos.x as int),
                );
                let ylo = min2(
                    min2(points@[0].pos.y as int, points@[1].pos.y as int),
                    min2(points@[2].pos.y as int, points@[3].pos.y as int),
                );
                let yhi = max2(
                    max2(points@[0].pos.y as int, points@[1].pos.y as int),
                    max2(points@[2].pos.y as int, points@[3].pos.y as int),
                );
                &&& xlo <= r.point_min.x <= min2(x0, x3)
                &&& max2(x0, x3) <= r.point_max.x <= xhi
                &&& ylo <= r.point_min.y <= min2(y0, y3)
                &&& max2(y0, y3) <= r.point_max.y <= yhi
            }),
    {
        let p0 = points[0];
        let p3 = points[3];
        let mut min_x = if p0.pos.x <= p3.pos.x { p0.pos.x } else { p3.pos.x };
        let mut max_x = if p0.pos.x <= p3.pos.x { p3.pos.x } else { p0.pos.x };
        let mut min_y = if p0.pos.y <= p3.pos.y { p0.pos.y } else { p3.pos.y };
        let mut max_y = if p0.pos.y <= p3.pos.y { p3.pos.y } else { p0.pos.y };

        let xs = [points[0].pos.x, points[1].pos.x, points[2].pos.x, points[3].pos.x];
        if let Ok((tx0, tx1)) = solve_quadratic(xs) {
            if tx0.in_open_unit() {
                let t = tx0.to_frac();
                let (flo, fhi) = Self::candidate_x(points, &t);
                if flo < min_x {
                    min_x = flo;
                }
                if fhi > max_x {
                    max_x = fhi;
                }
            }
            if tx1.in_open_unit() {
                let t = tx1.to_frac();
                let (flo, fhi) = Self::candidate_x(points, &t);
                if flo < min_x {
                    min_x = flo;
                }
                if fhi > max_x {
                    max_x = fhi;
                }
            }
        }

        let ys = [points[0].pos.y, points[1].pos.y, points[2].pos.y, points[3].pos.y];
        if let Ok((ty0, ty1)) = solve_quadratic(ys) {
            if ty0.in_open_unit() {
                let t = ty0.to_frac();
                let (flo, fhi) = Self::candidate_y(points, &t);
                if flo < min_y {
                    min_y = flo;
                }
                if fhi > max_y {
                    max_y = fhi;
                }
            }
            if ty1.in_open_unit() {
                let t = ty1.to_frac();
                let (flo, fhi) = Self::candidate_y(points, &t);
                if flo < min_y {
                    min_y = flo;
                }
                if fhi > max_y {
                    max_y = fhi;
                }
            }
        }

        BoundingBox {
            point_min: Vec2i { x: min_x, y: min_y },
            point_max: Vec2i { x: max_x, y: max_y },
        }
    }

    /// The x coordinate of the curve at `t`, rounded outward to the integer
    /// grid: a (floor, ceiling) pair, both within the hull of the four
    /// control x values.
    fn candidate_x(points: &[Point], t: &Frac) -> (r: (i64, i64))
        requires
            points@.len() == 4,
            forall|i: int| 0 <= i < 4 ==> (#[trigger] points@[i]).bounded(),
            t.wf(),
        ensures
            min2(
                min2(points@[0].pos.x as int, points@[1].pos.x as int),
                min2(points@[2].pos.x as int, points@[3].pos.x as int),
            ) <= r.0 <= r.1 <= max2(
                max2(points@[0].pos.x as int, points@[1].pos.x as int),
                max2(points@[2].pos.x as int, points@[3].pos.x as int),
            ),
    {
        let cand = crate::eval::cubic_bezier(t, points);
        Self::round_candidate(
            cand.x,
            t,
            Ghost(points@[0].pos.x as int),
            Ghost(points@[1].pos.x as int),
            Ghost(points@[2].pos.x as int),
            Ghost(points@[3].pos.x as int),
        )
    }

    /// The y coordinate of the curve at `t`, rounded outward.
    fn candidate_y(points: &[Point], t: &Frac) -> (r: (i64, i64))
        requires
            points@.len() == 4,
            forall|i: int| 0 <= i < 4 ==> (#[trigger] points@[i]).bounded(),
            t.wf(),
        ensures
            min2(
                min2(points@[0].pos.y as int, points@[1].pos.y as int),
                min2(points@[2].pos.y as int, points@[3].pos.y as int),
            ) <= r.0 <= r.1 <= max2(
                max2(points@[0].pos.y as int, points@[1].pos.y as int),
                max2(points@[2].pos.y as int, points@[3].pos.y as int),
            ),
    {
        let cand = crate::eval::cubic_bezier(t, points);
        Self::round_candidate(
            cand.y,
            t,
            Ghost(points@[0].pos.y as int),
            Ghost(points@[1].pos.y as int),
            Ghost(points@[2].pos.y as int),
            Ghost(points@[3].pos.y as int),
        )
    }

    /// Round a channel numerator over `t.den^3` outward to integers, and
    /// carry the hull bounds through the rounding.
    fn round_candidate(
        num: i128, t: &Frac, Ghost(x0): Ghost<int>, Ghost(x1): Ghost<int>,
        Ghost(x2): Ghost<int>, Ghost(x3): Ghost<int>,
    ) -> (r: (i64, i64))
        requires
            t.wf(),
            -MAX_COORD <= x0 <= MAX_COORD,
            -MAX_COORD <= x1 <= MAX_COORD,
            -MAX_COORD <= x2 <= MAX_COORD,
            -MAX_COORD <= x3 <= MAX_COORD,
            num == bernstein_num(x0, x1, x2, x3, t.num as int, t.den as int),
        ensures
            min2(min2(x0, x1), min2(x2, x3)) <= r.0 <= r.1 <= max2(max2(x0, x1), max2(x2, x3)),
    {
        let d = t.den as i128;
        let dd = mul_small(d, d);
        let d3 = mul_wide(dd, d);
        let ghost lo = min2(min2(x0, x1), min2(x2, x3));
        let ghost hi = max2(max2(x0, x1), max2(x2, x3));
        proof {
            lemma_bernstein_in_hull(x0, x1, x2, x3, t.num as int, t.den as int, lo, hi);
            assert(1 <= dd && 1 <= d3) by (nonlinear_arith)
                requires dd == d * d, d3 == dd * d, 1 <= d;
            assert(-10_000_000_000_000_000_000_000_000_000_000i128 <= num
                && num <= 10_000_000_000_000_000_000_000_000_000_000i128) by (nonlinear_arith)
                requires
                    -1_000_000 <= lo <= 1_000_000,
                    -1_000_000 <= hi <= 1_000_000,
                    1 <= d3 <= 3_000_000_000_000_000_000_000_000i128,
                    lo * (d3 as int) <= num as int,
                    num as int <= hi * (d3 as int);
        }
        let f = floor_div(num, d3);
        let c = ceil_div(num, d3);
        proof {
            lemma_div_lower(lo, num as int, f as int, d3 as int);
            lemma_div_upper(hi, num as int, f as int, d3 as int);
            lemma_ceil_upper(hi, num as int, c as int, d3 as int);
            lemma_floor_le_ceil(f as int, c as int, num as int, d3 as int);
        }
        (f as i64, c as i64)
    }
}

} // verus!
