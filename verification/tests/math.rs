use bezier_editor::curve::Curve;
use bezier_editor::eval::{
    acceleration, cubic_bezier, decasteljau, evaluate, velocity, Frac, Mode,
};
use bezier_editor::point::{Color, Point, Vec2i};
use bezier_editor::solve::{solve_quadratic, SolveError};

fn pt(x: i64, y: i64, c: Color) -> Point {
    Point {
        pos: Vec2i { x, y },
        color: c,
    }
}

fn grey(v: i64) -> Color {
    Color {
        r: v,
        g: v,
        b: v,
        a: 255,
    }
}

fn segment() -> Vec<Point> {
    vec![
        pt(0, 0, grey(10)),
        pt(0, 100, grey(20)),
        pt(100, 100, grey(30)),
        pt(100, 0, grey(40)),
    ]
}

#[test]
fn evaluators_agree_exactly() {
    let seg = segment();
    for (num, den) in [(0u64, 1u64), (1, 3), (1, 2), (2, 3), (7, 11), (199, 200), (1, 1)] {
        let t = Frac::new(num, den);
        let rec = decasteljau(&seg, &t);
        let pol = cubic_bezier(&t, &seg);
        assert_eq!(rec.pos.x, pol.x);
        assert_eq!(rec.pos.y, pol.y);
    }
}

#[test]
fn endpoints_match_anchors_in_both_modes() {
    let seg = segment();
    let d: i128 = 7;
    let d3 = d * d * d;
    let t0 = Frac::new(0, 7);
    let t1 = Frac::new(7, 7);
    for mode in [Mode::Recursive, Mode::Polynomial] {
        let s = evaluate(&seg, &t0, mode);
        assert_eq!(s.pos.x, 0);
        assert_eq!(s.pos.y, 0);
        assert_eq!(s.color.r, 10 * d3);
        let e = evaluate(&seg, &t1, mode);
        assert_eq!(e.pos.x, 100 * d3);
        assert_eq!(e.pos.y, 0);
        assert_eq!(e.color.r, 40 * d3);
    }
}

#[test]
fn tight_box_inside_coarse_box_randomized() {
    // Deterministic pseudo-random control configurations.
    let mut state: u64 = 0x2545_f491_4f6c_dd1d;
    let mut next = move || {
        state ^= state << 13;
        state ^= state >> 7;
        state ^= state << 17;
        (state % 2001) as i64 - 1000
    };
    for _ in 0..50 {
        let seg = vec![
            pt(next(), next(), grey(1)),
            pt(next(), next(), grey(2)),
            pt(next(), next(), grey(3)),
            pt(next(), next(), grey(4)),
        ];
        let coarse = Curve::bounding_box(&seg);
        let tight = Curve::tight_bounding_box(&seg);
        assert!(coarse.point_min.x <= tight.point_min.x);
        assert!(coarse.point_min.y <= tight.point_min.y);
        assert!(tight.point_max.x <= coarse.point_max.x);
        assert!(tight.point_max.y <= coarse.point_max.y);
        // The tight box still contains both anchors.
        assert!(tight.point_min.x <= seg[0].pos.x && seg[0].pos.x <= tight.point_max.x);
        assert!(tight.point_min.x <= seg[3].pos.x && seg[3].pos.x <= tight.point_max.x);
        assert!(tight.point_min.y <= seg[0].pos.y && seg[0].pos.y <= tight.point_max.y);
        assert!(tight.point_min.y <= seg[3].pos.y && seg[3].pos.y <= tight.point_max.y);
    }
}

#[test]
fn solver_guards_degenerate_axes() {
    // [0, 1, 1, 0] makes the derivative linear (leading coefficient zero):
    // instead of dividing by zero, the solver reports the degenerate axis,
    // which callers treat as "no interior extremum to add".
    assert_eq!(solve_quadratic([0, 1, 1, 0]), Err(SolveError::DegenerateAxis));
    // [0, 1, 2, 3] is affine: again a zero leading coefficient.
    assert_eq!(solve_quadratic([0, 1, 2, 3]), Err(SolveError::DegenerateAxis));
}

#[test]
fn solver_finds_interior_roots_where_derivative_vanishes() {
    // a = 54, b = -54, c = 9, disc = 972, isqrt = 31.
    let (r1, r2) = solve_quadratic([0, 3, -3, 0]).unwrap();
    assert_eq!((r1.num, r1.den), (85, 108));
    assert_eq!((r2.num, r2.den), (23, 108));
    assert!(r1.in_open_unit());
    assert!(r2.in_open_unit());
    // Substitute each root back into the derivative of the cubic on that
    // axis: it vanishes up to the rounding of the integer square root.
    for r in [r1, r2] {
        let t = r.num as f64 / r.den as f64;
        let s = 1.0 - t;
        let d1 = 3.0 * ((3.0 - 0.0) * s * s + 2.0 * (-3.0 - 3.0) * t * s + (0.0 + 3.0) * t * t);
        assert!(d1.abs() < 0.6, "derivative {} at t {}", d1, t);
    }
}

#[test]
fn solver_reports_no_real_root() {
    // xs = [0, 1, 0, 1]: a = 12, b = -12, c = 3, disc = 0: a double root.
    let (r1, r2) = solve_quadratic([0, 1, 0, 1]).unwrap();
    assert_eq!((r1.num, r1.den), (12, 24));
    assert_eq!((r2.num, r2.den), (12, 24));
    // xs = [0, 2, 1, 3]: a = 18 - 9 + 9 = 18, b = -24 + 6 = -18, c = 6,
    // disc = 324 - 432 < 0: no real root.
    assert_eq!(solve_quadratic([0, 2, 1, 3]), Err(SolveError::NoRealRoot));
}

#[test]
fn derivative_values_at_endpoints() {
    let seg = segment();
    let t0 = Frac::new(0, 1);
    let v = velocity(&seg, &t0);
    // B'(0) = 3 (p1 - p0), at denominator scale 1.
    assert_eq!(v.x, 3 * (0 - 0));
    assert_eq!(v.y, 3 * (100 - 0));
    let a = acceleration(&seg, &t0);
    // B''(0) = 6 (p0 - 2 p1 + p2).
    assert_eq!(a.x, 6 * (0 - 2 * 0 + 100));
    assert_eq!(a.y, 6 * (0 - 2 * 100 + 100));
}

#[test]
fn color_blending_differs_between_modes() {
    // The recursive evaluator blends all four control colors (Bernstein
    // weights 1, 3, 3, 1 at t = 1/2), the polynomial evaluator interpolates
    // the two anchor colors only; positions still agree exactly.
    let seg = vec![
        pt(0, 0, grey(10)),
        pt(0, 100, grey(200)),
        pt(100, 100, grey(0)),
        pt(100, 0, grey(40)),
    ];
    let t = Frac::new(1, 2);
    let rec = evaluate(&seg, &t, Mode::Recursive);
    let pol = evaluate(&seg, &t, Mode::Polynomial);
    assert_eq!(rec.pos, pol.pos);
    // Numerators over 2^3 = 8.
    assert_eq!(rec.color.r, 10 + 3 * 200 + 3 * 0 + 40);
    assert_eq!(pol.color.r, (10 + 40) * 4);
    assert_ne!(rec.color.r, pol.color.r);
}

#[test]
fn lerp_midpoint() {
    let a = pt(10, 20, grey(0));
    let b = pt(30, -20, grey(100));
    let t = Frac::new(1, 2);
    let m = a.lerp(&b, &t);
    // Numerators over den = 2.
    assert_eq!(m.pos.x, 40);
    assert_eq!(m.pos.y, 0);
    assert_eq!(m.color.r, 100);
    assert_eq!(m.color.a, 510);
}
