use vstd::prelude::*;
use crate::MAX_COORD;
use crate::eval::{Colorw, EvalPoint, Frac, Vec2w, lerp_num, lerp_step};

verus! {

/// A position in the plane, in integer screen coordinates.
#[derive(Clone, Copy, PartialEq, Eq, Structural, Debug)]
pub struct Vec2i {
    pub x: i64,
    pub y: i64,
}

/// An RGBA color with integer channels (0 ..= 255 in ordinary use).
#[derive(Clone, Copy, PartialEq, Eq, Structural, Debug)]
pub struct Color {
    pub r: i64,
    pub g: i64,
    pub b: i64,
    pub a: i64,
}

/// A control point: a position plus a color.
#[derive(Clone, Copy, PartialEq, Eq, Structural, Debug)]
pub struct Point {
    pub pos: Vec2i,
    pub color: Color,
}

impl Point {
    /// All six channels (two coordinates, four color channels) are within
    /// the range the evaluators accept.
    pub open spec fn bounded(self) -> bool {
        &&& -MAX_COORD <= self.pos.x <= MAX_COORD
        &&& -MAX_COORD <= self.pos.y <= MAX_COORD
        &&& -MAX_COORD <= self.color.r <= MAX_COORD
        &&& -MAX_COORD <= self.color.g <= MAX_COORD
        &&& -MAX_COORD <= self.color.b <= MAX_COORD
        &&& -MAX_COORD <= self.color.a <= MAX_COORD
    }

    pub fn new(pos: Vec2i, color: Color) -> (p: Point)
        ensures
            p.pos == pos,
            p.color == color,
    {
        Point { pos, color }
    }

    /// Linear interpolation between two points at `t`: position and color are
    /// interpolated independently with the same parameter. The result holds
    /// exact numerators over `t.den`.
    pub fn lerp(&self, other: &Point, t: &Frac) -> (r: EvalPoint)
        requires
            self.bounded(),
            other.bounded(),
            t.wf(),
        ensures
            r.pos.x == lerp_num(self.pos.x as int, other.pos.x as int, t.num as int, t.den as int),
            r.pos.y == lerp_num(self.pos.y as int, other.pos.y as int, t.num as int, t.den as int),
            r.color.r == lerp_num(
                self.color.r as int, other.color.r as int, t.num as int, t.den as int,
            ),
            r.color.g == lerp_num(
                self.color.g as int, other.color.g as int, t.num as int, t.den as int,
            ),
            r.color.b == lerp_num(
                self.color.b as int, other.color.b as int, t.num as int, t.den as int,
            ),
            r.color.a == lerp_num(
                self.color.a as int, other.color.a as int, t.num as int, t.den as int,
            ),
    {
        let n = t.num as i128;
        let s = (t.den - t.num) as i128;
        let bound: i128 = MAX_COORD as i128;
        EvalPoint {
            pos: Vec2w {
                x: lerp_step(self.pos.x as i128, other.pos.x as i128, n, s, bound),
                y: lerp_step(self.pos.y as i128, other.pos.y as i128, n, s, bound),
            },
            color: Colorw {
                r: lerp_step(self.color.r as i128, other.color.r as i128, n, s, bound),
                g: lerp_step(self.color.g as i128, other.color.g as i128, n, s, bound),
                b: lerp_step(self.color.b as i128, other.color.b as i128, n, s, bound),
                a: lerp_step(self.color.a as i128, other.color.a as i128, n, s, bound),
            },
        }
    }
}

} // verus!
