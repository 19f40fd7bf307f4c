use vstd::prelude::*;
use crate::{CONTROLPOINT_RADIUS, MAX_COORD};
use crate::point::{Color, Point, Vec2i};
use crate::curve::Curve;

verus! {

/// One frame's worth of pointer input, as plain values.
#[derive(Clone, Copy, PartialEq, Eq, Structural, Debug)]
pub struct TickInput {
    pub mouse: Vec2i,
    /// Primary button currently held.
    pub left_down: bool,
    /// Primary button pressed this tick (edge).
    pub left_pressed: bool,
    /// Secondary button pressed this tick (edge).
    pub right_pressed: bool,
}

/// The fixed cyclic palette that newly inserted points draw their color from.
pub open spec fn palette_spec(i: int) -> Color {
    if i == 0 {
        Color { r: 255, g: 165, b: 0, a: 255 }
    } else if i == 1 {
        Color { r: 0, g: 121, b: 241, a: 255 }
    } else if i == 2 {
        Color { r: 230, g: 41, b: 55, a: 255 }
    } else {
        Color { r: 200, g: 122, b: 255, a: 255 }
    }
}

/// The pointer is within the pick radius of `p` (squared distances, exact).
pub open spec fn hit(p: Point, m: Vec2i) -> bool {
    (p.pos.x - m.x) * (p.pos.x - m.x) + (p.pos.y - m.y) * (p.pos.y - m.y)
        <= CONTROLPOINT_RADIUS * CONTROLPOINT_RADIUS
}

/// Index of the first control point at or after `i` within the pick radius.
pub open spec fn first_hit_from(c: Seq<Point>, m: Vec2i, i: int) -> Option<int>
    decreases c.len() - i,
{
    if i < 0 || i >= c.len() {
        None
    } else if hit(c[i], m) {
        Some(i)
    } else {
        first_hit_from(c, m, i + 1)
    }
}

/// Selection scans in index order, so the earliest-inserted point wins when
/// several overlap: a hit at `i` with no hit before it is the selection.
pub proof fn lemma_select_first_hit(c: Seq<Point>, m: Vec2i, i: int)
    requires
        0 <= i < c.len(),
        hit(c[i], m),
        forall|j: int| 0 <= j < i ==> !hit(#[trigger] c[j], m),
    ensures
        first_hit_from(c, m, 0) == Some(i),
    decreases i,
{
    if i == 0 {
    } else {
        lemma_skip_one(c, m, i, 0);
    }
}

proof fn lemma_skip_one(c: Seq<Point>, m: Vec2i, i: int, j: int)
    requires
        0 <= j <= i < c.len(),
        hit(c[i], m),
        forall|q: int| 0 <= q < i ==> !hit(#[trigger] c[q], m),
    ensures
        first_hit_from(c, m, j) == Some(i),
    decreases i - j,
{
    if j < i {
        lemma_skip_one(c, m, i, j + 1);
    }
}

/// The editor: one curve, at most one selected control point, and a cursor
/// into the color palette for the next inserted point.
pub struct Editor {
    pub curve: Curve,
    pub selected: Option<usize>,
    pub next_color: usize,
}

/// The selection after the per-tick scan: an already selected point stays
/// selected, otherwise the first point within the pick radius is taken.
pub open spec fn sel_after_scan(pre: Editor, input: TickInput) -> Option<int> {
    match pre.selected {
        Some(i) => Some(i as int),
        None => first_hit_from(pre.curve.control@, input.mouse, 0),
    }
}

/// What one input tick does to the editor, in the priority order of the
/// interaction rules: drag while held, delete on secondary press, insert on
/// primary press with nothing selected, and selection cleared whenever the
/// primary button is not held.
pub open spec fn tick_rel(pre: Editor, input: TickInput, post: Editor) -> bool {
    let sel0 = sel_after_scan(pre, input);
    &&& post.curve.mode == pre.curve.mode
    &&& match sel0 {
        Option::Some(i) => {
            &&& post.next_color == pre.next_color
            &&& if input.right_pressed {
                &&& post.curve.control@ == pre.curve.control@.remove(i)
                &&& post.curve.modified
                &&& post.selected is None
            } else if input.left_down {
                &&& post.curve.control@ == pre.curve.control@.update(
                    i,
                    Point { pos: input.mouse, color: pre.curve.control@[i].color },
                )
                &&& post.curve.modified
                &&& post.selected == Some(i as usize)
            } else {
                &&& post.curve.control@ == pre.curve.control@
                &&& post.selected is None
            }
        },
        Option::None => {
            &&& post.selected is None
            &&& if input.left_pressed {
                &&& post.curve.control@ == pre.curve.control@.push(
                    Point { pos: input.mouse, color: palette_spec(pre.next_color as int) },
                )
                &&& post.curve.modified
                &&& post.next_color == (pre.next_color + 1) % 4
            } else {
                &&& post.curve.control@ == pre.curve.control@
                &&& post.next_color == pre.next_color
            }
        },
    }
}

/// Inserting while nothing is selected grows the control sequence by exactly
/// one point and marks the curve dirty, so the next draw rebuilds before
/// anything stale could be shown.
pub proof fn lemma_insert_adds_one(pre: Editor, input: TickInput, post: Editor)
    requires
        tick_rel(pre, input, post),
        pre.selected is None,
        first_hit_from(pre.curve.control@, input.mouse, 0) is None,
        input.left_pressed,
    ensures
        post.curve.control@.len() == pre.curve.control@.len() + 1,
        post.curve.modified,
{
}

/// Deleting the selected point shrinks the control sequence by exactly one
/// and marks the curve dirty; once fewer than four points remain, the next
/// rebuild produces empty sample and box caches.
pub proof fn lemma_delete_removes_one(pre: Editor, input: TickInput, post: Editor, i: usize)
    requires
        tick_rel(pre, input, post),
        pre.selected == Some(i),
        i < pre.curve.control@.len(),
        input.right_pressed,
    ensures
        post.curve.control@.len() == pre.curve.control@.len() - 1,
        post.curve.modified,
        post.selected is None,
        post.curve.control@.len() < 4
            ==> crate::curve::seg_count_of(post.curve.control@.len() as int) == 0,
{
}

impl Editor {
    pub open spec fn wf(self) -> bool {
        &&& self.curve.wf()
        &&& match self.selected {
            Some(i) => i < self.curve.control@.len(),
            None => true,
        }
        &&& self.next_color < 4
    }

    /// A fresh editor around an empty, dirty curve.
    pub fn new() -> (e: Editor)
        ensures
            e.wf(),
            e.curve.control@.len() == 0,
            e.selected is None,
            e.next_color == 0,
    {
        Editor { curve: Curve::new(), selected: None, next_color: 0 }
    }

    /// Scan the control points in index order for the first one within the
    /// pick radius of the pointer.
    fn find_first_hit(points: &Vec<Point>, m: Vec2i) -> (r: Option<usize>)
        requires
            forall|i: int| 0 <= i < points@.len() ==> (#[trigger] points@[i]).bounded(),
            -MAX_COORD <= m.x <= MAX_COORD,
            -MAX_COORD <= m.y <= MAX_COORD,
        ensures
            match r {
                Some(i) => i < points@.len() && first_hit_from(points@, m, 0) == Some(i as int),
                None => first_hit_from(points@, m, 0) is None,
            },
    {
        let mut i: usize = 0;
        while i < points.len()
            invariant
                i <= points@.len(),
                forall|i2: int| 0 <= i2 < points@.len() ==> (#[trigger] points@[i2]).bounded(),
                -MAX_COORD <= m.x <= MAX_COORD,
                -MAX_COORD <= m.y <= MAX_COORD,
                forall|j: int| 0 <= j < i ==> !hit(#[trigger] points@[j], m),
            decreases points@.len() - i,
        {
            let p = points[i];
            let dx = p.pos.x - m.x;
            let dy = p.pos.y - m.y;
            proof {
                assert(
                    0 <= dx * dx <= 4_000_000_000_000i64 && 0 <= dy * dy <= 4_000_000_000_000i64
                ) by (nonlinear_arith)
                    requires
                        -2_000_000 <= dx <= 2_000_000i64,
                        -2_000_000 <= dy <= 2_000_000i64;
            }
            if dx * dx + dy * dy <= CONTROLPOINT_RADIUS * CONTROLPOINT_RADIUS {
                proof {
                    lemma_select_first_hit(points@, m, i as int);
                }
                return Some(i);
            }
            i = i + 1;
        }
        proof {
            lemma_no_hit(points@, m, 0);
        }
        None
    }

    /// One input tick: selection by proximity, drag, delete, insert and
    /// release, applied in the stated priority order. Every mutation leaves
    /// the curve dirty.
    pub fn tick(&mut self, input: &TickInput)
        requires
            old(self).wf(),
            -MAX_COORD <= input.mouse.x <= MAX_COORD,
            -MAX_COORD <= input.mouse.y <= MAX_COORD,
            old(self).curve.control@.len() < 1_000_000,
        ensures
            final(self).wf(),
            tick_rel(*old(self), *input, *final(self)),
    {
        let sel0: Option<usize> = match self.selected {
            Some(i) => Some(i),
            None => Self::find_first_hit(&self.curve.control, input.mouse),
        };
        match sel0 {
            Some(i) => {
                if input.right_pressed {
                    self.curve.remove_point(i);
                    self.selected = None;
                } else if input.left_down {
                    self.curve.move_point(i, input.mouse);
                    self.selected = Some(i);
                } else {
                    self.selected = None;
                }
            },
            None => {
                self.selected = None;
                if input.left_pressed {
                    let color = palette_color(self.next_color);
                    self.curve.add_point(Point::new(input.mouse, color));
                    self.next_color = (self.next_color + 1) % 4;
                }
            },
        }
    }
}

proof fn lemma_no_hit(c: Seq<Point>, m: Vec2i, j: int)
    requires
        0 <= j,
        forall|q: int| 0 <= q < c.len() ==> !hit(#[trigger] c[q], m),
    ensures
        first_hit_from(c, m, j) is None,
    decreases c.len() - j,
{
    if j < c.len() {
        lemma_no_hit(c, m, j + 1);
    }
}

/// The cyclic palette as executable code.
fn palette_color(i: usize) -> (c: Color)
    requires
        i < 4,
    ensures
        c == palette_spec(i as int),
        c.r <= 255 && c.g <= 255 && c.b <= 255 && c.a <= 255,
        0 <= c.r && 0 <= c.g && 0 <= c.b && 0 <= c.a,
{
    if i == 0 {
        Color { r: 255, g: 165, b: 0, a: 255 }
    } else if i == 1 {
        Color { r: 0, g: 121, b: 241, a: 255 }
    } else if i == 2 {
        Color { r: 230, g: 41, b: 55, a: 255 }
    } else {
        Color { r: 200, g: 122, b: 255, a: 255 }
    }
}

} // verus!
