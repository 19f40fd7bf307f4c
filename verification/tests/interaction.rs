use bezier_editor::curve::Curve;
use bezier_editor::editor::{Editor, TickInput};
use bezier_editor::eval::Mode;
use bezier_editor::point::{Color, Point, Vec2i};

fn quiet(mx: i64, my: i64) -> TickInput {
    TickInput {
        mouse: Vec2i { x: mx, y: my },
        left_down: false,
        left_pressed: false,
        right_pressed: false,
    }
}

#[test]
fn insert_adds_one_point_and_marks_dirty() {
    let mut ed = Editor::new();
    let mut input = quiet(50, 60);
    input.left_down = true;
    input.left_pressed = true;
    ed.tick(&input);
    assert_eq!(ed.curve.control.len(), 1);
    assert!(ed.curve.modified);
    assert_eq!(ed.curve.control[0].pos, Vec2i { x: 50, y: 60 });
    // A draw request always rebuilds before anything is read.
    ed.curve.draw();
    assert!(!ed.curve.modified);
    assert_eq!(ed.curve.rendered.len(), 0); // fewer than 4 points: no segment
}

#[test]
fn delete_selected_point_and_empty_caches() {
    let mut ed = Editor::new();
    for (x, y) in [(0, 0), (0, 100), (100, 100), (100, 0)] {
        let mut input = quiet(x, y);
        input.left_down = true;
        input.left_pressed = true;
        ed.tick(&input);
        // release, far away from every point
        ed.tick(&quiet(5000, 5000));
    }
    assert_eq!(ed.curve.control.len(), 4);
    ed.curve.draw();
    assert_eq!(ed.curve.rendered.len(), 201);
    assert_eq!(ed.curve.boxes.len(), 2);
    // Hover over the last point and press the secondary button: the point
    // is selected by proximity and deleted in the same tick.
    let mut input = quiet(100, 0);
    input.right_pressed = true;
    ed.tick(&input);
    assert_eq!(ed.curve.control.len(), 3);
    assert!(ed.curve.modified);
    assert_eq!(ed.selected, None);
    // With fewer than 4 points the next draw leaves the caches empty.
    ed.curve.draw();
    assert_eq!(ed.curve.rendered.len(), 0);
    assert_eq!(ed.curve.boxes.len(), 0);
}

#[test]
fn selection_prefers_lowest_index_on_overlap() {
    let mut ed = Editor::new();
    // Two points, the second dragged onto the first so they overlap.
    for (x, y) in [(10, 10), (40, 40)] {
        let mut input = quiet(x, y);
        input.left_down = true;
        input.left_pressed = true;
        ed.tick(&input);
        ed.tick(&quiet(5000, 5000));
    }
    let mut input = quiet(40, 40);
    input.left_down = true;
    ed.tick(&input); // select the second point
    let mut input = quiet(10, 10);
    input.left_down = true;
    ed.tick(&input); // drag it onto the first
    ed.tick(&quiet(5000, 5000)); // release
    assert_eq!(ed.curve.control.len(), 2);
    assert_eq!(ed.curve.control[1].pos, Vec2i { x: 10, y: 10 });
    // Hold the primary button within the pick radius of both: the point
    // with the lower index is selected and dragged.
    let mut input = quiet(12, 13);
    input.left_down = true;
    ed.tick(&input);
    assert_eq!(ed.selected, Some(0));
    assert_eq!(ed.curve.control[0].pos, Vec2i { x: 12, y: 13 });
    assert_eq!(ed.curve.control[1].pos, Vec2i { x: 10, y: 10 });
}

#[test]
fn selection_within_radius_exactly_one_point() {
    let mut ed = Editor::new();
    let mut input = quiet(500, 500);
    input.left_down = true;
    input.left_pressed = true;
    ed.tick(&input);
    ed.tick(&quiet(5000, 5000));
    // Pointer 6 px away: inside the 10 px pick radius.
    let mut input = quiet(503, 505);
    input.left_down = true;
    ed.tick(&input);
    assert_eq!(ed.selected, Some(0));
    // Release clears the selection.
    ed.tick(&quiet(503, 505));
    assert_eq!(ed.selected, None);
}

#[test]
fn mode_toggle_marks_dirty() {
    let mut curve = Curve::new();
    curve.draw();
    assert!(!curve.modified);
    curve.toggle_mode();
    assert_eq!(curve.mode, Mode::Recursive);
    assert!(curve.modified);
}

#[test]
fn end_to_end_polynomial_sampling() {
    const S: i128 = 8_000_000; // 200^3, the sample numerator scale
    let c0 = Color { r: 1, g: 2, b: 3, a: 255 };
    let c1 = Color { r: 4, g: 5, b: 6, a: 255 };
    let c2 = Color { r: 7, g: 8, b: 9, a: 255 };
    let c3 = Color { r: 10, g: 11, b: 12, a: 255 };
    let mut curve = Curve::new();
    assert_eq!(curve.mode, Mode::Polynomial);
    for (x, y, c) in [(0, 0, c0), (0, 100, c1), (100, 100, c2), (100, 0, c3)] {
        curve.add_point(Point { pos: Vec2i { x, y }, color: c });
    }
    curve.draw();
    assert_eq!(curve.rendered.len(), 201);
    let first = curve.rendered[0];
    assert_eq!(first.pos.x, 0);
    assert_eq!(first.pos.y, 0);
    assert_eq!(first.color.r, c0.r as i128 * S);
    let last = curve.rendered[200];
    assert_eq!(last.pos.x, 100 * S);
    assert_eq!(last.pos.y, 0);
    assert_eq!(last.color.r, c3.r as i128 * S);
    // Every sample lies within the coarse box of the four control points.
    for p in &curve.rendered {
        assert!(0 <= p.pos.x && p.pos.x <= 100 * S);
        assert!(0 <= p.pos.y && p.pos.y <= 100 * S);
    }
    // The cached boxes: coarse box of the window, and the tight box inside it.
    let coarse = curve.boxes[0];
    assert_eq!(coarse.point_min, Vec2i { x: 0, y: 0 });
    assert_eq!(coarse.point_max, Vec2i { x: 100, y: 100 });
    let tight = curve.boxes[1];
    assert!(coarse.point_min.x <= tight.point_min.x);
    assert!(tight.point_max.x <= coarse.point_max.x);
    assert!(coarse.point_min.y <= tight.point_min.y);
    assert!(tight.point_max.y <= coarse.point_max.y);
    // On this symmetric arch the y axis is degenerate (zero leading
    // coefficient) and the x roots land on the segment ends, so the tight
    // box is exactly the anchors' box.
    assert_eq!(tight.point_min, Vec2i { x: 0, y: 0 });
    assert_eq!(tight.point_max, Vec2i { x: 100, y: 0 });
}
